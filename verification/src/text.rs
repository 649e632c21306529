use vstd::prelude::*;

verus! {

/// Unicode `White_Space`: the characters that `char::is_whitespace` accepts.
pub open spec fn is_space(c: char) -> bool {
    ||| ('\u{9}' <= c && c <= '\u{d}')
    ||| c == ' '
    ||| c == '\u{85}'
    ||| c == '\u{a0}'
    ||| c == '\u{1680}'
    ||| ('\u{2000}' <= c && c <= '\u{200a}')
    ||| c == '\u{2028}'
    ||| c == '\u{2029}'
    ||| c == '\u{202f}'
    ||| c == '\u{205f}'
    ||| c == '\u{3000}'
}

/// Whether `c` is Unicode white space.
pub fn is_whitespace(c: char) -> (b: bool)
    ensures
        b == is_space(c),
{
    ('\u{9}' <= c && c <= '\u{d}') || c == ' ' || c == '\u{85}' || c == '\u{a0}' || c == '\u{1680}'
        || ('\u{2000}' <= c && c <= '\u{200a}') || c == '\u{2028}' || c == '\u{2029}'
        || c == '\u{202f}' || c == '\u{205f}' || c == '\u{3000}'
}

/// The characters of `s`, in order.
pub fn chars_of(s: &str) -> (v: Vec<char>)
    ensures
        v@ == s@,
{
    let mut v: Vec<char> = Vec::new();
    for c in it: s.chars()
        invariant
            it.seq() == s@,
            v@ == it.seq().take(it.index()),
    {
        v.push(c);
    }
    v
}

/// `String::push`: appends one character.
#[verifier::external_body]
fn push_char(s: &mut String, c: char)
    ensures
        final(s)@ == old(s)@.push(c),
{
    s.push(c);
}

/// The string made of the characters in `v`.
pub fn string_of(v: &Vec<char>) -> (s: String)
    ensures
        s@ == v@,
{
    let mut s = String::new();
    let mut i: usize = 0;
    while i < v.len()
        invariant
            i <= v.len(),
            s@ == v@.take(i as int),
        decreases v.len() - i,
    {
        push_char(&mut s, v[i]);
        assert(v@.take(i + 1) == v@.take(i as int).push(v@[i as int]));
        i = i + 1;
    }
    assert(v@.take(v.len() as int) == v@);
    s
}

} // verus!

verus! {

/// `s` without its leading white space (`str::trim_start`).
pub open spec fn trim_start(s: Seq<char>) -> Seq<char>
    decreases s.len(),
{
    if s.len() > 0 && is_space(s[0]) {
        trim_start(s.drop_first())
    } else {
        s
    }
}

/// `s` without its trailing white space (`str::trim_end`).
pub open spec fn trim_end(s: Seq<char>) -> Seq<char>
    decreases s.len(),
{
    if s.len() > 0 && is_space(s.last()) {
        trim_end(s.drop_last())
    } else {
        s
    }
}

/// `s` without leading and trailing white space (`str::trim`).
pub open spec fn trim(s: Seq<char>) -> Seq<char> {
    trim_end(trim_start(s))
}

/// The index of the first `'\n'` in `s`, or `s.len()` when there is none.
pub open spec fn find_newline(s: Seq<char>) -> nat
    decreases s.len(),
{
    if s.len() == 0 {
        0
    } else if s[0] == '\n' {
        0
    } else {
        1 + find_newline(s.drop_first())
    }
}

/// A line that ended in `"\r\n"` loses its `'\r'`.
pub open spec fn strip_cr(l: Seq<char>) -> Seq<char> {
    if l.len() > 0 && l.last() == '\r' {
        l.drop_last()
    } else {
        l
    }
}

/// The lines of `s`, as `str::lines` gives them: split after each `'\n'`,
/// each line without its `"\n"` or `"\r\n"`, and no empty line after a final
/// line ending.
pub open spec fn lines(s: Seq<char>) -> Seq<Seq<char>>
    decreases s.len(),
{
    if s.len() == 0 {
        seq![]
    } else {
        let k = find_newline(s);
        if k >= s.len() {
            seq![s]
        } else {
            seq![strip_cr(s.take(k as int))] + lines(s.skip((k + 1) as int))
        }
    }
}

/// The parts of `parts` with `sep` between each two of them.
pub open spec fn join(parts: Seq<Seq<char>>, sep: Seq<char>) -> Seq<char>
    decreases parts.len(),
{
    if parts.len() == 0 {
        seq![]
    } else if parts.len() == 1 {
        parts[0]
    } else {
        join(parts.drop_last(), sep) + sep + parts.last()
    }
}

/// The views of a sequence of character vectors.
pub open spec fn views(v: Seq<Vec<char>>) -> Seq<Seq<char>> {
    v.map_values(|x: Vec<char>| x@)
}

pub proof fn lemma_find_newline(s: Seq<char>, m: int)
    requires
        0 <= m <= s.len(),
        forall|j: int| 0 <= j < m ==> s[j] != '\n',
        m == s.len() || s[m] == '\n',
    ensures
        find_newline(s) == m,
    decreases m,
{
    if m > 0 {
        lemma_find_newline(s.drop_first(), m - 1);
    }
}

/// The index of the first character of `v` that is not white space.
pub fn trim_start_index(v: &Vec<char>) -> (k: usize)
    ensures
        k <= v.len(),
        v@.skip(k as int) == trim_start(v@),
{
    let mut k: usize = 0;
    assert(v@.skip(0) == v@);
    while k < v.len() && is_whitespace(v[k])
        invariant
            k <= v.len(),
            trim_start(v@) == trim_start(v@.skip(k as int)),
        decreases v.len() - k,
    {
        assert(v@.skip(k as int).drop_first() == v@.skip(k + 1));
        k = k + 1;
    }
    k
}

/// The bounds of `trim(v)` within `v`, from index `from` on.
pub fn trim_end_index(v: &Vec<char>, from: usize) -> (j: usize)
    requires
        from <= v.len(),
    ensures
        from <= j <= v.len(),
        v@.subrange(from as int, j as int) == trim_end(v@.skip(from as int)),
{
    let mut j: usize = v.len();
    assert(v@.subrange(from as int, j as int) == v@.skip(from as int));
    while j > from && is_whitespace(v[j - 1])
        invariant
            from <= j <= v.len(),
            trim_end(v@.skip(from as int)) == trim_end(v@.subrange(from as int, j as int)),
        decreases j,
    {
        assert(v@.subrange(from as int, j as int).drop_last() == v@.subrange(from as int, j - 1));
        j = j - 1;
    }
    j
}

/// The characters of `v` from `a` up to `b`.
pub fn slice_chars(v: &Vec<char>, a: usize, b: usize) -> (r: Vec<char>)
    requires
        a <= b <= v.len(),
    ensures
        r@ == v@.subrange(a as int, b as int),
{
    let mut r: Vec<char> = Vec::new();
    let mut i: usize = a;
    while i < b
        invariant
            a <= i <= b <= v.len(),
            r@ == v@.subrange(a as int, i as int),
        decreases b - i,
    {
        r.push(v[i]);
        assert(v@.subrange(a as int, i + 1) == v@.subrange(a as int, i as int).push(v@[i as int]));
        i = i + 1;
    }
    r
}

/// `trim(v)`.
pub fn trim_chars(v: &Vec<char>) -> (r: Vec<char>)
    ensures
        r@ == trim(v@),
{
    let k = trim_start_index(v);
    let j = trim_end_index(v, k);
    slice_chars(v, k, j)
}

/// `trim_end(v)`.
pub fn trim_end_chars(v: &Vec<char>) -> (r: Vec<char>)
    ensures
        r@ == trim_end(v@),
{
    let j = trim_end_index(v, 0);
    assert(v@.skip(0) == v@);
    slice_chars(v, 0, j)
}

/// The lines of `v` (`str::lines`).
pub fn split_lines(v: &Vec<char>) -> (r: Vec<Vec<char>>)
    ensures
        views(r@) == lines(v@),
{
    let mut r: Vec<Vec<char>> = Vec::new();
    let mut start: usize = 0;
    assert(v@.skip(0) == v@);
    while start < v.len()
        invariant
            start <= v.len(),
            lines(v@) == views(r@) + lines(v@.skip(start as int)),
        decreases v.len() - start,
    {
        let ghost rest = v@.skip(start as int);
        let mut k: usize = start;
        while k < v.len() && v[k] != '\n'
            invariant
                start <= k <= v.len(),
                forall|j: int| start <= j < k ==> v@[j] != '\n',
            decreases v.len() - k,
        {
            k = k + 1;
        }
        proof {
            lemma_find_newline(rest, k - start);
        }
        let mut line = slice_chars(v, start, k);
        assert(line@ == rest.take(k - start));
        let ghost before = views(r@);
        if k < v.len() {
            let n = line.len();
            if n > 0 && line[n - 1] == '\r' {
                line.pop();
            }
            assert(rest.skip(k - start + 1) == v@.skip(k + 1));
            r.push(line);
            assert(views(r@) == before.push(strip_cr(rest.take(k - start))));
            start = k + 1;
        } else {
            assert(line@ == rest);
            r.push(line);
            assert(views(r@) == before.push(rest));
            start = v.len();
            assert(v@.skip(start as int).len() == 0);
        }
    }
    assert(v@.skip(start as int).len() == 0);
    assert(lines(v@) == views(r@) + seq![]);
    r
}

/// `join(views(parts), sep)`.
pub fn join_chars(parts: &Vec<Vec<char>>, sep: &Vec<char>) -> (r: Vec<char>)
    ensures
        r@ == join(views(parts@), sep@),
{
    let mut r: Vec<char> = Vec::new();
    let mut i: usize = 0;
    while i < parts.len()
        invariant
            i <= parts.len(),
            r@ == join(views(parts@).take(i as int), sep@),
        decreases parts.len() - i,
    {
        let ghost before = r@;
        if i > 0 {
            append_chars(&mut r, sep);
        }
        append_chars(&mut r, &parts[i]);
        assert(views(parts@).take(i + 1).drop_last() == views(parts@).take(i as int));
        i = i + 1;
    }
    assert(views(parts@).take(parts.len() as int) == views(parts@));
    r
}

/// Appends `w` to `v`.
pub fn append_chars(v: &mut Vec<char>, w: &Vec<char>)
    ensures
        final(v)@ == old(v)@ + w@,
{
    let mut i: usize = 0;
    while i < w.len()
        invariant
            i <= w.len(),
            v@ == old(v)@ + w@.take(i as int),
        decreases w.len() - i,
    {
        v.push(w[i]);
        assert(w@.take(i + 1) == w@.take(i as int).push(w@[i as int]));
        i = i + 1;
    }
    assert(w@.take(w.len() as int) == w@);
}

} // verus!

verus! {

/// `n` copies of `c`.
pub open spec fn repeat_char(c: char, n: nat) -> Seq<char> {
    Seq::new(n, |i: int| c)
}

/// `n` spaces.
pub open spec fn spaces(n: nat) -> Seq<char> {
    repeat_char(' ', n)
}

/// `s` padded on the right with spaces to `w` characters (`{:<w}`); a
/// longer `s` is left as it is.
pub open spec fn pad_right(s: Seq<char>, w: nat) -> Seq<char> {
    if s.len() < w {
        s + spaces((w - s.len()) as nat)
    } else {
        s
    }
}

/// The decimal digit for `d`.
pub open spec fn digit(d: nat) -> char {
    if d == 0 { '0' }
    else if d == 1 { '1' }
    else if d == 2 { '2' }
    else if d == 3 { '3' }
    else if d == 4 { '4' }
    else if d == 5 { '5' }
    else if d == 6 { '6' }
    else if d == 7 { '7' }
    else if d == 8 { '8' }
    else { '9' }
}

/// `n` written in decimal, without leading zeros.
pub open spec fn decimal(n: nat) -> Seq<char>
    decreases n,
{
    if n < 10 {
        seq![digit(n)]
    } else {
        decimal(n / 10).push(digit(n % 10))
    }
}

/// `n` copies of `c`.
pub fn repeat_chars(c: char, n: usize) -> (r: Vec<char>)
    ensures
        r@ == repeat_char(c, n as nat),
{
    let mut r: Vec<char> = Vec::new();
    let mut i: usize = 0;
    while i < n
        invariant
            i <= n,
            r@ == repeat_char(c, i as nat),
        decreases n - i,
    {
        r.push(c);
        assert(r@ == repeat_char(c, (i + 1) as nat));
        i = i + 1;
    }
    r
}

/// `pad_right(s, w)`.
pub fn pad_right_chars(s: &Vec<char>, w: usize) -> (r: Vec<char>)
    ensures
        r@ == pad_right(s@, w as nat),
{
    let mut r = s.clone();
    if s.len() < w {
        let pad = repeat_chars(' ', w - s.len());
        append_chars(&mut r, &pad);
    }
    r
}

fn digit_char(d: u128) -> (c: char)
    requires
        d < 10,
    ensures
        c == digit(d as nat),
{
    if d == 0 { '0' }
    else if d == 1 { '1' }
    else if d == 2 { '2' }
    else if d == 3 { '3' }
    else if d == 4 { '4' }
    else if d == 5 { '5' }
    else if d == 6 { '6' }
    else if d == 7 { '7' }
    else if d == 8 { '8' }
    else { '9' }
}

/// `n` in decimal.
pub fn decimal_chars(n: u128) -> (r: Vec<char>)
    ensures
        r@ == decimal(n as nat),
    decreases n,
{
    if n < 10 {
        let mut r: Vec<char> = Vec::new();
        r.push(digit_char(n));
        r
    } else {
        let mut r = decimal_chars(n / 10);
        r.push(digit_char(n % 10));
        r
    }
}

/// The characters of a string.
pub fn string_chars(s: &String) -> (v: Vec<char>)
    ensures
        v@ == s@,
{
    chars_of(s.as_str())
}

} // verus!

verus! {

/// Whether two character vectors hold the same characters.
pub fn chars_eq(a: &Vec<char>, b: &Vec<char>) -> (r: bool)
    ensures
        r == (a@ == b@),
{
    if a.len() != b.len() {
        return false;
    }
    let mut i: usize = 0;
    while i < a.len()
        invariant
            i <= a.len() == b.len(),
            forall|j: int| 0 <= j < i ==> a@[j] == b@[j],
        decreases a.len() - i,
    {
        if a[i] != b[i] {
            return false;
        }
        i = i + 1;
    }
    assert(a@ =~= b@);
    true
}

/// Whether `s`, without its leading white space, begins with `c`.
pub open spec fn starts_with_after_space(s: Seq<char>, c: char) -> bool {
    let t = trim_start(s);
    t.len() > 0 && t[0] == c
}

/// `starts_with_after_space(v, c)`.
pub fn begins_with(v: &Vec<char>, c: char) -> (r: bool)
    ensures
        r == starts_with_after_space(v@, c),
{
    let k = trim_start_index(v);
    k < v.len() && v[k] == c
}

} // verus!

verus! {

/// `find_newline(s)` is the index of the first `'\n'`, or the length.
pub proof fn lemma_find_newline_props(s: Seq<char>)
    ensures
        find_newline(s) <= s.len(),
        forall|j: int| 0 <= j < find_newline(s) ==> s[j] != '\n',
        find_newline(s) < s.len() ==> s[find_newline(s) as int] == '\n',
    decreases s.len(),
{
    if s.len() > 0 && s[0] != '\n' {
        lemma_find_newline_props(s.drop_first());
        assert forall|j: int| 0 <= j < find_newline(s) implies s[j] != '\n' by {
            if j > 0 {
                assert(s[j] == s.drop_first()[j - 1]);
            }
        }
    }
}

/// No line of `s` holds a `'\n'`.
pub proof fn lemma_lines_have_no_newline(s: Seq<char>)
    ensures
        forall|i: int, j: int| 0 <= i < lines(s).len() && 0 <= j < lines(s)[i].len()
            ==> #[trigger] lines(s)[i][j] != '\n',
    decreases s.len(),
{
    if s.len() > 0 {
        let k = find_newline(s);
        lemma_find_newline_props(s);
        if k < s.len() {
            lemma_lines_have_no_newline(s.skip((k + 1) as int));
            assert forall|i: int, j: int| 0 <= i < lines(s).len() && 0 <= j < lines(s)[i].len()
                implies #[trigger] lines(s)[i][j] != '\n' by {
                if i > 0 {
                    assert(lines(s)[i] == lines(s.skip((k + 1) as int))[i - 1]);
                } else {
                    assert(lines(s)[0] == strip_cr(s.take(k as int)));
                }
            }
        }
    }
}

/// A non-empty string without `'\n'` is one line.
pub proof fn lemma_lines_single(s: Seq<char>)
    requires
        s.len() > 0,
        forall|j: int| 0 <= j < s.len() ==> s[j] != '\n',
    ensures
        lines(s) == seq![s],
{
    lemma_find_newline(s, s.len() as int);
}

/// `trim_start(s)` is a suffix of `s` that does not begin with white space.
pub proof fn lemma_trim_start_props(s: Seq<char>)
    ensures
        trim_start(s).len() <= s.len(),
        trim_start(s) == s.skip(s.len() - trim_start(s).len()),
        trim_start(s).len() > 0 ==> !is_space(trim_start(s)[0]),
        forall|j: int| 0 <= j < s.len() - trim_start(s).len() ==> is_space(#[trigger] s[j]),
    decreases s.len(),
{
    if s.len() > 0 && is_space(s[0]) {
        lemma_trim_start_props(s.drop_first());
        assert(s.drop_first().skip(s.drop_first().len() - trim_start(s).len()) =~= s.skip(
            s.len() - trim_start(s).len(),
        ));
        assert forall|j: int| 0 <= j < s.len() - trim_start(s).len() implies is_space(#[trigger] s[j]) by {
            if j > 0 {
                assert(s[j] == s.drop_first()[j - 1]);
            }
        }
    } else {
        assert(s.skip(0) =~= s);
    }
}

/// `trim_end(s)` is a prefix of `s` that does not end with white space, and
/// not empty when `s` begins with something else.
pub proof fn lemma_trim_end_props(s: Seq<char>)
    ensures
        trim_end(s).len() <= s.len(),
        trim_end(s) == s.take(trim_end(s).len() as int),
        trim_end(s).len() > 0 ==> !is_space(trim_end(s).last()),
        s.len() > 0 && !is_space(s[0]) ==> trim_end(s).len() > 0,
    decreases s.len(),
{
    if s.len() > 0 && is_space(s.last()) {
        lemma_trim_end_props(s.drop_last());
        assert(s.drop_last().take(trim_end(s).len() as int) =~= s.take(trim_end(s).len() as int));
    } else {
        assert(s.take(s.len() as int) =~= s);
    }
}

/// `trim(s)` is a slice of `s` that neither begins nor ends with white space.
pub proof fn lemma_trim_props(s: Seq<char>)
    ensures
        exists|a: int| 0 <= a && a + trim(s).len() <= s.len() && trim(s) == #[trigger] s.subrange(a, a + trim(s).len()),
        trim(s).len() > 0 ==> !is_space(trim(s)[0]) && !is_space(trim(s).last()),
{
    let y = trim_start(s);
    lemma_trim_start_props(s);
    lemma_trim_end_props(y);
    let a = s.len() - y.len();
    assert(trim(s) =~= s.subrange(a, a + trim(s).len()));
    if trim(s).len() > 0 {
        assert(trim(s)[0] == y[0]);
    }
}

/// Trimming twice is trimming once.
pub proof fn lemma_trim_idempotent(s: Seq<char>)
    ensures
        trim(trim(s)) == trim(s),
{
    let x = trim(s);
    lemma_trim_props(s);
    if x.len() > 0 {
        assert(trim_start(x) == x);
        assert(trim_end(x) == x);
    } else {
        assert(trim_start(x) == x);
    }
}

/// Trimming adds no `'\n'`.
pub proof fn lemma_trim_keeps_no_newline(s: Seq<char>)
    requires
        forall|j: int| 0 <= j < s.len() ==> s[j] != '\n',
    ensures
        forall|j: int| 0 <= j < trim(s).len() ==> trim(s)[j] != '\n',
{
    lemma_trim_props(s);
    let a = choose|a: int| 0 <= a && a + trim(s).len() <= s.len() && trim(s) == #[trigger] s.subrange(a, a + trim(s).len());
    assert forall|j: int| 0 <= j < trim(s).len() implies trim(s)[j] != '\n' by {
        assert(trim(s)[j] == s[a + j]);
    }
}

/// `join` from the front: the first part, the separator, the rest.
pub proof fn lemma_join_front(parts: Seq<Seq<char>>, sep: Seq<char>)
    requires
        parts.len() >= 2,
    ensures
        join(parts, sep) == parts[0] + sep + join(parts.drop_first(), sep),
    decreases parts.len(),
{
    if parts.len() > 2 {
        let dl = parts.drop_last();
        let df = parts.drop_first();
        lemma_join_front(dl, sep);
        assert(dl.drop_first() =~= df.drop_last());
        assert(df.last() == parts.last());
        assert(dl[0] == parts[0]);
        assert(join(df, sep) == join(df.drop_last(), sep) + sep + df.last());
        assert(join(parts, sep) == join(dl, sep) + sep + parts.last());
        assert(join(parts, sep) =~= parts[0] + sep + (join(df.drop_last(), sep) + sep + df.last()));
    } else {
        assert(parts.drop_last() =~= seq![parts[0]]);
        assert(parts.drop_first() =~= seq![parts[1]]);
        assert(join(parts.drop_last(), sep) == parts[0]);
        assert(join(parts.drop_first(), sep) == parts[1]);
        assert(parts.last() == parts[1]);
    }
}

/// Lines joined by `'\n'` split back into the same lines, when no line holds
/// a `'\n'`, no line but the last ends in `'\r'`, and the last is not empty.
pub proof fn lemma_lines_of_join(parts: Seq<Seq<char>>)
    requires
        forall|i: int, j: int| 0 <= i < parts.len() && 0 <= j < parts[i].len() ==> #[trigger] parts[i][j] != '\n',
        forall|i: int| 0 <= i < parts.len() - 1 ==> !(#[trigger] parts[i].len() > 0 && parts[i].last() == '\r'),
        parts.len() > 0 ==> parts.last().len() > 0,
    ensures
        lines(join(parts, seq!['\n'])) == parts,
    decreases parts.len(),
{
    if parts.len() == 0 {
        assert(lines(join(parts, seq!['\n'])) =~= parts);
    } else if parts.len() == 1 {
        let p = parts[0];
        assert(forall|j: int| 0 <= j < p.len() ==> p[j] != '\n');
        lemma_lines_single(p);
        assert(seq![p] =~= parts);
    } else {
        let rest = parts.drop_first();
        lemma_join_front(parts, seq!['\n']);
        let j = join(rest, seq!['\n']);
        let s = join(parts, seq!['\n']);
        let p = parts[0];
        assert(s == p + seq!['\n'] + j);
        assert forall|i: int, k: int| 0 <= i < rest.len() && 0 <= k < rest[i].len() implies #[trigger] rest[i][k] != '\n' by {
            assert(rest[i] == parts[i + 1]);
        }
        assert forall|i: int| 0 <= i < rest.len() - 1 implies !(#[trigger] rest[i].len() > 0 && rest[i].last() == '\r') by {
            assert(rest[i] == parts[i + 1]);
        }
        lemma_lines_of_join(rest);
        assert forall|m: int| 0 <= m < p.len() implies s[m] != '\n' by {
            assert(s[m] == p[m]);
            assert(p[m] == parts[0][m]);
        }
        lemma_find_newline(s, p.len() as int);
        assert(s.take(p.len() as int) =~= p);
        assert(s.skip((p.len() + 1) as int) =~= j);
        assert(strip_cr(p) == p);
        assert(lines(s) == seq![p] + lines(j));
        assert(seq![p] + rest =~= parts);
    }
}

} // verus!

verus! {

/// The bounds, within `v`, of `trim` of the characters of `v` from `a` up to `b`.
pub fn trim_range(v: &Vec<char>, a: usize, b: usize) -> (r: (usize, usize))
    requires
        a <= b <= v.len(),
    ensures
        a <= r.0 <= r.1 <= b,
        v@.subrange(r.0 as int, r.1 as int) == trim(v@.subrange(a as int, b as int)),
{
    let mut k: usize = a;
    while k < b && is_whitespace(v[k])
        invariant
            a <= k <= b <= v.len(),
            trim_start(v@.subrange(a as int, b as int)) == trim_start(v@.subrange(k as int, b as int)),
        decreases b - k,
    {
        assert(v@.subrange(k as int, b as int).drop_first() == v@.subrange(k + 1, b as int));
        k = k + 1;
    }
    let mut j: usize = b;
    while j > k && is_whitespace(v[j - 1])
        invariant
            a <= k <= j <= b <= v.len(),
            trim_end(v@.subrange(k as int, b as int)) == trim_end(v@.subrange(k as int, j as int)),
        decreases j,
    {
        assert(v@.subrange(k as int, j as int).drop_last() == v@.subrange(k as int, j - 1));
        j = j - 1;
    }
    (k, j)
}

} // verus!

verus! {

/// `s` begins with `c` after its leading white space exactly when some
/// occurrence of `c` has only white space before it (for a `c` that is not
/// white space itself).
pub proof fn lemma_starts_with_after_space(s: Seq<char>, c: char)
    requires
        !is_space(c),
    ensures
        starts_with_after_space(s, c) <==> exists|k: int|
            0 <= k < s.len() && #[trigger] s[k] == c && forall|j: int| 0 <= j < k ==> is_space(s[j]),
{
    lemma_trim_start_props(s);
    let t = trim_start(s);
    let m = s.len() - t.len();
    if starts_with_after_space(s, c) {
        assert(s[m] == t[0]);
        assert(forall|j: int| 0 <= j < m ==> is_space(#[trigger] s[j]));
    }
    if exists|k: int| 0 <= k < s.len() && #[trigger] s[k] == c && forall|j: int| 0 <= j < k ==> is_space(s[j]) {
        let k = choose|k: int| 0 <= k < s.len() && #[trigger] s[k] == c && forall|j: int| 0 <= j < k ==> is_space(s[j]);
        if k < m {
            assert(is_space(s[k]));
        } else if k > m {
            assert(t[0] == s[m]);
            assert(is_space(s[m]));
        } else {
            assert(t[0] == s[m]);
        }
    }
}

/// The value of a numeral whose characters are decimal digits.
pub open spec fn numeral_value(s: Seq<char>) -> int
    decreases s.len(),
{
    if s.len() == 0 {
        0
    } else {
        numeral_value(s.drop_last()) * 10 + (s.last() as int - '0' as int)
    }
}

/// `decimal(n)` is the base-10 numeral of `n`: at least one character, every
/// character a digit, no leading zero unless `n` is zero, and it reads back
/// as `n`; the numeral of a larger number is never shorter.
pub proof fn decimal_reads_back(n: nat)
    ensures
        decimal(n).len() >= 1,
        forall|i: int| 0 <= i < decimal(n).len() ==> '0' <= #[trigger] decimal(n)[i] <= '9',
        n > 0 ==> decimal(n)[0] != '0',
        numeral_value(decimal(n)) == n,
        n >= 10 ==> decimal(n).len() == decimal(n / 10).len() + 1,
    decreases n,
{
    let d = (n % 10) as nat;
    assert(digit(d) as int - '0' as int == d) by {
        if d == 0 {} else if d == 1 {} else if d == 2 {} else if d == 3 {} else if d == 4 {}
        else if d == 5 {} else if d == 6 {} else if d == 7 {} else if d == 8 {} else {}
    }
    if n >= 10 {
        decimal_reads_back(n / 10);
        let s = decimal(n);
        assert(s.drop_last() == decimal(n / 10));
        assert(s.last() == digit(d));
        assert(numeral_value(s) == numeral_value(s.drop_last()) * 10 + (s.last() as int - '0' as int));
        assert(n == (n / 10) * 10 + n % 10);
        assert(s[0] == decimal(n / 10)[0]);
        assert forall|i: int| 0 <= i < s.len() implies '0' <= #[trigger] s[i] <= '9' by {
            if i < s.len() - 1 {
                assert(s[i] == decimal(n / 10)[i]);
            }
        }
    } else {
        assert(decimal(n) == seq![digit(n)]);
        assert(decimal(n).drop_last() =~= Seq::<char>::empty());
        assert(numeral_value(Seq::<char>::empty()) == 0);
        assert(d == n);
        assert(decimal(n).last() == digit(d));
        assert(numeral_value(decimal(n)) == numeral_value(decimal(n).drop_last()) * 10 + (decimal(n).last() as int - '0' as int));
    }
}

/// Distinct numbers have distinct numerals.
pub proof fn decimal_injective(a: nat, b: nat)
    requires
        decimal(a) == decimal(b),
    ensures
        a == b,
{
    decimal_reads_back(a);
    decimal_reads_back(b);
}

} // verus!
