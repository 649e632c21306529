//! How the client lays out what it prints: section headers, key/value
//! fields, shortened descriptions and indented blocks.
use vstd::prelude::*;
use vstd::string::StrSliceExecFns;
use crate::text::{
    is_space, trim_start, trim_range, decimal_reads_back, numeral_value, lemma_find_newline, lemma_lines_have_no_newline, lemma_lines_of_join, lemma_lines_single,
    lemma_trim_idempotent, lemma_trim_keeps_no_newline, lemma_trim_props,
    append_chars, chars_of, decimal, decimal_chars, join, join_chars, lines, pad_right,
    pad_right_chars, repeat_char, repeat_chars, slice_chars, spaces, split_lines, string_of, trim,
    views,
};

verus! {

/// The ellipsis that ends a shortened description.
pub const ELLIPSIS: char = '\u{2026}';

/// The width that a section header fills, title and rule included.
pub const RULE_WIDTH: usize = 66;

/// The width of the key column of a field.
pub const KEY_WIDTH: usize = 22;

/// The first line of `t`, without surrounding white space; empty when `t` is blank.
pub open spec fn first_line_of(t: Seq<char>) -> Seq<char> {
    let ls = lines(trim(t));
    if ls.len() == 0 {
        seq![]
    } else {
        trim(ls[0])
    }
}

/// `t` when it has at most `max` characters; otherwise its first `max - 1`
/// characters and an ellipsis.
pub open spec fn truncated(t: Seq<char>, max: nat) -> Seq<char> {
    if t.len() <= max {
        t
    } else {
        t.take(max - 1).push(ELLIPSIS)
    }
}

/// Each line of `t` behind `w` spaces, the lines joined by `'\n'`.
pub open spec fn indented(t: Seq<char>, w: nat) -> Seq<char> {
    join(lines(t).map_values(|l: Seq<char>| spaces(w) + l), seq!['\n'])
}

/// The number of `'='` after a section title: what is left of the rule width.
pub open spec fn rule_len(title_len: nat) -> nat {
    if title_len < RULE_WIDTH { (RULE_WIDTH - title_len) as nat } else { 0 }
}

/// `"\n== " + title + " "` followed by the rule.
pub open spec fn section_text(title: Seq<char>) -> Seq<char> {
    seq!['\n', '=', '=', ' '] + title + seq![' '] + repeat_char('=', rule_len(title.len()))
}

/// Two spaces, the key padded to the key column, a space, the value.
pub open spec fn field_text(key: Seq<char>, value: Seq<char>) -> Seq<char> {
    seq![' ', ' '] + pad_right(key, KEY_WIDTH as nat) + seq![' '] + value
}

/// Whole milliseconds in `nanos` nanoseconds, rounded to the nearest, a tie
/// to the even neighbour.
pub open spec fn rounded_ms(nanos: nat) -> nat {
    let q = nanos / 1_000_000;
    let r = nanos % 1_000_000;
    if r > 500_000 || (r == 500_000 && q % 2 == 1) {
        q + 1
    } else {
        q
    }
}

/// A duration as `"<n> ms"`.
pub open spec fn ms_text(nanos: nat) -> Seq<char> {
    decimal(rounded_ms(nanos)) + seq![' ', 'm', 's']
}

/// The first line of `text`, trimmed.
pub fn first_line(text: &str) -> (r: &str)
    ensures
        r@ == first_line_of(text@),
{
    let v = chars_of(text);
    let (k, j) = trim_range(&v, 0, v.len());
    assert(v@.subrange(0, v.len() as int) == v@);
    let ghost t = v@.subrange(k as int, j as int);
    if k == j {
        assert(t.len() == 0);
        assert(lines(t) =~= seq![]);
        return text.substring_char(0, 0);
    }
    let mut e: usize = k;
    while e < j && v[e] != '\n'
        invariant
            k <= e <= j <= v.len(),
            forall|m: int| k <= m < e ==> v@[m] != '\n',
        decreases j - e,
    {
        e = e + 1;
    }
    proof {
        assert forall|m: int| 0 <= m < e - k implies t[m] != '\n' by {
            assert(t[m] == v@[k + m]);
        }
        lemma_find_newline(t, e - k);
    }
    let end = if e < j && e > k && v[e - 1] == '\r' { e - 1 } else { e };
    assert(lines(t)[0] == v@.subrange(k as int, end as int)) by {
        if e < j {
            assert(t.take(e - k) =~= v@.subrange(k as int, e as int));
            if e > k && v@[e - 1] == '\r' {
                assert(t.take(e - k).drop_last() =~= v@.subrange(k as int, end as int));
            }
        } else {
            assert(t =~= v@.subrange(k as int, end as int));
        }
    }
    let (c, d) = trim_range(&v, k, end);
    text.substring_char(c, d)
}

/// `text`, shortened to `max` characters with an ellipsis when it is longer.
pub fn truncate(text: &str, max: usize) -> (r: String)
    requires
        max > 0 || text@.len() == 0,
    ensures
        r@ == truncated(text@, max as nat),
{
    let v = chars_of(text);
    if v.len() <= max {
        string_of(&v)
    } else {
        let mut head = slice_chars(&v, 0, max - 1);
        assert(v@.subrange(0, max - 1) == v@.take(max - 1));
        head.push(ELLIPSIS);
        string_of(&head)
    }
}

/// Each line of `text` behind `width` spaces.
pub fn indent(text: &str, width: usize) -> (r: String)
    ensures
        r@ == indented(text@, width as nat),
{
    let v = chars_of(text);
    let ls = split_lines(&v);
    let pad = repeat_chars(' ', width);
    let mut padded: Vec<Vec<char>> = Vec::new();
    let mut i: usize = 0;
    while i < ls.len()
        invariant
            i <= ls.len(),
            pad@ == spaces(width as nat),
            views(ls@) == lines(v@),
            views(padded@) == lines(v@).take(i as int).map_values(|l: Seq<char>| spaces(width as nat) + l),
        decreases ls.len() - i,
    {
        let mut line = pad.clone();
        append_chars(&mut line, &ls[i]);
        let ghost before = views(padded@);
        padded.push(line);
        assert(lines(v@)[i as int] == ls@[i as int]@);
        assert(views(padded@) =~= before.push(spaces(width as nat) + ls@[i as int]@));
        assert(lines(v@).take(i + 1).map_values(|l: Seq<char>| spaces(width as nat) + l)
            =~= lines(v@).take(i as int).map_values(|l: Seq<char>| spaces(width as nat) + l).push(
            spaces(width as nat) + lines(v@)[i as int]));
        i = i + 1;
    }
    assert(lines(v@).take(ls.len() as int) == lines(v@));
    let nl = repeat_chars('\n', 1);
    assert(nl@ == seq!['\n']);
    let joined = join_chars(&padded, &nl);
    string_of(&joined)
}

/// The header printed above each section of output.
pub fn section(title: &str) -> (r: String)
    ensures
        r@ == section_text(title@),
{
    let t = chars_of(title);
    let n = if t.len() < RULE_WIDTH { RULE_WIDTH - t.len() } else { 0 };
    let mut r: Vec<char> = Vec::new();
    r.push('\n');
    r.push('=');
    r.push('=');
    r.push(' ');
    append_chars(&mut r, &t);
    r.push(' ');
    let rule = repeat_chars('=', n);
    append_chars(&mut r, &rule);
    assert(r@ == section_text(title@));
    string_of(&r)
}

/// One `key value` line of output.
pub fn field(key: &str, value: &str) -> (r: String)
    ensures
        r@ == field_text(key@, value@),
{
    let k = chars_of(key);
    let mut r: Vec<char> = Vec::new();
    r.push(' ');
    r.push(' ');
    let padded = pad_right_chars(&k, KEY_WIDTH);
    append_chars(&mut r, &padded);
    r.push(' ');
    let val = chars_of(value);
    append_chars(&mut r, &val);
    assert(r@ == field_text(key@, value@));
    string_of(&r)
}

/// A duration of `nanos` nanoseconds in whole milliseconds.
pub fn ms(nanos: u128) -> (r: String)
    ensures
        r@ == ms_text(nanos as nat),
{
    let q = nanos / 1_000_000;
    let rem = nanos % 1_000_000;
    let whole = if rem > 500_000 || (rem == 500_000 && q % 2 == 1) { q + 1 } else { q };
    let mut r = decimal_chars(whole);
    r.push(' ');
    r.push('m');
    r.push('s');
    string_of(&r)
}


/// A shortened text never has more than `max` characters, and a text that
/// fits is left as it is.
pub proof fn truncated_fits(t: Seq<char>, max: nat)
    requires
        max > 0,
    ensures
        truncated(t, max).len() <= max,
        t.len() <= max ==> truncated(t, max) == t,
        t.len() > max ==> truncated(t, max).len() == max && truncated(t, max).last() == ELLIPSIS
            && truncated(t, max).drop_last() == t.take(max - 1),
{
}

/// Shortening a shortened text changes nothing.
pub proof fn truncated_idempotent(t: Seq<char>, max: nat)
    requires
        max > 0,
    ensures
        truncated(truncated(t, max), max) == truncated(t, max),
{
}

/// The first line holds no line break and no surrounding white space, and
/// taking the first line of it again gives it back.
pub proof fn first_line_is_one_trimmed_line(t: Seq<char>)
    ensures
        forall|j: int| 0 <= j < first_line_of(t).len() ==> first_line_of(t)[j] != '\n',
        first_line_of(t).len() > 0 ==> !is_space(first_line_of(t)[0]) && !is_space(first_line_of(t).last()),
        first_line_of(first_line_of(t)) == first_line_of(t),
{
    let ls = lines(trim(t));
    let f = first_line_of(t);
    if ls.len() > 0 {
        lemma_lines_have_no_newline(trim(t));
        assert forall|j: int| 0 <= j < ls[0].len() implies ls[0][j] != '\n' by {
            assert(ls[0][j] == lines(trim(t))[0][j]);
        }
        lemma_trim_keeps_no_newline(ls[0]);
        lemma_trim_props(ls[0]);
        lemma_trim_idempotent(ls[0]);
        assert(trim(f) == f);
        if f.len() > 0 {
            lemma_lines_single(f);
        } else {
            assert(lines(f) =~= seq![]);
        }
    } else {
        assert(f =~= seq![]);
        assert(trim_start(f) == f);
        assert(lines(trim(f)) =~= seq![]);
    }
}

/// Splitting indented text into lines gives back the lines of the text behind the
/// indentation, when the indentation is not empty and no line but the last
/// ends in a carriage return.
pub proof fn indented_lines(t: Seq<char>, w: nat)
    requires
        w > 0,
        forall|i: int| 0 <= i < lines(t).len() - 1 ==> !(#[trigger] lines(t)[i].len() > 0 && lines(t)[i].last() == '\r'),
    ensures
        lines(indented(t, w)) == lines(t).map_values(|l: Seq<char>| spaces(w) + l),
{
    let ls = lines(t);
    let m = ls.map_values(|l: Seq<char>| spaces(w) + l);
    lemma_lines_have_no_newline(t);
    assert forall|i: int, j: int| 0 <= i < m.len() && 0 <= j < m[i].len() implies #[trigger] m[i][j] != '\n' by {
        if j >= w {
            assert(m[i][j] == ls[i][j - w]);
        }
    }
    assert forall|i: int| 0 <= i < m.len() - 1 implies !(#[trigger] m[i].len() > 0 && m[i].last() == '\r') by {
        if ls[i].len() > 0 {
            assert(m[i].last() == ls[i].last());
        }
    }
    lemma_lines_of_join(m);
}

/// A section header of a title of at most the rule width is always as wide:
/// the newline, then 70 characters.
pub proof fn section_width(title: Seq<char>)
    requires
        title.len() <= RULE_WIDTH,
    ensures
        section_text(title).len() == 71,
{
}

/// A field's value always begins at the same column when the key fits.
pub proof fn field_column(key: Seq<char>, value: Seq<char>)
    requires
        key.len() <= KEY_WIDTH,
    ensures
        field_text(key, value).len() == KEY_WIDTH + 3 + value.len(),
        field_text(key, value).skip(KEY_WIDTH + 3) == value,
{
    assert(field_text(key, value).skip(KEY_WIDTH + 3) =~= value);
}


/// A duration is shown as the whole number of milliseconds nearest to it
/// (a tie going to the even one), written in decimal digits and followed by
/// `" ms"`.
pub proof fn ms_text_reads_back(nanos: nat)
    ensures
        ms_text(nanos).len() >= 4,
        ms_text(nanos).skip(ms_text(nanos).len() - 3) == seq![' ', 'm', 's'],
        forall|i: int| 0 <= i < ms_text(nanos).len() - 3 ==> '0' <= #[trigger] ms_text(nanos)[i] <= '9',
        numeral_value(ms_text(nanos).take(ms_text(nanos).len() - 3)) == rounded_ms(nanos),
        rounded_ms(nanos) * 1_000_000 <= nanos + 500_000,
        nanos <= rounded_ms(nanos) * 1_000_000 + 500_000,
        nanos % 1_000_000 == 500_000 ==> rounded_ms(nanos) % 2 == 0,
{
    let m = rounded_ms(nanos);
    decimal_reads_back(m);
    let t = ms_text(nanos);
    let d = decimal(m);
    assert(t.take(t.len() - 3) =~= d);
    assert(t.skip(t.len() - 3) =~= seq![' ', 'm', 's']);
    assert forall|i: int| 0 <= i < t.len() - 3 implies '0' <= #[trigger] t[i] <= '9' by {
        assert(t[i] == d[i]);
    }
    assert(nanos == (nanos / 1_000_000) * 1_000_000 + nanos % 1_000_000);
}

} // verus!
