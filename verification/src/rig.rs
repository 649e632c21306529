//! The two model rigs and the read-only tools this client calls on each.
use vstd::prelude::*;

verus! {

/// Which rig's MCP server to launch.
#[derive(Clone, Copy, Debug, PartialEq, Eq, Structural)]
pub enum Rig {
    /// llama.cpp on the local GPU.
    Local,
    /// vLLM on Cloud Run.
    Cloudrun,
}

/// The arguments of a query tool call: the prompt, and `max_tokens` where
/// the rig's query tool takes one.
#[derive(Debug)]
pub struct QueryArgs {
    pub prompt: String,
    pub max_tokens: Option<u32>,
}

/// The directory under `~/gemma4-dev` that holds the rig's `server.py`.
pub open spec fn rig_dir(rig: Rig) -> Seq<char> {
    match rig {
        Rig::Local => "local-llamacpp-1650ti-2b-q4_0"@,
        Rig::Cloudrun => "gpu-2B-cloudrun-devops-agent"@,
    }
}

/// The read-only tools called before the query.
pub open spec fn status_tool_names(rig: Rig) -> Seq<Seq<char>> {
    match rig {
        Rig::Local => seq!["gpu_status"@, "model_server_status"@, "model_info"@],
        Rig::Cloudrun => seq![
            "cloudrun_status"@,
            "cloudrun_get_system_status"@,
            "cloudrun_get_model_details"@,
        ],
    }
}

/// The tool that describes the server itself.
pub open spec fn help_tool_name(rig: Rig) -> Seq<char> {
    match rig {
        Rig::Local => "get_help"@,
        Rig::Cloudrun => "cloudrun_get_help"@,
    }
}

/// The tool that asks the model.
pub open spec fn query_tool_name(rig: Rig) -> Seq<char> {
    match rig {
        Rig::Local => "query_model"@,
        Rig::Cloudrun => "cloudrun_query_gemma4_with_stats"@,
    }
}

/// Every tool this client may call on `rig`: the status tools, the help
/// tool and the query tool.
pub open spec fn read_only_tools(rig: Rig) -> Seq<Seq<char>> {
    status_tool_names(rig).push(help_tool_name(rig)).push(query_tool_name(rig))
}

/// The rig tools that deploy, destroy, scale, start or stop something, or
/// store a secret: billed or destructive.
pub open spec fn mutating_tools(rig: Rig) -> Seq<Seq<char>> {
    match rig {
        Rig::Local => seq!["start_model_server"@, "stop_model_server"@],
        Rig::Cloudrun => seq![
            "cloudrun_deploy"@,
            "cloudrun_destroy"@,
            "cloudrun_update_scaling"@,
            "cloudrun_save_hf_token"@,
        ],
    }
}

/// The views of a sequence of string slices.
pub open spec fn str_views(v: Seq<&str>) -> Seq<Seq<char>> {
    v.map_values(|s: &str| s@)
}

impl Rig {
    /// The rig's directory name.
    pub fn dir_name(self) -> (r: &'static str)
        ensures
            r@ == rig_dir(self),
    {
        match self {
            Rig::Local => "local-llamacpp-1650ti-2b-q4_0",
            Rig::Cloudrun => "gpu-2B-cloudrun-devops-agent",
        }
    }

    /// Read-only tools called before the query. Never add a tool that
    /// deploys, destroys, scales, starts, or stops anything: those are billed
    /// or destructive.
    pub fn status_tools(self) -> (r: &'static [&'static str])
        ensures
            str_views(r@) == status_tool_names(self),
    {
        match self {
            Rig::Local => {
                let r: &'static [&'static str] = &["gpu_status", "model_server_status", "model_info"];
                assert(str_views(r@) =~= status_tool_names(self));
                r
            },
            Rig::Cloudrun => {
                let r: &'static [&'static str] = &[
                    "cloudrun_status",
                    "cloudrun_get_system_status",
                    "cloudrun_get_model_details",
                ];
                assert(str_views(r@) =~= status_tool_names(self));
                r
            },
        }
    }

    /// The server's own help tool.
    pub fn help_tool(self) -> (r: &'static str)
        ensures
            r@ == help_tool_name(self),
    {
        match self {
            Rig::Local => "get_help",
            Rig::Cloudrun => "cloudrun_get_help",
        }
    }

    /// The tool that asks the model.
    pub fn query_tool(self) -> (r: &'static str)
        ensures
            r@ == query_tool_name(self),
    {
        match self {
            Rig::Local => "query_model",
            Rig::Cloudrun => "cloudrun_query_gemma4_with_stats",
        }
    }

    /// The query tool's arguments: the local `query_model` also takes
    /// `max_tokens`; the Cloud Run tool takes the prompt alone.
    pub fn query_args(self, prompt: &str, max_tokens: u32) -> (r: QueryArgs)
        ensures
            r.prompt@ == prompt@,
            r.max_tokens == (match self {
                Rig::Local => Some(max_tokens),
                Rig::Cloudrun => None::<u32>,
            }),
    {
        let prompt = prompt.to_owned();
        match self {
            Rig::Local => QueryArgs { prompt, max_tokens: Some(max_tokens) },
            Rig::Cloudrun => QueryArgs { prompt, max_tokens: None },
        }
    }
}

/// No tool that this client may call on a rig is one of the rig's billed or
/// destructive tools.
pub proof fn read_only_tools_do_not_mutate(rig: Rig)
    ensures
        forall|i: int, j: int|
            0 <= i < read_only_tools(rig).len() && 0 <= j < mutating_tools(rig).len()
                ==> #[trigger] read_only_tools(rig)[i] != #[trigger] mutating_tools(rig)[j],
{
    reveal_strlit("gpu_status");
    reveal_strlit("model_server_status");
    reveal_strlit("model_info");
    reveal_strlit("get_help");
    reveal_strlit("query_model");
    reveal_strlit("start_model_server");
    reveal_strlit("stop_model_server");
    reveal_strlit("cloudrun_status");
    reveal_strlit("cloudrun_get_system_status");
    reveal_strlit("cloudrun_get_model_details");
    reveal_strlit("cloudrun_get_help");
    reveal_strlit("cloudrun_query_gemma4_with_stats");
    reveal_strlit("cloudrun_deploy");
    reveal_strlit("cloudrun_destroy");
    reveal_strlit("cloudrun_update_scaling");
    reveal_strlit("cloudrun_save_hf_token");
    assert forall|i: int, j: int|
        0 <= i < read_only_tools(rig).len() && 0 <= j < mutating_tools(rig).len()
        implies #[trigger] read_only_tools(rig)[i] != #[trigger] mutating_tools(rig)[j] by {
        let a = read_only_tools(rig)[i];
        let b = mutating_tools(rig)[j];
        if a.len() == b.len() {
            assert(a[a.len() - 1] != b[b.len() - 1] || a[9] != b[9]);
        }
    }
}

} // verus!
