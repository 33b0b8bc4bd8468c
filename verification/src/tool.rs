//! Tool calls and their results, as plain values.
use vstd::prelude::*;
use vstd::string::*;

verus! {

/// The identity of a tool call: its id and the tool's name.
///
/// The call's JSON arguments are read by the caller and handed to the library as
/// plain values.
pub struct ToolUse {
    /// Unique id of the call.
    pub id: String,
    /// Name of the tool that was called.
    pub name: String,
}

/// Result of executing a tool call.
pub struct ToolResult {
    /// Id of the call this result answers.
    pub tool_use_id: String,
    /// Text returned to the model.
    pub content: String,
    /// Optional text shown to the user instead of `content`.
    pub display: Option<String>,
    /// Optional one-line summary.
    pub tldr: Option<String>,
    /// Whether the call failed.
    pub is_error: bool,
    /// Whether the result keeps the conversation tempo.
    pub preserves_tempo: bool,
    /// Name of the tool that was called.
    pub tool_name: String,
}

/// A plain result for `tool` with the given content and error flag: no display text,
/// no summary, tempo not preserved.
pub open spec fn plain_result(tool: ToolUse, content: Seq<char>, is_error: bool, r: ToolResult) -> bool {
    &&& r.tool_use_id@ == tool.id@
    &&& r.tool_name@ == tool.name@
    &&& r.content@ == content
    &&& r.is_error == is_error
    &&& r.display is None
    &&& r.tldr is None
    &&& !r.preserves_tempo
}

/// Builds a plain result answering `tool`.
pub fn result_for(tool: &ToolUse, content: String, is_error: bool) -> (r: ToolResult)
    ensures
        plain_result(*tool, content@, is_error, r),
{
    ToolResult {
        tool_use_id: tool.id.clone(),
        content,
        display: None,
        tldr: None,
        is_error,
        preserves_tempo: false,
        tool_name: tool.name.clone(),
    }
}

/// Build an error result carrying `msg`.
pub fn err(tool: &ToolUse, msg: &str) -> (r: ToolResult)
    ensures
        plain_result(*tool, msg@, true, r),
{
    result_for(tool, String::from_str(msg), true)
}

} // verus!
