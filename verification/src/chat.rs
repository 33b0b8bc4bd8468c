//! `Chat_send`: send, reply, edit, or delete a chat message.
//!
//! Exactly one of `message`, `edit` or `delete` is acted on; `reply_to` pairs with
//! `message`; `image` sends a local file. The room lookup and the chat server calls are
//! made by the caller; these functions decide what to do and what to report.
use crate::tool::{ToolResult, ToolUse, plain_result, result_for};
use vstd::prelude::*;
use vstd::string::*;

verus! {

/// The arguments of a `Chat_send` call.
pub struct SendParams {
    /// Room name or id (`#general` when absent).
    pub room: Option<String>,
    /// Message body.
    pub message: Option<String>,
    /// Event ref to reply to.
    pub reply_to: Option<String>,
    /// Event ref to edit.
    pub edit: Option<String>,
    /// Event ref to delete.
    pub delete: Option<String>,
    /// Send as `m.notice` (default) rather than `m.text`.
    pub notice: Option<bool>,
    /// Keep the room in the pending-responses list.
    pub report_later_here: Option<bool>,
    /// Local image file to send.
    pub image: Option<String>,
}

/// What a `Chat_send` call does.
pub enum SendPlan {
    /// Upload the image at this path.
    Image { path: String },
    /// Delete (redact) the message with this ref, giving this reason.
    Delete { event_ref: String, reason: String },
    /// A delete given together with a message or an edit: refused.
    ConflictingActions,
    /// Replace the message with this ref by `body`.
    Edit { event_ref: String, body: String },
    /// An edit without a body: refused.
    EditWithoutBody,
    /// No message, edit or delete: refused.
    NothingToDo,
    /// Empty message: only drop the room from the pending responses.
    Acknowledge,
    /// Reply to the message with this ref.
    Reply { event_ref: String, body: String, notice: bool },
    /// Send a new message.
    Send { body: String, notice: bool },
}

/// The reason given when a message is redacted.
pub open spec fn redaction_reason() -> Seq<char> {
    "Deleted by Context Pilot"@
}

/// The text of an optional string argument, empty when absent.
pub open spec fn text_or_empty(o: Option<String>) -> Seq<char> {
    match o {
        Some(s) => s@,
        None => Seq::empty(),
    }
}

/// The plan for given arguments: image first, then delete (alone), then edit, then message.
pub open spec fn plan_for(p: SendParams, plan: SendPlan) -> bool {
    let notice = match p.notice {
        Some(b) => b,
        None => true,
    };
    match p.image {
        Some(img) => plan matches SendPlan::Image { path } && path@ == img@,
        None => match p.delete {
            Some(d) => if p.message is Some || p.edit is Some {
                plan is ConflictingActions
            } else {
                plan matches SendPlan::Delete { event_ref, reason } && event_ref@ == d@ && reason@
                    == redaction_reason()
            },
            None => match p.edit {
                Some(e) => if text_or_empty(p.message).len() == 0 {
                    plan is EditWithoutBody
                } else {
                    plan matches SendPlan::Edit { event_ref, body } && event_ref@ == e@ && body@
                        == text_or_empty(p.message)
                },
                None => match p.message {
                    None => plan is NothingToDo,
                    Some(m) => if m@.len() == 0 {
                        plan is Acknowledge
                    } else {
                        match p.reply_to {
                            Some(r) => plan matches SendPlan::Reply { event_ref, body, notice: n }
                                && event_ref@ == r@ && body@ == m@ && n == notice,
                            None => plan matches SendPlan::Send { body, notice: n } && body@ == m@ && n
                                == notice,
                        }
                    },
                },
            },
        },
    }
}

fn clone_str(s: &String) -> (r: String)
    ensures
        r@ == s@,
{
    s.clone()
}

/// Decide what a `Chat_send` call does.
pub fn plan_send(p: &SendParams) -> (r: SendPlan)
    ensures
        plan_for(*p, r),
{
    let notice = match p.notice {
        Some(b) => b,
        None => true,
    };
    if let Some(img) = &p.image {
        return SendPlan::Image { path: clone_str(img) };
    }
    if let Some(d) = &p.delete {
        if p.message.is_some() || p.edit.is_some() {
            return SendPlan::ConflictingActions;
        }
        return SendPlan::Delete { event_ref: clone_str(d), reason: String::from_str("Deleted by Context Pilot") };
    }
    if let Some(e) = &p.edit {
        let body = match &p.message {
            Some(m) => clone_str(m),
            None => String::new(),
        };
        if body.as_str().is_empty() {
            return SendPlan::EditWithoutBody;
        }
        return SendPlan::Edit { event_ref: clone_str(e), body };
    }
    match &p.message {
        None => SendPlan::NothingToDo,
        Some(m) => {
            if m.as_str().is_empty() {
                SendPlan::Acknowledge
            } else {
                match &p.reply_to {
                    Some(r) => SendPlan::Reply { event_ref: clone_str(r), body: clone_str(m), notice },
                    None => SendPlan::Send { body: clone_str(m), notice },
                }
            }
        },
    }
}

/// The room a call names: its `room` argument, or `#general`.
pub fn room_input(p: &SendParams) -> (r: String)
    ensures
        r@ == match p.room {
            Some(s) => s@,
            None => "#general"@,
        },
{
    match &p.room {
        Some(s) => clone_str(s),
        None => String::from_str("#general"),
    }
}

/// Whether a successful send should drop the room from the pending responses.
pub fn clears_report(p: &SendParams) -> (r: bool)
    ensures
        r == !match p.report_later_here {
            Some(b) => b,
            None => false,
        },
{
    match p.report_later_here {
        Some(b) => !b,
        None => true,
    }
}

/// The result for an edit without a body.
pub fn edit_without_body_result(tool: &ToolUse) -> (r: ToolResult)
    ensures
        plain_result(*tool, "Edit requires a 'message' with the new content."@, true, r),
{
    result_for(tool, String::from_str("Edit requires a 'message' with the new content."), true)
}

/// The result for a delete given together with a message or an edit.
pub fn conflicting_actions_result(tool: &ToolUse) -> (r: ToolResult)
    ensures
        plain_result(*tool, "Provide only one of 'message', 'edit', or 'delete'."@, true, r),
{
    result_for(tool, String::from_str("Provide only one of 'message', 'edit', or 'delete'."), true)
}

/// The result for a call with nothing to do.
pub fn nothing_to_do_result(tool: &ToolUse) -> (r: ToolResult)
    ensures
        plain_result(*tool, "Provide 'message', 'edit', or 'delete'."@, true, r),
{
    result_for(tool, String::from_str("Provide 'message', 'edit', or 'delete'."), true)
}

/// The result for an empty message (the room leaves the pending responses).
pub fn acknowledge_result(tool: &ToolUse, room: &str) -> (r: ToolResult)
    ensures
        plain_result(*tool, "Acknowledged '"@ + room@ + "' — removed from pending responses."@, false, r),
{
    let mut s = String::from_str("Acknowledged '");
    s.append(room);
    s.append("' — removed from pending responses.");
    result_for(tool, s, false)
}

/// The result of an image upload.
pub fn image_result(tool: &ToolUse, img_path: &str, room: &str, outcome: Result<String, String>) -> (r:
    ToolResult)
    ensures
        match outcome {
            Ok(ev) => plain_result(
                *tool,
                "Image '"@ + img_path@ + "' sent to '"@ + room@ + "' (event: "@ + ev@ + ")."@,
                false,
                r,
            ),
            Err(e) => plain_result(*tool, "Image send failed: "@ + e@, true, r),
        },
{
    match outcome {
        Ok(ev) => {
            let mut s = String::from_str("Image '");
            s.append(img_path);
            s.append("' sent to '");
            s.append(room);
            s.append("' (event: ");
            s.append(ev.as_str());
            s.append(").");
            result_for(tool, s, false)
        },
        Err(e) => {
            let mut s = String::from_str("Image send failed: ");
            s.append(e.as_str());
            result_for(tool, s, true)
        },
    }
}

/// The result of a reply: `sent` is `None` when the ref did not resolve to an event,
/// else what the server answered.
pub fn reply_result(tool: &ToolUse, reply_ref: &str, room: &str, sent: Option<Result<String, String>>) -> (r:
    ToolResult)
    ensures
        match sent {
            None => plain_result(
                *tool,
                "Cannot resolve reply_to ref '"@ + reply_ref@ + "'. Use an E<n> ref from the room panel."@,
                true,
                r,
            ),
            Some(Ok(ev)) => plain_result(
                *tool,
                "Reply sent to "@ + reply_ref@ + " in '"@ + room@ + "' (event: "@ + ev@ + ")."@,
                false,
                r,
            ),
            Some(Err(e)) => plain_result(*tool, "Reply failed: "@ + e@, true, r),
        },
{
    match sent {
        None => {
            let mut s = String::from_str("Cannot resolve reply_to ref '");
            s.append(reply_ref);
            s.append("'. Use an E<n> ref from the room panel.");
            result_for(tool, s, true)
        },
        Some(Ok(ev)) => {
            let mut s = String::from_str("Reply sent to ");
            s.append(reply_ref);
            s.append(" in '");
            s.append(room);
            s.append("' (event: ");
            s.append(ev.as_str());
            s.append(").");
            result_for(tool, s, false)
        },
        Some(Err(e)) => {
            let mut s = String::from_str("Reply failed: ");
            s.append(e.as_str());
            result_for(tool, s, true)
        },
    }
}

/// The result of sending a new message.
pub fn send_result(tool: &ToolUse, room: &str, sent: Result<String, String>) -> (r: ToolResult)
    ensures
        match sent {
            Ok(ev) => plain_result(*tool, "Message sent to '"@ + room@ + "' (event: "@ + ev@ + ")."@, false, r),
            Err(e) => plain_result(*tool, "Send failed: "@ + e@, true, r),
        },
{
    match sent {
        Ok(ev) => {
            let mut s = String::from_str("Message sent to '");
            s.append(room);
            s.append("' (event: ");
            s.append(ev.as_str());
            s.append(").");
            result_for(tool, s, false)
        },
        Err(e) => {
            let mut s = String::from_str("Send failed: ");
            s.append(e.as_str());
            result_for(tool, s, true)
        },
    }
}

/// Delete (redact) a message by short ref: `redacted` is `None` when the ref did not
/// resolve, else what the server answered.
pub fn execute_delete(tool: &ToolUse, ref_str: &str, redacted: Option<Result<(), String>>) -> (r: ToolResult)
    ensures
        match redacted {
            None => plain_result(*tool, "Cannot resolve delete ref '"@ + ref_str@ + "'."@, true, r),
            Some(Ok(())) => plain_result(*tool, "Message "@ + ref_str@ + " deleted."@, false, r),
            Some(Err(e)) => plain_result(*tool, "Delete failed: "@ + e@, true, r),
        },
{
    match redacted {
        None => {
            let mut s = String::from_str("Cannot resolve delete ref '");
            s.append(ref_str);
            s.append("'.");
            result_for(tool, s, true)
        },
        Some(Ok(())) => {
            let mut s = String::from_str("Message ");
            s.append(ref_str);
            s.append(" deleted.");
            result_for(tool, s, false)
        },
        Some(Err(e)) => {
            let mut s = String::from_str("Delete failed: ");
            s.append(e.as_str());
            result_for(tool, s, true)
        },
    }
}

/// Edit a message by short ref: `edited` is `None` when the ref did not resolve, else what
/// the server answered (the new event id).
pub fn execute_edit(tool: &ToolUse, ref_str: &str, edited: Option<Result<String, String>>) -> (r: ToolResult)
    ensures
        match edited {
            None => plain_result(*tool, "Cannot resolve edit ref '"@ + ref_str@ + "'."@, true, r),
            Some(Ok(ev)) => plain_result(
                *tool,
                "Message "@ + ref_str@ + " edited (new event: "@ + ev@ + ")."@,
                false,
                r,
            ),
            Some(Err(e)) => plain_result(*tool, "Edit failed: "@ + e@, true, r),
        },
{
    match edited {
        None => {
            let mut s = String::from_str("Cannot resolve edit ref '");
            s.append(ref_str);
            s.append("'.");
            result_for(tool, s, true)
        },
        Some(Ok(ev)) => {
            let mut s = String::from_str("Message ");
            s.append(ref_str);
            s.append(" edited (new event: ");
            s.append(ev.as_str());
            s.append(").");
            result_for(tool, s, false)
        },
        Some(Err(e)) => {
            let mut s = String::from_str("Edit failed: ");
            s.append(e.as_str());
            result_for(tool, s, true)
        },
    }
}

/// Law: an image argument wins over every other argument.
pub proof fn law_image_first(p: SendParams, plan: SendPlan)
    requires
        p.image is Some,
        plan_for(p, plan),
    ensures
        plan is Image,
{
}

/// Law: a message or reply goes out as `m.notice` unless `notice: false` is given: the
/// planned notice flag is the `notice` argument, `true` when it is absent.
pub proof fn law_notice_by_default(p: SendParams, plan: SendPlan)
    requires
        plan_for(p, plan),
    ensures
        plan matches SendPlan::Reply { notice, .. } ==> notice == (p.notice != Some(false)),
        plan matches SendPlan::Send { notice, .. } ==> notice == (p.notice != Some(false)),
        plan matches SendPlan::Reply { notice, .. } ==> (p.notice is None ==> notice),
        plan matches SendPlan::Send { notice, .. } ==> (p.notice is None ==> notice),
{
}

/// Law: a non-empty message with a `reply_to` ref (and no image, delete or edit) is a reply
/// to that ref with that body; without `reply_to` it is a new message with that body.
pub proof fn law_message_plan(p: SendParams, plan: SendPlan)
    requires
        plan_for(p, plan),
        p.image is None,
        p.delete is None,
        p.edit is None,
        p.message matches Some(m) && m@.len() > 0,
    ensures
        p.reply_to matches Some(r) ==> (plan matches SendPlan::Reply { event_ref, body, notice } && event_ref@ == r@
            && body@ == p.message->0@ && notice == (p.notice != Some(false))),
        p.reply_to is None ==> (plan matches SendPlan::Send { body, notice } && body@ == p.message->0@ && notice == (
        p.notice != Some(false))),
{
}

/// Law: an edit (no image or delete) replaces the message with the `message` text, and is
/// refused when that text is empty or absent.
pub proof fn law_edit_plan(p: SendParams, plan: SendPlan)
    requires
        plan_for(p, plan),
        p.image is None,
        p.delete is None,
        p.edit is Some,
    ensures
        (p.message matches Some(m) && m@.len() > 0) ==> (plan matches SendPlan::Edit { event_ref, body }
            && event_ref@ == p.edit->0@ && body@ == p.message->0@),
        !(p.message matches Some(m) && m@.len() > 0) ==> plan is EditWithoutBody,
{
}

/// Law: a delete given alone (no image, message or edit) deletes.
pub proof fn law_delete_alone(p: SendParams, plan: SendPlan)
    requires
        p.image is None,
        p.delete is Some,
        p.message is None,
        p.edit is None,
        plan_for(p, plan),
    ensures
        plan matches SendPlan::Delete { event_ref, reason } && event_ref@ == p.delete->0@ && reason@
            == redaction_reason(),
{
}

/// Law: at most one of message, edit and delete is acted on; a delete given with a message
/// or an edit is refused, and then nothing is sent, edited or deleted.
pub proof fn law_delete_excludes_others(p: SendParams, plan: SendPlan)
    requires
        p.image is None,
        p.delete is Some,
        p.message is Some || p.edit is Some,
        plan_for(p, plan),
    ensures
        plan is ConflictingActions,
{
}

} // verus!
