use context_pilot::chat::{
    acknowledge_result, clears_report, conflicting_actions_result, edit_without_body_result, execute_delete, execute_edit, image_result,
    nothing_to_do_result, plan_send, reply_result, room_input, send_result, SendParams, SendPlan,
};
use context_pilot::tool::{err, ToolUse};

fn tool() -> ToolUse {
    ToolUse { id: "toolu_1".to_string(), name: "Chat_send".to_string() }
}

fn params() -> SendParams {
    SendParams {
        room: None,
        message: None,
        reply_to: None,
        edit: None,
        delete: None,
        notice: None,
        report_later_here: None,
        image: None,
    }
}

#[test]
fn image_wins_over_everything() {
    let mut p = params();
    p.image = Some("/tmp/a.png".to_string());
    p.delete = Some("E1".to_string());
    p.message = Some("hi".to_string());
    match plan_send(&p) {
        SendPlan::Image { path } => assert_eq!(path, "/tmp/a.png"),
        _ => panic!("expected an image upload"),
    }
}

#[test]
fn delete_alone_deletes() {
    let mut p = params();
    p.delete = Some("E3".to_string());
    match plan_send(&p) {
        SendPlan::Delete { event_ref, reason } => {
            assert_eq!(event_ref, "E3");
            assert_eq!(reason, "Deleted by Context Pilot");
        }
        _ => panic!("expected a delete"),
    }
}

#[test]
fn delete_with_message_or_edit_is_refused() {
    let mut p = params();
    p.delete = Some("E3".to_string());
    p.message = Some("new".to_string());
    assert!(matches!(plan_send(&p), SendPlan::ConflictingActions));
    p.message = None;
    p.edit = Some("E4".to_string());
    assert!(matches!(plan_send(&p), SendPlan::ConflictingActions));
    let r = conflicting_actions_result(&tool());
    assert!(r.is_error);
    assert_eq!(r.content, "Provide only one of 'message', 'edit', or 'delete'.");
}

#[test]
fn edit_needs_a_body() {
    let mut p = params();
    p.edit = Some("E4".to_string());
    assert!(matches!(plan_send(&p), SendPlan::EditWithoutBody));
    p.message = Some(String::new());
    assert!(matches!(plan_send(&p), SendPlan::EditWithoutBody));
    p.message = Some("fixed".to_string());
    match plan_send(&p) {
        SendPlan::Edit { event_ref, body } => {
            assert_eq!(event_ref, "E4");
            assert_eq!(body, "fixed");
        }
        _ => panic!("expected an edit"),
    }
}

#[test]
fn message_plans() {
    let mut p = params();
    assert!(matches!(plan_send(&p), SendPlan::NothingToDo));
    p.message = Some(String::new());
    assert!(matches!(plan_send(&p), SendPlan::Acknowledge));
    p.message = Some("hello".to_string());
    match plan_send(&p) {
        SendPlan::Send { body, notice } => {
            assert_eq!(body, "hello");
            assert!(notice);
        }
        _ => panic!("expected a send"),
    }
    p.reply_to = Some("E9".to_string());
    p.notice = Some(false);
    match plan_send(&p) {
        SendPlan::Reply { event_ref, body, notice } => {
            assert_eq!(event_ref, "E9");
            assert_eq!(body, "hello");
            assert!(!notice);
        }
        _ => panic!("expected a reply"),
    }
}

#[test]
fn room_defaults_to_general() {
    let mut p = params();
    assert_eq!(room_input(&p), "#general");
    p.room = Some("#dev".to_string());
    assert_eq!(room_input(&p), "#dev");
}

#[test]
fn report_later_keeps_pending() {
    let mut p = params();
    assert!(clears_report(&p));
    p.report_later_here = Some(true);
    assert!(!clears_report(&p));
    p.report_later_here = Some(false);
    assert!(clears_report(&p));
}

#[test]
fn refusal_messages() {
    let r = edit_without_body_result(&tool());
    assert_eq!(r.content, "Edit requires a 'message' with the new content.");
    assert!(r.is_error);
    assert_eq!(r.tool_use_id, "toolu_1");
    assert_eq!(r.tool_name, "Chat_send");
    let r = nothing_to_do_result(&tool());
    assert_eq!(r.content, "Provide 'message', 'edit', or 'delete'.");
    assert!(r.is_error);
    let r = err(&tool(), "bad");
    assert_eq!(r.content, "bad");
    assert!(r.is_error);
    assert!(!r.preserves_tempo);
}

#[test]
fn acknowledge_message() {
    let r = acknowledge_result(&tool(), "#ops");
    assert_eq!(r.content, "Acknowledged '#ops' — removed from pending responses.");
    assert!(!r.is_error);
}

#[test]
fn image_outcomes() {
    let r = image_result(&tool(), "a.png", "#ops", Ok("$ev1".to_string()));
    assert_eq!(r.content, "Image 'a.png' sent to '#ops' (event: $ev1).");
    assert!(!r.is_error);
    let r = image_result(&tool(), "a.png", "#ops", Err("too big".to_string()));
    assert_eq!(r.content, "Image send failed: too big");
    assert!(r.is_error);
}

#[test]
fn reply_outcomes() {
    let r = reply_result(&tool(), "E2", "#ops", None);
    assert_eq!(r.content, "Cannot resolve reply_to ref 'E2'. Use an E<n> ref from the room panel.");
    assert!(r.is_error);
    let r = reply_result(&tool(), "E2", "#ops", Some(Ok("$e".to_string())));
    assert_eq!(r.content, "Reply sent to E2 in '#ops' (event: $e).");
    assert!(!r.is_error);
    let r = reply_result(&tool(), "E2", "#ops", Some(Err("down".to_string())));
    assert_eq!(r.content, "Reply failed: down");
    assert!(r.is_error);
}

#[test]
fn send_outcomes() {
    let r = send_result(&tool(), "#ops", Ok("$x".to_string()));
    assert_eq!(r.content, "Message sent to '#ops' (event: $x).");
    let r = send_result(&tool(), "#ops", Err("no".to_string()));
    assert_eq!(r.content, "Send failed: no");
    assert!(r.is_error);
}

#[test]
fn delete_outcomes() {
    let r = execute_delete(&tool(), "E7", None);
    assert_eq!(r.content, "Cannot resolve delete ref 'E7'.");
    assert!(r.is_error);
    let r = execute_delete(&tool(), "E7", Some(Ok(())));
    assert_eq!(r.content, "Message E7 deleted.");
    assert!(!r.is_error);
    let r = execute_delete(&tool(), "E7", Some(Err("forbidden".to_string())));
    assert_eq!(r.content, "Delete failed: forbidden");
}

#[test]
fn edit_outcomes() {
    let r = execute_edit(&tool(), "E8", None);
    assert_eq!(r.content, "Cannot resolve edit ref 'E8'.");
    let r = execute_edit(&tool(), "E8", Some(Ok("$new".to_string())));
    assert_eq!(r.content, "Message E8 edited (new event: $new).");
    assert!(!r.is_error);
    let r = execute_edit(&tool(), "E8", Some(Err("gone".to_string())));
    assert_eq!(r.content, "Edit failed: gone");
    assert!(r.is_error);
}
