use context_pilot::context::ContextEntry;
use context_pilot::history::{
    clipboard_text, ensure_history_nav, handle_history_next, handle_history_prev, history_needs_load,
    PromptHistoryNav, PromptInput,
};
use context_pilot::navigation::{page_dynamic, panel_number, panel_order_of, select_context, DYNAMIC_PAGE_SIZE};

fn entry(id: &str, fixed: bool) -> ContextEntry {
    ContextEntry {
        id: id.to_string(),
        name: id.to_string(),
        context_type: if fixed { "tools".to_string() } else { "file".to_string() },
        is_fixed: fixed,
        last_refresh_ms: 0,
        cached_content: None,
    }
}

#[test]
fn panel_numbers() {
    assert_eq!(panel_number("P12"), 12);
    assert_eq!(panel_number("P0"), 0);
    assert_eq!(panel_number("P+3"), 3);
    assert_eq!(panel_number("Q1"), usize::MAX);
    assert_eq!(panel_number("P"), usize::MAX);
    assert_eq!(panel_number("Pxyz"), usize::MAX);
    assert_eq!(panel_number(""), usize::MAX);
}

#[test]
fn panel_order_is_numeric_and_stable() {
    let keys = vec![10, 2, 10, usize::MAX, 1];
    let fixed = vec![false, true, false, false, true];
    assert_eq!(panel_order_of(&keys, &fixed, false), vec![4, 1, 0, 2, 3]);
    assert_eq!(panel_order_of(&keys, &fixed, true), vec![0, 2, 3]);
}

#[test]
fn select_next_and_previous() {
    // Order by id: P1 (index 2), P2 (index 0), P10 (index 1).
    let panels = vec![entry("P2", true), entry("P10", false), entry("P1", true)];
    assert_eq!(select_context(&panels, 2, true), Some(0));
    assert_eq!(select_context(&panels, 0, true), Some(1));
    assert_eq!(select_context(&panels, 1, true), Some(2));
    assert_eq!(select_context(&panels, 2, false), Some(1));
    assert_eq!(select_context(&panels, 1, false), Some(0));
    // A selection that is not a panel counts as the first one.
    assert_eq!(select_context(&panels, 9, true), Some(0));
    assert_eq!(select_context(&panels, 9, false), Some(1));
    assert_eq!(select_context(&Vec::new(), 0, true), None);
}

#[test]
fn select_forward_then_back_returns() {
    let panels = vec![entry("P3", false), entry("P1", false), entry("P2", true), entry("P7", false)];
    for start in 0..panels.len() {
        let next = select_context(&panels, start, true).unwrap();
        assert_eq!(select_context(&panels, next, false), Some(start));
    }
}

fn dynamic_panels(n: usize) -> Vec<ContextEntry> {
    let mut v = vec![entry("P1", true), entry("P2", true)];
    for i in 0..n {
        v.push(entry(&format!("P{}", i + 10), false));
    }
    v
}

#[test]
fn page_jumps() {
    assert_eq!(DYNAMIC_PAGE_SIZE, 10);
    let panels = dynamic_panels(25);
    // From a fixed panel: forward to the last page, backward to the first.
    assert_eq!(page_dynamic(&panels, 0, true), Some(22));
    assert_eq!(page_dynamic(&panels, 0, false), Some(2));
    // From the first page forward to the second, then the third, then around.
    assert_eq!(page_dynamic(&panels, 3, true), Some(12));
    assert_eq!(page_dynamic(&panels, 12, true), Some(22));
    assert_eq!(page_dynamic(&panels, 26, true), Some(2));
    // Backward wraps from the first page to the last.
    assert_eq!(page_dynamic(&panels, 5, false), Some(22));
    assert_eq!(page_dynamic(&panels, 15, false), Some(2));
}

#[test]
fn page_jumps_without_dynamic_panels() {
    let panels = vec![entry("P1", true)];
    assert_eq!(page_dynamic(&panels, 0, true), None);
    assert_eq!(page_dynamic(&Vec::new(), 0, false), None);
}

fn input(text: &str) -> PromptInput {
    PromptInput { text: text.to_string(), cursor: 0, selection_anchor: Some(0) }
}

fn stored() -> Vec<String> {
    vec!["first".to_string(), "second".to_string(), "thïrd".to_string()]
}

#[test]
fn history_loads_once() {
    let mut nav: Option<PromptHistoryNav> = None;
    assert!(history_needs_load(&nav));
    ensure_history_nav(&mut nav, stored());
    assert!(!history_needs_load(&nav));
    assert_eq!(nav.as_ref().unwrap().entry_count(), 3);
    ensure_history_nav(&mut nav, vec!["other".to_string()]);
    assert_eq!(nav.as_ref().unwrap().entry_count(), 3);
    assert!(nav.as_ref().unwrap().loaded());
}

#[test]
fn history_prev_walks_back() {
    let mut nav: Option<PromptHistoryNav> = None;
    let mut inp = input("draft");
    handle_history_prev(&mut nav, &mut inp, stored());
    assert_eq!(inp.text, "thïrd");
    assert_eq!(inp.cursor, "thïrd".len());
    assert_eq!(inp.selection_anchor, None);
    assert_eq!(nav.as_ref().unwrap().current_index(), Some(2));
    handle_history_prev(&mut nav, &mut inp, Vec::new());
    handle_history_prev(&mut nav, &mut inp, Vec::new());
    assert_eq!(inp.text, "first");
    // At the oldest entry nothing changes.
    handle_history_prev(&mut nav, &mut inp, Vec::new());
    assert_eq!(inp.text, "first");
    assert_eq!(nav.as_ref().unwrap().current_index(), Some(0));
}

#[test]
fn history_back_then_forward_restores_draft() {
    let mut nav: Option<PromptHistoryNav> = None;
    let mut inp = input("my draft");
    handle_history_prev(&mut nav, &mut inp, stored());
    handle_history_next(&mut nav, &mut inp);
    assert_eq!(inp.text, "my draft");
    assert_eq!(inp.cursor, 8);
    assert_eq!(nav.as_ref().unwrap().current_index(), None);
}

#[test]
fn history_forward_then_back_returns() {
    let mut nav: Option<PromptHistoryNav> = None;
    let mut inp = input("d");
    handle_history_prev(&mut nav, &mut inp, stored());
    handle_history_prev(&mut nav, &mut inp, Vec::new());
    handle_history_prev(&mut nav, &mut inp, Vec::new());
    assert_eq!(inp.text, "first");
    handle_history_next(&mut nav, &mut inp);
    assert_eq!(inp.text, "second");
    handle_history_prev(&mut nav, &mut inp, Vec::new());
    assert_eq!(inp.text, "first");
    assert_eq!(nav.as_ref().unwrap().current_index(), Some(0));
}

#[test]
fn history_next_without_navigation_does_nothing() {
    let mut nav: Option<PromptHistoryNav> = None;
    let mut inp = input("x");
    handle_history_next(&mut nav, &mut inp);
    assert!(nav.is_none());
    assert_eq!(inp.text, "x");
    assert_eq!(inp.selection_anchor, Some(0));
    let mut nav = Some(PromptHistoryNav::new());
    handle_history_next(&mut nav, &mut inp);
    assert_eq!(inp.text, "x");
}

#[test]
fn history_empty_does_nothing() {
    let mut nav: Option<PromptHistoryNav> = None;
    let mut inp = input("keep");
    handle_history_prev(&mut nav, &mut inp, Vec::new());
    assert_eq!(inp.text, "keep");
    assert_eq!(nav.as_ref().unwrap().current_index(), None);
}

#[test]
fn history_push_and_reset() {
    let mut nav = PromptHistoryNav::new();
    nav.push("a".to_string());
    nav.push("b".to_string());
    assert_eq!(nav.entry_count(), 2);
    nav.reset_nav();
    assert_eq!(nav.current_index(), None);
    assert!(!nav.loaded());
}

#[test]
fn clipboard_texts() {
    let items = vec!["one".to_string(), "two".to_string()];
    assert_eq!(clipboard_text(&items, false, "typed"), Some("one\n\ntwo".to_string()));
    assert_eq!(clipboard_text(&items, true, "typed"), Some("one\n\ntwo\n\ntyped".to_string()));
    assert_eq!(clipboard_text(&Vec::new(), true, "typed"), Some("typed".to_string()));
    assert_eq!(clipboard_text(&Vec::new(), true, ""), None);
    assert_eq!(clipboard_text(&Vec::new(), false, "typed"), None);
}
