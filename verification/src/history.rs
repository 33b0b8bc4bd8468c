//! Prompt history navigation: stepping through past prompts in the input field.
use crate::text::views;
use vstd::prelude::*;
use vstd::string::*;
use vstd::utf8::encode_utf8;

verus! {

/// The prompt input field.
pub struct PromptInput {
    /// The text being edited.
    pub text: String,
    /// The cursor, as a byte offset into `text`.
    pub cursor: usize,
    /// The other end of the selection, if any.
    pub selection_anchor: Option<usize>,
}

/// The input shows `t` with the cursor at its end and nothing selected.
pub open spec fn shows(input: PromptInput, t: Seq<char>) -> bool {
    &&& input.text@ == t
    &&& input.cursor == encode_utf8(t).len()
    &&& input.selection_anchor is None
}

/// Prompt history navigation state.
pub struct PromptHistoryNav {
    /// Past prompts, oldest first.
    entries: Vec<String>,
    /// Current position; `None` while not navigating (the draft is shown).
    index: Option<usize>,
    /// The input text saved when navigation started.
    draft: String,
    /// Whether the stored history has been loaded yet.
    loaded: bool,
}

impl PromptHistoryNav {
    /// The past prompts, oldest first.
    pub closed spec fn history(&self) -> Seq<Seq<char>> {
        views(self.entries@)
    }

    /// The current position.
    pub closed spec fn position(&self) -> Option<usize> {
        self.index
    }

    /// The saved draft.
    pub closed spec fn saved_draft(&self) -> Seq<char> {
        self.draft@
    }

    /// Whether the stored history has been loaded.
    pub closed spec fn is_loaded(&self) -> bool {
        self.loaded
    }

    /// A position, when there is one, names an entry; nothing is navigated before loading.
    pub open spec fn wf(&self) -> bool {
        &&& self.history().len() <= usize::MAX
        &&& (self.position() matches Some(i) ==> i < self.history().len())
        &&& (!self.is_loaded() ==> self.position() is None)
    }

    /// Create an empty, unloaded navigation state.
    pub fn new() -> (r: Self)
        ensures
            r.wf(),
            r.history() == Seq::<Seq<char>>::empty(),
            r.position() is None,
            r.saved_draft() == Seq::<char>::empty(),
            !r.is_loaded(),
    {
        let r = PromptHistoryNav { entries: Vec::new(), index: None, draft: String::new(), loaded: false };
        assert(r.history() =~= Seq::<Seq<char>>::empty());
        r
    }

    /// Push a new entry to the history.
    pub fn push(&mut self, entry: String)
        requires
            old(self).wf(),
        ensures
            final(self).wf(),
            final(self).history() == old(self).history().push(entry@),
            final(self).position() == old(self).position(),
            final(self).saved_draft() == old(self).saved_draft(),
            final(self).is_loaded() == old(self).is_loaded(),
    {
        let ghost e = entry@;
        self.entries.push(entry);
        assert(self.entries@.len() == self.entries.len());
        assert(self.history() =~= old(self).history().push(e));
    }

    /// Reset navigation state after submission.
    pub fn reset_nav(&mut self)
        requires
            old(self).wf(),
        ensures
            final(self).wf(),
            final(self).history() == old(self).history(),
            final(self).position() is None,
            final(self).saved_draft() == Seq::<char>::empty(),
            final(self).is_loaded() == old(self).is_loaded(),
    {
        self.index = None;
        self.draft = String::new();
        assert(self.draft@ =~= Seq::<char>::empty());
    }

    /// The current position (`None` while the draft is shown).
    pub fn current_index(&self) -> (r: Option<usize>)
        ensures
            r == self.position(),
    {
        self.index
    }

    /// The number of past prompts.
    pub fn entry_count(&self) -> (r: usize)
        ensures
            r == self.history().len(),
    {
        self.entries.len()
    }

    /// Whether the stored history has been loaded.
    pub fn loaded(&self) -> (r: bool)
        ensures
            r == self.is_loaded(),
    {
        self.loaded
    }
}

/// The navigation state must still load the stored history (it does not exist yet, or has
/// not loaded).
pub open spec fn needs_load(nav: Option<PromptHistoryNav>) -> bool {
    match nav {
        None => true,
        Some(n) => !n.is_loaded(),
    }
}

/// Whether `ensure_history_nav` will use the stored history.
pub fn history_needs_load(nav: &Option<PromptHistoryNav>) -> (r: bool)
    ensures
        r == needs_load(*nav),
{
    match nav {
        None => true,
        Some(n) => !n.loaded,
    }
}

/// The navigation state after `ensure_history_nav` with the stored history `stored`.
pub open spec fn ensured(nav: Option<PromptHistoryNav>, stored: Seq<Seq<char>>, r: PromptHistoryNav) -> bool {
    &&& r.wf()
    &&& r.is_loaded()
    &&& match nav {
        None => r.history() == stored && r.position() is None && r.saved_draft() == Seq::<char>::empty(),
        Some(n) => if n.is_loaded() {
            r.history() == n.history() && r.position() == n.position() && r.saved_draft() == n.saved_draft()
        } else {
            r.history() == stored && r.position() == n.position() && r.saved_draft() == n.saved_draft()
        },
    }
}

/// Ensure the navigation state exists, and load the stored history into it on first use.
/// `stored` is the stored history, oldest first; it is used only where
/// `history_needs_load` holds.
pub fn ensure_history_nav(nav: &mut Option<PromptHistoryNav>, stored: Vec<String>)
    requires
        *old(nav) matches Some(n) ==> n.wf(),
    ensures
        *final(nav) matches Some(r) && ensured(*old(nav), views(stored@), r),
{
    let mut n = match nav.take() {
        Some(n) => n,
        None => PromptHistoryNav::new(),
    };
    if !n.loaded {
        n.entries = stored;
        n.loaded = true;
    }
    assert(n.entries@.len() == n.entries.len());
    proof {
        assert(n.history() =~= views(n.entries@));
    }
    *nav = Some(n);
}

/// The navigation state and input after stepping back from `n` with the input showing
/// `current`.
pub open spec fn stepped_back(
    n: PromptHistoryNav,
    current: PromptInput,
    r: PromptHistoryNav,
    input: PromptInput,
) -> bool {
    let h = n.history();
    &&& r.wf()
    &&& r.history() == h
    &&& r.is_loaded() == n.is_loaded()
    &&& if h.len() == 0 {
        r.position() == n.position() && r.saved_draft() == n.saved_draft() && input == current
    } else {
        match n.position() {
            None => {
                &&& r.saved_draft() == current.text@
                &&& r.position() == Some((h.len() - 1) as usize)
                &&& shows(input, h[h.len() - 1])
            },
            Some(i) => if i > 0 {
                &&& r.saved_draft() == n.saved_draft()
                &&& r.position() == Some((i - 1) as usize)
                &&& shows(input, h[i - 1])
            } else {
                r.position() == n.position() && r.saved_draft() == n.saved_draft() && input == current
            },
        }
    }
}

fn show(input: &mut PromptInput, text: String)
    ensures
        shows(*final(input), text@),
{
    let n = text.as_str().as_bytes().len();
    input.text = text;
    input.cursor = n;
    input.selection_anchor = None;
}

/// Navigate to the previous (older) prompt in history. The stored history `stored` is used
/// as `ensure_history_nav` uses it.
pub fn handle_history_prev(nav: &mut Option<PromptHistoryNav>, input: &mut PromptInput, stored: Vec<String>)
    requires
        *old(nav) matches Some(n) ==> n.wf(),
    ensures
        *final(nav) matches Some(r) && exists|e: PromptHistoryNav|
            #![trigger ensured(*old(nav), views(stored@), e)]
            ensured(*old(nav), views(stored@), e) && stepped_back(e, *old(input), r, *final(input)),
{
    ensure_history_nav(nav, stored);
    let mut n = match nav.take() {
        Some(n) => n,
        None => {
            return;
        },
    };
    let ghost e = n;
    let ghost current = *input;
    if n.entries.len() == 0 {
        *nav = Some(n);
        return;
    }
    match n.index {
        None => {
            n.draft = input.text.clone();
            let idx = n.entries.len() - 1;
            n.index = Some(idx);
            let t = n.entries[idx].clone();
            show(input, t);
        },
        Some(idx) => {
            if idx > 0 {
                let prev = idx - 1;
                n.index = Some(prev);
                let t = n.entries[prev].clone();
                show(input, t);
            }
        },
    }
    *nav = Some(n);
}

/// The navigation state and input after stepping forward from `n` with the input showing
/// `current`.
pub open spec fn stepped_forward(
    n: PromptHistoryNav,
    current: PromptInput,
    r: PromptHistoryNav,
    input: PromptInput,
) -> bool {
    let h = n.history();
    &&& r.wf()
    &&& r.history() == h
    &&& r.is_loaded() == n.is_loaded()
    &&& r.saved_draft() == n.saved_draft()
    &&& match n.position() {
        None => r.position() is None && input == current,
        Some(i) => if i + 1 < h.len() {
            r.position() == Some((i + 1) as usize) && shows(input, h[i + 1])
        } else {
            r.position() is None && shows(input, n.saved_draft())
        },
    }
}

/// Navigate to the next (newer) prompt in history; past the newest, back to the draft.
pub fn handle_history_next(nav: &mut Option<PromptHistoryNav>, input: &mut PromptInput)
    requires
        *old(nav) matches Some(n) ==> n.wf(),
    ensures
        match *old(nav) {
            None => *final(nav) is None && *final(input) == *old(input),
            Some(n) => *final(nav) matches Some(r) && stepped_forward(n, *old(input), r, *final(input)),
        },
{
    let mut n = match nav.take() {
        Some(n) => n,
        None => {
            return;
        },
    };
    let idx = match n.index {
        Some(i) => i,
        None => {
            *nav = Some(n);
            return;
        },
    };
    let len = n.entries.len();
    assert(idx < len);
    let next = idx.saturating_add(1);
    if next < len {
        n.index = Some(next);
        let t = n.entries[next].clone();
        show(input, t);
    } else {
        let d = n.draft.clone();
        n.index = None;
        show(input, d);
    }
    *nav = Some(n);
}

/// Stepping back from the draft and then forward again shows the draft once more, with
/// navigation ended.
pub proof fn law_back_then_forward_restores_draft(
    n: PromptHistoryNav,
    current: PromptInput,
    r1: PromptHistoryNav,
    in1: PromptInput,
    r2: PromptHistoryNav,
    in2: PromptInput,
)
    requires
        n.wf(),
        n.history().len() > 0,
        n.position() is None,
        stepped_back(n, current, r1, in1),
        stepped_forward(r1, in1, r2, in2),
    ensures
        r2.position() is None,
        r2.history() == n.history(),
        shows(in2, current.text@),
{
}

/// Stepping forward to a newer entry and then back again returns to the entry one started
/// from.
pub proof fn law_forward_then_back_returns(
    n: PromptHistoryNav,
    current: PromptInput,
    r1: PromptHistoryNav,
    in1: PromptInput,
    r2: PromptHistoryNav,
    in2: PromptInput,
    i: usize,
)
    requires
        n.wf(),
        n.position() == Some(i),
        i + 1 < n.history().len(),
        stepped_forward(n, current, r1, in1),
        stepped_back(r1, in1, r2, in2),
    ensures
        r2.position() == Some(i),
        shows(in2, n.history()[i as int]),
        r2.saved_draft() == n.saved_draft(),
{
}

/// The text copied from a panel: its context items' contents joined by blank lines, then,
/// on the conversation panel, the pending input (after a blank line when there is text
/// before it).
pub open spec fn copied_text(contents: Seq<Seq<char>>, is_conversation: bool, input: Seq<char>) -> Seq<char> {
    let text = crate::text::join_seq(contents, "\n\n"@);
    if is_conversation && input.len() > 0 {
        if text.len() > 0 {
            text + "\n\n"@ + input
        } else {
            input
        }
    } else {
        text
    }
}

/// The text to copy to the clipboard for a panel (`contents`: its context items' contents),
/// or `None` when there is nothing to copy.
pub fn clipboard_text(contents: &Vec<String>, is_conversation: bool, input: &str) -> (r: Option<String>)
    ensures
        match r {
            Some(t) => t@ == copied_text(views(contents@), is_conversation, input@) && t@.len() > 0,
            None => copied_text(views(contents@), is_conversation, input@).len() == 0,
        },
{
    let mut text = crate::text::join(contents, "\n\n");
    if is_conversation && !input.is_empty() {
        if !text.as_str().is_empty() {
            text.append("\n\n");
        }
        text.append(input);
    }
    if text.as_str().is_empty() {
        None
    } else {
        Some(text)
    }
}

} // verus!
