//! Context panels: the entries shown in the sidebar and sent to the model.
use vstd::prelude::*;

verus! {

/// One context entry (a panel).
pub struct ContextEntry {
    /// Panel id, `P<n>`.
    pub id: String,
    /// Display name.
    pub name: String,
    /// Context type (`entities`, `library`, `entity_result`, ...).
    pub context_type: String,
    /// Whether the panel is fixed (not dynamic).
    pub is_fixed: bool,
    /// When the panel was last refreshed (ms since the epoch).
    pub last_refresh_ms: u64,
    /// Cached panel content, when it is loaded.
    pub cached_content: Option<String>,
}

/// A piece of context sent to the model.
pub struct ContextItem {
    /// Panel id.
    pub id: String,
    /// Header shown above the content.
    pub header: String,
    /// The content.
    pub content: String,
    /// When the panel was last refreshed (ms since the epoch).
    pub last_refresh_ms: u64,
}

/// Registration data of a context type.
pub struct TypeMeta {
    /// Context type id.
    pub context_type: &'static str,
    /// Icon id.
    pub icon_id: &'static str,
    /// Whether panels of this type are fixed.
    pub is_fixed: bool,
    /// Whether panels of this type need a background cache.
    pub needs_cache: bool,
    /// Position among fixed panels.
    pub fixed_order: Option<u32>,
    /// Display name.
    pub display_name: &'static str,
    /// Short name.
    pub short_name: &'static str,
    /// Whether opening waits for asynchronous loading.
    pub needs_async_wait: bool,
}

} // verus!
