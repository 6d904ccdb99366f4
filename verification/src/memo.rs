//! What is kept from frame to frame, and when it has to be computed anew.
use vstd::prelude::*;
use crate::tab;
use crate::tab::{clone_opt, EditorTab};
use crate::text::str_eq;

verus! {

/// A text longer than this, in bytes, has no symbols looked up.
pub const MAX_SYMBOL_SCAN_BYTES: usize = 500_000;

/// A text longer than this, in bytes, has no change bar: two mebibytes.
pub const CHANGE_BAR_MAX_BYTES: usize = 2_097_152;

/// What the list of symbols of a tab depends on.
#[derive(Clone, Copy, Debug, PartialEq, Eq, Structural)]
pub struct SymbolKey {
    pub edit_gen: u64,
    pub doc_id: u64,
}

/// What is done about the symbols of a tab.
#[derive(Clone, Copy, Debug, PartialEq, Eq, Structural)]
pub enum SymbolStep {
    /// The text is too long: there are none.
    NoSymbols,
    /// Those that were found last are still right.
    Reuse,
    /// Look them up, and keep them under this key.
    Scan(SymbolKey),
}

/// What is done about the symbols of a tab: they are looked up again only after an edit or
/// in another tab.
pub fn symbol_step(t: &EditorTab, bytes: usize, kept: Option<SymbolKey>) -> (s: SymbolStep)
    ensures
        ({
            let key = SymbolKey { edit_gen: t@.edit_gen, doc_id: t@.doc_id };
            s == (if bytes > MAX_SYMBOL_SCAN_BYTES {
                SymbolStep::NoSymbols
            } else if kept == Some(key) {
                SymbolStep::Reuse
            } else {
                SymbolStep::Scan(key)
            })
        }),
{
    if bytes > MAX_SYMBOL_SCAN_BYTES {
        return SymbolStep::NoSymbols;
    }
    let key = SymbolKey { edit_gen: t.edit_gen, doc_id: t.doc_id };
    match kept {
        Some(k) => if k == key {
            SymbolStep::Reuse
        } else {
            SymbolStep::Scan(key)
        },
        None => SymbolStep::Scan(key),
    }
}

/// What the minimap of a tab depends on: the text and the width that it is laid out in
/// (the bits of the number).
#[derive(Clone, Copy, Debug, PartialEq, Eq, Structural)]
pub struct MinimapKey {
    pub edit_gen: u64,
    pub doc_id: u64,
    pub width: u32,
}

/// The key of the minimap, and whether it has to be laid out anew.
pub fn minimap_step(t: &EditorTab, width: u32, kept: Option<MinimapKey>) -> (r: (MinimapKey, bool))
    ensures
        r.0 == (MinimapKey { edit_gen: t@.edit_gen, doc_id: t@.doc_id, width }),
        r.1 == (kept != Some(r.0)),
{
    let key = MinimapKey { edit_gen: t.edit_gen, doc_id: t.doc_id, width };
    let stale: bool = match kept {
        Some(k) => k != key,
        None => true,
    };
    (key, stale)
}

/// The token classes that the spellchecker is limited to.
#[derive(Clone, Copy, Debug, PartialEq, Eq, Structural)]
pub struct SpellScope {
    pub comments: bool,
    pub strings: bool,
    pub identifiers: bool,
}

/// What the misspellings of a tab depend on.
pub struct SpellKey {
    pub edit_gen: u64,
    pub doc_id: u64,
    pub scope: SpellScope,
    pub language: Option<String>,
}

/// What a [`SpellKey`] holds.
#[verifier::ext_equal]
pub struct SpellKeyModel {
    pub edit_gen: u64,
    pub doc_id: u64,
    pub scope: SpellScope,
    pub language: Option<Seq<char>>,
}

impl View for SpellKey {
    type V = SpellKeyModel;

    open spec fn view(&self) -> SpellKeyModel {
        SpellKeyModel {
            edit_gen: self.edit_gen,
            doc_id: self.doc_id,
            scope: self.scope,
            language: tab::opt_view(self.language),
        }
    }
}

/// What the misspellings of a tab depend on.
pub fn spell_cache_key(t: &EditorTab, scope: SpellScope) -> (k: SpellKey)
    ensures
        k@ == (SpellKeyModel {
            edit_gen: t@.edit_gen,
            doc_id: t@.doc_id,
            scope,
            language: t@.doc.language,
        }),
{
    SpellKey {
        edit_gen: t.edit_gen,
        doc_id: t.doc_id,
        scope,
        language: clone_opt(&t.doc.language),
    }
}

fn same_language(a: &Option<String>, b: &Option<String>) -> (r: bool)
    ensures
        r == (tab::opt_view(*a) == tab::opt_view(*b)),
{
    match (a, b) {
        (Some(x), Some(y)) => str_eq(x.as_str(), y.as_str()),
        (None, None) => true,
        _ => false,
    }
}

/// Whether a tab has to be spellchecked: with the spellchecker on, when what was found last
/// was found under another key.
pub fn spell_stale(enabled: bool, kept: &Option<SpellKey>, key: &SpellKey) -> (b: bool)
    ensures
        b == (enabled && match *kept {
            Some(k) => k@ != key@,
            None => true,
        }),
{
    if !enabled {
        return false;
    }
    match kept {
        Some(k) => {
            let same: bool = k.edit_gen == key.edit_gen && k.doc_id == key.doc_id && k.scope
                == key.scope && same_language(&k.language, &key.language);
            !same
        },
        None => true,
    }
}

/// What a classified stretch of a text is.
#[derive(Clone, Copy, Debug, PartialEq, Eq, Structural)]
pub enum TokenClass {
    Comment,
    Text,
    Identifier,
    Other,
}

/// Whether the classes of a text make it code: a comment, a string or an identifier.
pub open spec fn is_code(classes: Seq<TokenClass>) -> bool {
    exists|i: int| 0 <= i < classes.len() && #[trigger] classes[i] != TokenClass::Other
}

/// One comment, string or identifier makes a text code; without any it is prose.
pub proof fn law_code_has_a_token(classes: Seq<TokenClass>, i: int)
    requires
        0 <= i < classes.len(),
    ensures
        classes[i] is Comment || classes[i] is Text || classes[i] is Identifier ==> is_code(classes),
        (forall|k: int| 0 <= k < classes.len() ==> (#[trigger] classes[k]) is Other) ==> !is_code(
            classes,
        ),
{
}

/// Whether the spellchecker is limited to token classes: in code it is, while a text
/// without code is checked as a whole.
pub fn spell_is_scoped(classes: &Vec<TokenClass>) -> (b: bool)
    ensures
        b == is_code(classes@),
{
    let mut i: usize = 0;
    while i < classes.len()
        invariant
            i <= classes@.len(),
            forall|k: int| 0 <= k < i ==> #[trigger] classes@[k] == TokenClass::Other,
        decreases classes@.len() - i,
    {
        if classes[i] != TokenClass::Other {
            assert(classes@[i as int] != TokenClass::Other);
            return true;
        }
        i += 1;
    }
    false
}

/// What is done about the change bar of a tab.
#[derive(Clone, Copy, Debug, PartialEq, Eq, Structural)]
pub enum ChangeBarStep {
    /// The states of the lines stay as they are.
    Keep,
    /// The text is too long: the lines have no state.
    Clear,
    /// Compute the states from the two baselines and the text.
    Compute,
}

/// See to the change bar of a tab: its states are right for the present text afterwards.
pub fn ensure_change_states(t: &mut EditorTab, shown: bool, bytes: usize) -> (s: ChangeBarStep)
    ensures
        s == (if !shown || old(t)@.change_gen == Some(old(t)@.edit_gen) {
            ChangeBarStep::Keep
        } else if bytes > CHANGE_BAR_MAX_BYTES {
            ChangeBarStep::Clear
        } else {
            ChangeBarStep::Compute
        }),
        final(t)@ == (if shown {
            tab::TabModel { change_gen: Some(old(t)@.edit_gen), ..old(t)@ }
        } else {
            old(t)@
        }),
{
    if !shown {
        return ChangeBarStep::Keep;
    }
    let current: bool = match t.change_gen {
        Some(g) => g == t.edit_gen,
        None => false,
    };
    if current {
        return ChangeBarStep::Keep;
    }
    t.change_gen = Some(t.edit_gen);
    if bytes > CHANGE_BAR_MAX_BYTES {
        ChangeBarStep::Clear
    } else {
        ChangeBarStep::Compute
    }
}

/// Nothing is computed twice for one text: once the change bar was seen to, it is kept
/// until the next edit, and an edit has it computed anew.
pub proof fn law_change_bar_is_computed_once(t: tab::TabModel, text: Seq<char>)
    ensures
        ({
            let seen = tab::TabModel { change_gen: Some(t.edit_gen), ..t };
            seen.change_gen == Some(seen.edit_gen) && seen.edited(text).change_gen != Some(
                seen.edited(text).edit_gen,
            )
        }),
{
}

/// Which remembered caret has to go before another is remembered: with `known` of them at
/// the limit, the first.
pub fn caret_to_forget(known: usize, limit: usize, first: Option<String>) -> (r: Option<String>)
    ensures
        r == (if known >= limit {
            first
        } else {
            None
        }),
{
    if known >= limit {
        first
    } else {
        None
    }
}

} // verus!
