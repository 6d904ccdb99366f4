//! Finding: the find bar, the project search, and the filters of the pickers.
use vstd::prelude::*;
use vstd::string::*;
use crate::edit;
use crate::edit::Span;
use crate::lines;
use crate::lines::trimmed;
use crate::tabs;
use crate::text;
use crate::text::{byte_to_char_index, chars_of, decimal_string, line_col_from_char_index, str_to_lowercase};

verus! {

/// The match after, or before, match `idx` of `n`, in a circle. An index past the
/// matches counts as the last.
pub open spec fn next_match(idx: int, n: int, forward: bool) -> int {
    let i = tabs::last_at_most(idx, n);
    if forward {
        if i + 1 < n {
            i + 1
        } else {
            0
        }
    } else {
        if i == 0 {
            n - 1
        } else {
            i - 1
        }
    }
}

/// Where the find bar goes.
pub struct FindStep {
    /// The match in focus.
    pub index: usize,
    /// Its line, counted from zero, to scroll to.
    pub line0: usize,
    /// The status line.
    pub status: String,
}

/// The line, counted from zero, that holds byte `offset` of `text`.
pub fn line_of_offset(text: &str, offset: usize) -> (line0: usize)
    requires
        text@.len() < usize::MAX,
    ensures
        line0 == text::line_col(text@, text::char_index(text@, offset as int)).0 - 1,
{
    let ci = byte_to_char_index(text, offset);
    let (line, _) = line_col_from_char_index(text, ci);
    proof {
        text::lemma_line_col_bounds(text@, ci as int);
    }
    line - 1
}

/// Go to the next or the previous match, in a circle, and scroll to it. `None` when
/// there are no matches: nothing changes then.
pub fn find_navigate(text: &str, matches: &Vec<Span>, idx: usize, forward: bool) -> (r: Option<
    FindStep,
>)
    requires
        text@.len() < usize::MAX,
    ensures
        r is None <==> matches@.len() == 0,
        r matches Some(s) ==> {
            let n = matches@.len() as int;
            &&& s.index == next_match(idx as int, n, forward)
            &&& s.index < n
            &&& s.line0 == text::line_col(
                text@,
                text::char_index(text@, matches@[s.index as int].start as int),
            ).0 - 1
            &&& s.status@ == "match "@ + text::decimal((s.index + 1) as nat) + " of "@
                + text::decimal(n as nat)
        },
{
    let n: usize = matches.len();
    if n == 0 {
        return None;
    }
    let i: usize = if idx < n {
        idx
    } else {
        n - 1
    };
    let index: usize = if forward {
        if i + 1 < n {
            i + 1
        } else {
            0
        }
    } else if i == 0 {
        n - 1
    } else {
        i - 1
    };
    let line0 = line_of_offset(text, matches[index].start);
    let mut status = "match ".to_string();
    let at = decimal_string(index + 1);
    status.append(at.as_str());
    status.append(" of ");
    let of = decimal_string(n);
    status.append(of.as_str());
    Some(FindStep { index, line0, status })
}

/// Stepping forward and back returns to the match.
pub proof fn law_find_there_and_back(idx: int, n: int, forward: bool)
    requires
        0 <= idx < n,
    ensures
        0 <= next_match(idx, n, forward) < n,
        next_match(next_match(idx, n, forward), n, !forward) == idx,
{
}

/// Stepping forward visits every match: `n` steps lead round to the first again.
pub proof fn law_find_visits_all(start: int, n: int, k: nat)
    requires
        0 <= start < n,
        k <= n,
    ensures
        steps(start, n, k) == (if start + k < n {
            start + k
        } else {
            start + k - n
        }),
    decreases k,
{
    if k > 0 {
        law_find_visits_all(start, n, (k - 1) as nat);
    }
}

/// The match after `k` steps forward.
pub open spec fn steps(start: int, n: int, k: nat) -> int
    decreases k,
{
    if k == 0 {
        start
    } else {
        next_match(steps(start, n, (k - 1) as nat), n, true)
    }
}

/// Forward goes to the next match and from the last to the first, back to the one before and from
/// the first to the last. A match that is no longer there counts as the last.
pub proof fn law_find_steps_to_neighbours(idx: int, n: int)
    requires
        0 <= idx < n,
    ensures
        idx < n - 1 ==> next_match(idx, n, true) == idx + 1,
        next_match(n - 1, n, true) == 0,
        idx > 0 ==> next_match(idx, n, false) == idx - 1,
        next_match(0, n, false) == n - 1,
        forall|past: int, forward: bool|
            past >= n ==> #[trigger] next_match(past, n, forward) == next_match(n - 1, n, forward),
{
}

/// The match that is in focus as the find bar draws: the first after the query was
/// edited, and never past the last.
pub fn match_in_focus(idx: usize, query_edited: bool, count: usize) -> (r: usize)
    ensures
        r == tabs::last_at_most(
            if query_edited {
                0
            } else {
                idx as int
            },
            count as int,
        ),
{
    let i: usize = if query_edited {
        0
    } else {
        idx
    };
    if i < count {
        i
    } else if count == 0 {
        0
    } else {
        count - 1
    }
}

/// What the find bar says of its matches: which of how many, that there are none, or
/// nothing while the field is empty.
pub fn match_counter(query: &str, idx: usize, count: usize) -> (s: String)
    requires
        count > 0 ==> idx < count,
    ensures
        s@ == (if count > 0 {
            text::decimal((idx + 1) as nat) + "/"@ + text::decimal(count as nat)
        } else if query@.len() == 0 {
            Seq::<char>::empty()
        } else {
            "no matches"@
        }),
{
    if count == 0 {
        if query.is_empty() {
            String::new()
        } else {
            "no matches".to_string()
        }
    } else {
        let mut s = decimal_string(idx + 1);
        s.append("/");
        let c = decimal_string(count);
        s.append(c.as_str());
        s
    }
}

/// What the cached matches of the find bar were computed for.
pub struct FindKey {
    /// The query.
    pub query: String,
    /// The buffer's edit generation.
    pub edit_gen: u64,
    /// The buffer.
    pub doc_id: u64,
}

/// Whether the cached matches still hold.
pub open spec fn key_matches(cached: Option<FindKey>, key: FindKey) -> bool {
    match cached {
        Some(c) => c.query@ == key.query@ && c.edit_gen == key.edit_gen && c.doc_id == key.doc_id,
        None => false,
    }
}

/// Cached matches hold exactly for the query, the buffer and the text that they were found for.
pub proof fn law_cached_matches_hold(c: FindKey, key: FindKey)
    ensures
        !key_matches(None, key),
        key_matches(Some(c), key) <==> c.query@ == key.query@ && c.edit_gen == key.edit_gen
            && c.doc_id == key.doc_id,
{
}

/// Whether the buffer has to be searched again: unless query, buffer and edit
/// generation are those of the cached matches.
pub fn needs_rescan(cached: &Option<FindKey>, key: &FindKey) -> (b: bool)
    ensures
        b == !key_matches(*cached, *key),
{
    match cached {
        Some(c) => !(c.query == key.query && c.edit_gen == key.edit_gen && c.doc_id == key.doc_id),
        None => true,
    }
}

/// Whether `needle` stands in `hay` at `at`.
pub open spec fn stands_at(hay: Seq<char>, needle: Seq<char>, at: int) -> bool {
    0 <= at && at + needle.len() <= hay.len() && hay.subrange(at, at + needle.len()) == needle
}

/// Whether `needle` stands in `hay`.
pub open spec fn contains(hay: Seq<char>, needle: Seq<char>) -> bool {
    exists|at: int| stands_at(hay, needle, at)
}

/// Whether `needle` stands in `hay`.
pub fn str_contains(hay: &str, needle: &str) -> (b: bool)
    ensures
        b == contains(hay@, needle@),
{
    let h = chars_of(hay);
    let p = chars_of(needle);
    let n: usize = h.len();
    let m: usize = p.len();
    if m > n {
        return false;
    }
    let mut at: usize = 0;
    while at <= n - m
        invariant
            h@ == hay@,
            p@ == needle@,
            n == h@.len(),
            m == p@.len(),
            m <= n,
            at <= n - m + 1,
            forall|k: int| 0 <= k < at ==> !#[trigger] stands_at(hay@, needle@, k),
        decreases n - m + 1 - at,
    {
        let mut i: usize = 0;
        while i < m && h[at + i] == p[i]
            invariant
                h@ == hay@,
                p@ == needle@,
                n == h@.len(),
                m == p@.len(),
                m <= n,
                at <= n - m,
                i <= m,
                forall|k: int| 0 <= k < i ==> #[trigger] p@[k] == h@[at + k],
            decreases m - i,
        {
            i += 1;
        }
        if i == m {
            assert(hay@.subrange(at as int, at + needle@.len()) =~= needle@);
            assert(stands_at(hay@, needle@, at as int));
            return true;
        }
        assert(!stands_at(hay@, needle@, at as int)) by {
            if stands_at(hay@, needle@, at as int) {
                assert(hay@.subrange(at as int, at + needle@.len())[i as int] == needle@[i as int]);
            }
        }
        if at == n - m {
            assert forall|k: int| !stands_at(hay@, needle@, k) by {}
            return false;
        }
        at += 1;
    }
    false
}

/// A text holds another exactly when it is that text with something, or nothing, before and
/// behind it.
pub proof fn law_contains_anywhere(hay: Seq<char>, needle: Seq<char>)
    ensures
        contains(hay, needle) <==> exists|a: Seq<char>, b: Seq<char>| hay == #[trigger] (a + needle + b),
{
    if contains(hay, needle) {
        let at = choose|at: int| stands_at(hay, needle, at);
        let a = hay.take(at);
        let b = hay.skip(at + needle.len());
        assert(hay =~= a + needle + b);
    }
    if exists|a: Seq<char>, b: Seq<char>| hay == #[trigger] (a + needle + b) {
        let (a, b) = choose|a: Seq<char>, b: Seq<char>| hay == #[trigger] (a + needle + b);
        lemma_stands_between(a, needle, b);
    }
}

/// What stands between two texts is held by the three together.
pub proof fn lemma_stands_between(a: Seq<char>, needle: Seq<char>, b: Seq<char>)
    ensures
        contains(a + needle + b, needle),
{
    let hay = a + needle + b;
    assert(hay.subrange(a.len() as int, (a.len() + needle.len()) as int) =~= needle);
    assert(stands_at(hay, needle, a.len() as int));
}

/// The palette lists a command for a query exactly when the query stands somewhere in its
/// lower-case label or its lower-case shortcut: at the start, in the middle or at the end.
pub proof fn law_palette_finds_anywhere(label: Seq<char>, shortcut: Seq<char>, q: Seq<char>)
    ensures
        command_listed(label, shortcut, q) <==> ((exists|a: Seq<char>, b: Seq<char>|
            text::lower_case(label) == #[trigger] (a + q + b)) || (exists|a: Seq<char>, b: Seq<char>|
            text::lower_case(shortcut) == #[trigger] (a + q + b))),
{
    law_contains_anywhere(text::lower_case(label), q);
    law_contains_anywhere(text::lower_case(shortcut), q);
    if q.len() == 0 {
        let l = text::lower_case(label);
        let e = Seq::<char>::empty();
        assert(l =~= e + q + l);
    }
}

/// The palette lists a plugin's command for a query exactly when the query stands somewhere
/// in its lower-case label or its id.
pub proof fn law_palette_finds_plugin_anywhere(label: Seq<char>, id: Seq<char>, q: Seq<char>)
    ensures
        plugin_command_listed(label, id, q) <==> ((exists|a: Seq<char>, b: Seq<char>|
            text::lower_case(label) == #[trigger] (a + q + b)) || (exists|a: Seq<char>, b: Seq<char>|
            id == #[trigger] (a + q + b))),
{
    law_contains_anywhere(text::lower_case(label), q);
    law_contains_anywhere(id, q);
    if q.len() == 0 {
        let e = Seq::<char>::empty();
        assert(id =~= e + q + id);
    }
}

/// "Go to symbol" lists a symbol for a query exactly when the query stands somewhere in its
/// lower-case label.
pub proof fn law_symbols_found_anywhere(s: Symbol, q: Seq<char>)
    ensures
        symbol_listed(s, q) <==> exists|a: Seq<char>, b: Seq<char>|
            text::lower_case(s.label@) == #[trigger] (a + q + b),
{
    law_contains_anywhere(text::lower_case(s.label@), q);
    if q.len() == 0 {
        let l = text::lower_case(s.label@);
        let e = Seq::<char>::empty();
        assert(l =~= e + q + l);
    }
}

/// Whether a built-in command is listed for the lower-case query `q`: by its label or
/// its shortcut.
pub open spec fn command_listed(label: Seq<char>, shortcut: Seq<char>, q: Seq<char>) -> bool {
    q.len() == 0 || contains(text::lower_case(label), q) || contains(text::lower_case(shortcut), q)
}

/// Whether the command palette lists a built-in command. `lowered` is the query in
/// lower case.
pub fn palette_lists(label: &str, shortcut: &str, lowered: &str) -> (b: bool)
    ensures
        b == command_listed(label@, shortcut@, lowered@),
{
    if lowered.is_empty() {
        return true;
    }
    let l = str_to_lowercase(label);
    if str_contains(l.as_str(), lowered) {
        return true;
    }
    let s = str_to_lowercase(shortcut);
    str_contains(s.as_str(), lowered)
}

/// Whether a plugin command is listed for the lower-case query `q`: by its label or
/// its id.
pub open spec fn plugin_command_listed(label: Seq<char>, id: Seq<char>, q: Seq<char>) -> bool {
    q.len() == 0 || contains(text::lower_case(label), q) || contains(id, q)
}

/// Whether the command palette lists a plugin's command. `lowered` is the query in
/// lower case.
pub fn palette_lists_plugin(label: &str, id: &str, lowered: &str) -> (b: bool)
    ensures
        b == plugin_command_listed(label@, id@, lowered@),
{
    if lowered.is_empty() {
        return true;
    }
    let l = str_to_lowercase(label);
    if str_contains(l.as_str(), lowered) {
        return true;
    }
    str_contains(id, lowered)
}

/// What the palette shows of a command: its label, and its shortcut where it has one.
pub fn palette_label(label: &str, shortcut: &str) -> (s: String)
    ensures
        s@ == (if shortcut@.len() == 0 {
            label@
        } else {
            label@ + "  ·  "@ + shortcut@
        }),
{
    let mut s = label.to_string();
    if !shortcut.is_empty() {
        s.append("  ·  ");
        s.append(shortcut);
    }
    s
}

/// A query as the pickers compare it: in lower case.
pub fn lowered_query(query: &str) -> (s: String)
    ensures
        s@ == text::lower_case(query@),
{
    str_to_lowercase(query)
}

/// A query as "go to symbol" compares it: without the whitespace around it, in lower case.
pub fn symbol_query(query: &str) -> (s: String)
    ensures
        s@ == text::lower_case(lines::trim(query@)),
{
    let t = trimmed(query);
    str_to_lowercase(t.as_str())
}

/// A definition that "go to symbol" lists.
pub struct Symbol {
    /// Its name and kind.
    pub label: String,
    /// Its first line, counted from zero.
    pub start_line: usize,
    /// How deep it is nested.
    pub depth: usize,
}

/// Whether a symbol is listed for the lower-case query `q`.
pub open spec fn symbol_listed(s: Symbol, q: Seq<char>) -> bool {
    q.len() == 0 || contains(text::lower_case(s.label@), q)
}

/// The symbols that "go to symbol" lists for the query `lowered`, by their places.
pub fn listed_symbols(symbols: &Vec<Symbol>, lowered: &str) -> (v: Vec<usize>)
    ensures
        forall|k: int|
            0 <= k < v@.len() ==> #[trigger] v@[k] < symbols@.len() && symbol_listed(
                symbols@[v@[k] as int],
                lowered@,
            ),
        forall|i: int|
            0 <= i < symbols@.len() && symbol_listed(#[trigger] symbols@[i], lowered@)
                ==> exists|k: int| 0 <= k < v@.len() && #[trigger] v@[k] == i,
        forall|j: int, k: int| 0 <= j < k < v@.len() ==> #[trigger] v@[j] < #[trigger] v@[k],
{
    let mut v: Vec<usize> = Vec::new();
    let mut i: usize = 0;
    while i < symbols.len()
        invariant
            i <= symbols@.len(),
            forall|k: int|
                0 <= k < v@.len() ==> #[trigger] v@[k] < i && symbol_listed(
                    symbols@[v@[k] as int],
                    lowered@,
                ),
            forall|j: int|
                0 <= j < i && symbol_listed(#[trigger] symbols@[j], lowered@) ==> exists|k: int|
                    0 <= k < v@.len() && #[trigger] v@[k] == j,
            forall|j: int, k: int| 0 <= j < k < v@.len() ==> #[trigger] v@[j] < #[trigger] v@[k],
        decreases symbols@.len() - i,
    {
        let mut listed: bool = lowered.is_empty();
        if !listed {
            let l = str_to_lowercase(symbols[i].label.as_str());
            listed = str_contains(l.as_str(), lowered);
        }
        if listed {
            let ghost before = v@;
            v.push(i);
            proof {
                assert forall|j: int|
                    0 <= j < i + 1 && symbol_listed(#[trigger] symbols@[j], lowered@) implies exists|
                    k: int,
                |
                    0 <= k < v@.len() && #[trigger] v@[k] == j by {
                    if j < i {
                        let k = choose|k: int| 0 <= k < before.len() && #[trigger] before[k] == j;
                        assert(v@[k] == j);
                    } else {
                        assert(v@[before.len() as int] == j);
                    }
                }
            }
        }
        i += 1;
    }
    v
}

/// What Enter does in "go to symbol": jump to the first symbol listed, or close the
/// window when none is. The line is counted from zero.
pub fn symbol_on_enter(symbols: &Vec<Symbol>, listed: &Vec<usize>) -> (r: Option<usize>)
    requires
        forall|k: int| 0 <= k < listed@.len() ==> #[trigger] listed@[k] < symbols@.len(),
    ensures
        match r {
            Some(line) => listed@.len() > 0 && line == symbols@[listed@[0] as int].start_line,
            None => listed@.len() == 0,
        },
{
    if listed.len() == 0 {
        None
    } else {
        let i: usize = listed[0];
        Some(symbols[i].start_line)
    }
}

/// The row of a symbol: indented by its depth, with its line counted from one.
pub fn symbol_row(sym: &Symbol) -> (s: String)
    requires
        sym.start_line < usize::MAX,
        2 * sym.depth <= usize::MAX,
    ensures
        s@ == edit::blanks((2 * sym.depth) as nat) + sym.label@ + "  ·  "@ + text::decimal(
            (sym.start_line + 1) as nat,
        ),
{
    let mut s = String::new();
    let n: usize = 2 * sym.depth;
    let mut i: usize = 0;
    assert(s@ =~= edit::blanks(0));
    while i < n
        invariant
            i <= n,
            s@ == edit::blanks(i as nat),
        decreases n - i,
    {
        s.push(' ');
        i += 1;
        assert(s@ =~= edit::blanks(i as nat));
    }
    let line = decimal_string(sym.start_line + 1);
    s.append(sym.label.as_str());
    s.append("  ·  ");
    s.append(line.as_str());
    s
}

/// What the project search says while it runs.
pub fn search_progress(found: usize) -> (s: String)
    ensures
        s@ == "searching… "@ + text::decimal(found as nat) + " so far"@,
{
    let n = decimal_string(found);
    let mut s = "searching… ".to_string();
    s.append(n.as_str());
    s.append(" so far");
    s
}

/// The highlighted row of the file finder after the arrow keys: it stops at the first
/// and the last row.
pub open spec fn moved_selection(current: int, len: int, up: bool, down: bool) -> int {
    let at = tabs::last_at_most(current, len);
    let below = if down {
        tabs::last_at_most(at + 1, len)
    } else {
        at
    };
    if up && below > 0 {
        below - 1
    } else {
        below
    }
}

/// The arrows move the highlight by one row and stop at the ends.
pub proof fn law_finder_arrows_move_by_one(current: int, len: int)
    requires
        0 <= current < len,
    ensures
        moved_selection(current, len, false, false) == current,
        current + 1 < len ==> moved_selection(current, len, false, true) == current + 1,
        moved_selection(len - 1, len, false, true) == len - 1,
        current > 0 ==> moved_selection(current, len, true, false) == current - 1,
        moved_selection(0, len, true, false) == 0,
        forall|past: int| past >= len ==> #[trigger] moved_selection(past, len, false, false) == len - 1,
{
}

/// Move the highlight of the file finder.
pub fn fuzzy_move_selection(current: usize, len: usize, up: bool, down: bool) -> (r: usize)
    ensures
        r == moved_selection(current as int, len as int, up, down),
        len > 0 ==> r < len,
        len == 0 ==> r == 0,
{
    if len == 0 {
        return 0;
    }
    let mut sel: usize = if current < len {
        current
    } else {
        len - 1
    };
    if down {
        sel = if sel + 1 < len {
            sel + 1
        } else {
            len - 1
        };
    }
    if up && sel > 0 {
        sel = sel - 1;
    }
    sel
}

/// One line that the project search found.
pub struct FileMatch {
    /// The file.
    pub path: String,
    /// The line, counted from one.
    pub line: usize,
    /// The line's text.
    pub line_text: String,
}

/// The project search: its results so far and how it stands.
pub struct ProjectSearch {
    /// What was found.
    pub results: Vec<FileMatch>,
    /// Why it could not start.
    pub error: Option<String>,
    /// It is under way, and its worker is listened to.
    pub running: bool,
}

/// Why a search does not start, or that it does.
pub enum SearchStart {
    /// There is no folder, or the pattern is no regular expression.
    Refused,
    /// The query is empty.
    Idle,
    /// It starts: the status line.
    Started(String),
}

/// What the search worker sent.
pub enum SearchEvent {
    /// More matches.
    Batch(Vec<FileMatch>),
    /// The search is over.
    Done,
    /// Nothing yet.
    Empty,
    /// The worker is gone.
    Disconnected,
}

impl ProjectSearch {
    /// Start a search over the open folder. An earlier search is dropped with its
    /// results. `bad_regex` says why the pattern is no regular expression.
    pub fn start(
        &mut self,
        has_folder: bool,
        pattern: &str,
        regex: bool,
        bad_regex: Option<String>,
    ) -> (r: SearchStart)
        ensures
            final(self).results@.len() == 0,
            final(self).running == (r is Started),
            r is Started <==> has_folder && pattern@.len() > 0 && !(regex && bad_regex is Some),
            r is Idle <==> has_folder && pattern@.len() == 0,
            r matches SearchStart::Started(s) ==> s@ == "searching…"@,
            match final(self).error {
                Some(e) => r is Refused && e@ == (if has_folder {
                    "bad regex: "@ + bad_regex->0@
                } else {
                    "open a folder first"@
                }),
                None => r !is Refused,
            },
    {
        self.error = None;
        self.results = Vec::new();
        self.running = false;
        if !has_folder {
            self.error = Some("open a folder first".to_string());
            return SearchStart::Refused;
        }
        if pattern.is_empty() {
            return SearchStart::Idle;
        }
        if regex {
            match bad_regex {
                Some(e) => {
                    let mut s = "bad regex: ".to_string();
                    s.append(e.as_str());
                    self.error = Some(s);
                    return SearchStart::Refused;
                },
                None => {},
            }
        }
        self.running = true;
        SearchStart::Started("searching…".to_string())
    }

    /// Take one message of the worker. Gives whether to look for another.
    pub fn take_event(&mut self, ev: SearchEvent) -> (r: (bool, Option<String>))
        ensures
            final(self).error == old(self).error,
            match ev {
                SearchEvent::Batch(b) => {
                    &&& final(self).results@ == old(self).results@ + b@
                    &&& final(self).running == old(self).running
                    &&& r.0
                    &&& r.1 is None
                },
                SearchEvent::Empty => {
                    &&& final(self).results@ == old(self).results@
                    &&& final(self).running == old(self).running
                    &&& !r.0
                    &&& r.1 is None
                },
                _ => {
                    &&& final(self).results@ == old(self).results@
                    &&& !final(self).running
                    &&& !r.0
                    &&& r.1 is Some
                    &&& r.1->0@ == text::decimal(old(self).results@.len()) + " match(es)"@
                },
            },
    {
        match ev {
            SearchEvent::Batch(b) => {
                let mut more = b;
                self.results.append(&mut more);
                (true, None)
            },
            SearchEvent::Empty => (false, None),
            _ => {
                self.running = false;
                let mut s = decimal_string(self.results.len());
                s.append(" match(es)");
                (false, Some(s))
            },
        }
    }
}

/// What the results pane shows of a match: the file's name, the line's number, and its
/// text.
pub fn match_label(name: &str, line: usize, trimmed: &str) -> (s: String)
    ensures
        s@ == name@ + ":"@ + text::decimal(line as nat) + "  "@ + trimmed@,
{
    let mut s = name.to_string();
    s.append(":");
    let l = decimal_string(line);
    s.append(l.as_str());
    s.append("  ");
    s.append(trimmed);
    s
}

} // verus!
