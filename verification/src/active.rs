//! The commands on the tab in front: what each leaves of its text, and what the editor says.
use vstd::prelude::*;
use vstd::string::*;
use crate::app::{AppModel, ScribeApp};
use crate::comment;
use crate::comment::{toggle_comment, CommentToggle};
use crate::disk;
use crate::disk::{
    answer_keep, answer_reload, apply_save_hooks, finish_open, finish_save, focus_if_open,
    prepare_save, OpenReport, SaveReport, SaveStep,
};
use crate::edit;
use crate::edit::{Replacement, Span};
use crate::find;
use crate::lines;
use crate::lines::Caret;
use crate::restore;
use crate::tab;
use crate::tab::{Opened, Stamp};
use crate::tabs;
use crate::tabs::{pinned_status_line, CloseOutcome, ClosedTab};
use crate::tabstrip;
use crate::tabstrip::StripClicks;
use crate::text;

verus! {

impl AppModel {
    /// With the text of the tab in front replaced in place.
    pub open spec fn front_edited(self, text: Seq<char>) -> AppModel {
        self.with_front(self.front().edited(text))
    }

    /// With the text of the tab in front replaced from outside the editor.
    pub open spec fn front_set(self, text: Seq<char>) -> AppModel {
        self.with_front(self.front().with_text(text))
    }

    /// After the line comments of the lines from `first` to `last` of the tab in front were
    /// turned over.
    pub open spec fn comments_toggled(self, prefix: Seq<char>, first: int, last: int) -> AppModel {
        let s = self.front().text;
        if prefix.len() == 0 {
            self.noted("no comment prefix for this language"@)
        } else if !comment::any_text(lines::text_lines(s), first, last) {
            self
        } else {
            self.front_edited(comment::toggled(s, prefix, first, last))
        }
    }

    /// After the matches of the find bar were replaced.
    pub open spec fn matches_replaced(
        self,
        pat: Seq<char>,
        rep: Seq<char>,
        matches: Seq<Span>,
        all: bool,
    ) -> AppModel {
        if pat.len() == 0 {
            self
        } else {
            let m = if matches.len() == 0 {
                self
            } else {
                self.front_set(
                    edit::replaced(self.front().text, edit::chosen_spans(matches, all), rep),
                )
            };
            m.said(edit::replace_status(pat, rep, matches.len(), all))
        }
    }

    /// After a save: what is said of it.
    pub open spec fn save_reported(
        self,
        name: Seq<char>,
        encoding: Seq<char>,
        written: Result<bool, ()>,
    ) -> AppModel {
        match written {
            Ok(lossy) => {
                let m = self.said("saved "@ + name);
                if lossy {
                    m.noted(disk::lossy_toast(encoding))
                } else {
                    m
                }
            },
            Err(_) => self.noted(disk::failed_toast()),
        }
    }
}

/// An edit of the tab in front gives it the new text and leaves every other tab as it was.
pub proof fn law_edit_changes_the_front_alone(m: AppModel, s: Seq<char>, i: int)
    requires
        m.wf(),
        0 <= i < m.open.tabs.len(),
    ensures
        m.front_edited(s).front().text == s,
        m.front_set(s).front().text == s,
        m.front_edited(s).front().doc == m.front().doc,
        m.front_set(s).front().doc == m.front().doc,
        i != m.open.active ==> m.front_edited(s).open.tabs[i] == m.open.tabs[i]
            && m.front_set(s).open.tabs[i] == m.open.tabs[i],
        m.front_edited(s).open.active == m.open.active,
        m.front_set(s).open.active == m.open.active,
        m.front_edited(s).status == m.status,
        m.front_set(s).status == m.status,
{
}

/// Toggling comments changes the text only for a language that has a comment and where a
/// touched line holds something; without a comment a notice says so.
pub proof fn law_toggling_comments_needs_a_comment(
    m: AppModel,
    prefix: Seq<char>,
    first: int,
    last: int,
)
    requires
        m.wf(),
    ensures
        ({
            let a = m.comments_toggled(prefix, first, last);
            let v = lines::text_lines(m.front().text);
            let any = exists|i: int|
                0 <= i < v.len() && first <= i <= last && !lines::blank(#[trigger] v[i]);
            &&& prefix.len() == 0 ==> a.open == m.open && a.toast is Some
            &&& prefix.len() > 0 && !any ==> a == m
            &&& prefix.len() > 0 && any ==> a.front().text == comment::toggled(
                m.front().text,
                prefix,
                first,
                last,
            ) && a.toast == m.toast
        }),
{
}

/// A replace without a pattern does nothing; one without a match says so and leaves the text;
/// "replace" takes the first match, "replace all" every one.
pub proof fn law_replace_takes_first_or_all(
    m: AppModel,
    pat: Seq<char>,
    rep: Seq<char>,
    matches: Seq<Span>,
    all: bool,
)
    requires
        m.wf(),
    ensures
        ({
            let a = m.matches_replaced(pat, rep, matches, all);
            &&& pat.len() == 0 ==> a == m
            &&& matches.len() == 0 ==> a.open == m.open
            &&& pat.len() > 0 && matches.len() > 0 && all ==> a.front().text == edit::replaced(
                m.front().text,
                matches,
                rep,
            )
            &&& pat.len() > 0 && matches.len() > 0 && !all ==> a.front().text == edit::replaced(
                m.front().text,
                seq![matches[0]],
                rep,
            )
        }),
{
    if matches.len() > 0 {
        assert(matches.take(1) =~= seq![matches[0]]);
    }
}

/// A save that went through is said on the status line, with a notice only where characters
/// were lost; one that failed is said by a notice, and the status line stays.
pub proof fn law_save_is_reported(m: AppModel, name: Seq<char>, encoding: Seq<char>)
    ensures
        ({
            let ok = m.save_reported(name, encoding, Ok(false));
            let lossy = m.save_reported(name, encoding, Ok(true));
            let failed = m.save_reported(name, encoding, Err(()));
            &&& ok.status == lossy.status
            &&& ok.status.skip(6) == name
            &&& ok.toast == m.toast
            &&& lossy.toast is Some
            &&& find::contains(lossy.toast->0, encoding)
            &&& failed.toast is Some
            &&& failed.status == m.status
            &&& ok.open == m.open && lossy.open == m.open && failed.open == m.open
        }),
{
    reveal_strlit("saved ");
    assert(("saved "@ + name).skip(6) =~= name);
    let a = "Saved, but some characters can't be written as "@;
    let b = " — they were replaced. Convert the file to UTF-8 to keep them."@;
    find::law_contains_anywhere(disk::lossy_toast(encoding), encoding);
    assert(disk::lossy_toast(encoding) == a + encoding + b);
}

/// The same text leaves the same state.
proof fn lemma_front_set(m: AppModel, a: Seq<char>, b: Seq<char>)
    requires
        a == b,
    ensures
        m.front_set(a) == m.front_set(b),
{
}

impl ScribeApp {
    /// Replace the text of the tab in front in place.
    pub fn edit_front(&mut self, new: String)
        requires
            old(self).wf(),
        ensures
            final(self).wf(),
            final(self)@ == old(self)@.front_edited(new@),
    {
        let ghost before = self@;
        let active: usize = self.open.active;
        self.open.tabs[active].edit(new);
        assert(self@.open.tabs =~= before.front_edited(new@).open.tabs);
    }

    /// Replace the text of the tab in front from outside the editor.
    pub fn set_front(&mut self, new: String)
        requires
            old(self).wf(),
        ensures
            final(self).wf(),
            final(self)@ == old(self)@.front_set(new@),
    {
        let ghost before = self@;
        let active: usize = self.open.active;
        self.open.tabs[active].set_text(new);
        assert(self@.open.tabs =~= before.front_set(new@).open.tabs);
    }

    /// Turn the line comments over on the lines of the tab in front that the selection
    /// touches, or on the caret's line. `prefix` is its language's, empty where there is
    /// none.
    pub fn toggle_comment_active(&mut self, prefix: &str, primary: usize, secondary: usize)
        requires
            old(self).wf(),
        ensures
            final(self).wf(),
            final(self)@ == old(self)@.comments_toggled(
                prefix@,
                comment::first_touched(
                    old(self)@.front().text,
                    primary as int,
                    secondary as int,
                ),
                comment::last_touched(old(self)@.front().text, primary as int, secondary as int),
            ),
    {
        let done = toggle_comment(
            self.open.tabs[self.open.active].text.as_str(),
            prefix,
            primary,
            secondary,
        );
        match done {
            CommentToggle::NoPrefix => {
                self.toast = Some("no comment prefix for this language".to_string());
            },
            CommentToggle::Nothing => {},
            CommentToggle::Changed(new) => {
                self.edit_front(new);
            },
        }
    }

    /// Exchange the caret's line with the one `dir` rows away, and keep the caret on it.
    pub fn move_cursor_line(&mut self, caret: &mut Caret, dir: i32)
        requires
            old(self).wf(),
        ensures
            final(self).wf(),
            ({
                let s = old(self)@.front().text;
                let line0 = lines::caret_line0(*old(caret));
                if lines::can_move(s, line0, dir as int) {
                    &&& final(self)@ == old(self)@.front_edited(
                        lines::line_moved(s, line0, dir as int),
                    )
                    &&& *final(caret) matches Some((l, c)) && l == line0 + dir + 1 && c
                        == lines::caret_column(*old(caret))
                } else {
                    final(self)@ == old(self)@ && *final(caret) == *old(caret)
                }
            }),
    {
        let moved = lines::move_cursor_line(
            self.open.tabs[self.open.active].text.as_str(),
            *caret,
            dir,
        );
        match moved {
            Some((new, place)) => {
                *caret = Some(place);
                self.edit_front(new);
            },
            None => {},
        }
    }

    /// Put a copy of the caret's line below it.
    pub fn duplicate_cursor_line(&mut self, caret: Caret)
        requires
            old(self).wf(),
        ensures
            final(self).wf(),
            ({
                let s = old(self)@.front().text;
                let line0 = lines::caret_line0(caret);
                final(self)@ == (if line0 < lines::body_lines(s).len() {
                    old(self)@.front_edited(lines::line_duplicated(s, line0))
                } else {
                    old(self)@
                })
            }),
    {
        let copied = lines::duplicate_cursor_line(
            self.open.tabs[self.open.active].text.as_str(),
            caret,
        );
        match copied {
            Some(new) => {
                self.edit_front(new);
            },
            None => {},
        }
    }

    /// Join the caret's line with the next.
    pub fn join_cursor_line_with_next(&mut self, caret: Caret)
        requires
            old(self).wf(),
        ensures
            final(self).wf(),
            ({
                let s = old(self)@.front().text;
                let line0 = lines::caret_line0(caret);
                final(self)@ == (if line0 + 1 < lines::body_lines(s).len() {
                    old(self)@.front_edited(lines::lines_joined(s, line0))
                } else {
                    old(self)@
                })
            }),
    {
        let joined = lines::join_cursor_line_with_next(
            self.open.tabs[self.open.active].text.as_str(),
            caret,
        );
        match joined {
            Some(new) => {
                self.edit_front(new);
            },
            None => {},
        }
    }

    /// Replace the find bar's matches of `pat` in the tab in front by `rep`, literally:
    /// every match, or only the first. Nothing is done while the find field is empty.
    pub fn replace_in_active(&mut self, pat: &str, rep: &str, matches: &Vec<Span>, all: bool)
        requires
            old(self).wf(),
            edit::spans_in(old(self)@.front().text, matches@),
        ensures
            final(self).wf(),
            final(self)@ == old(self)@.matches_replaced(pat@, rep@, matches@, all),
    {
        let ghost before = self@;
        let done = self.replacement(pat, rep, matches, all);
        let ghost left = done;
        proof {
            if let Some(r) = left {
                if let Some(t) = r.text {
                    let new = edit::replaced(
                        before.front().text,
                        edit::chosen_spans(matches@, all),
                        rep@,
                    );
                    lemma_front_set(before, t@, new);
                }
            }
        }
        self.take_replacement(done);
    }

    /// What a replace in the tab in front leaves.
    fn replacement(&self, pat: &str, rep: &str, matches: &Vec<Span>, all: bool) -> (r: Option<
        Replacement,
    >)
        requires
            self.wf(),
            edit::spans_in(self@.front().text, matches@),
        ensures
            r is None <==> pat@.len() == 0,
            r matches Some(out) ==> {
                &&& out.text is None <==> matches@.len() == 0
                &&& out.text matches Some(t) ==> t@ == edit::replaced(
                    self@.front().text,
                    edit::chosen_spans(matches@, all),
                    rep@,
                )
                &&& out.status@ == edit::replace_status(pat@, rep@, matches@.len(), all)
            },
    {
        edit::replace_in_active(
            self.open.tabs[self.open.active].text.as_str(),
            pat,
            rep,
            matches,
            all,
        )
    }

    /// Take what a replace left: the new text, where there is one, and what is said of it.
    fn take_replacement(&mut self, done: Option<Replacement>)
        requires
            old(self).wf(),
        ensures
            final(self).wf(),
            final(self)@ == (match done {
                Some(r) => (match r.text {
                    Some(new) => old(self)@.front_set(new@),
                    None => old(self)@,
                }).said(r.status@),
                None => old(self)@,
            }),
    {
        match done {
            Some(Replacement { text: Some(new), status }) => {
                self.set_front(new);
                self.say(status);
            },
            Some(Replacement { text: None, status }) => {
                self.say(status);
            },
            None => {},
        }
    }

    /// Go to the next or the previous match in the tab in front, in a circle. `idx` is the
    /// match in focus. Gives the line to scroll to, counted from zero; without matches
    /// nothing changes.
    pub fn find_navigate(&mut self, matches: &Vec<Span>, idx: &mut usize, forward: bool) -> (line0:
        Option<usize>)
        requires
            old(self).wf(),
            old(self)@.front().text.len() < usize::MAX,
        ensures
            final(self).wf(),
            ({
                let n = matches@.len();
                let i = find::next_match(*old(idx) as int, n as int, forward);
                let s = old(self)@.front().text;
                if n == 0 {
                    &&& line0 is None
                    &&& *final(idx) == *old(idx)
                    &&& final(self)@ == old(self)@
                } else {
                    &&& *final(idx) == i
                    &&& line0 matches Some(l) && l == text::line_col(
                        s,
                        text::char_index(s, matches@[i].start as int),
                    ).0 - 1
                    &&& final(self)@ == old(self)@.said(
                        "match "@ + text::decimal((i + 1) as nat) + " of "@ + text::decimal(n),
                    )
                }
            }),
    {
        let step = find::find_navigate(
            self.open.tabs[self.open.active].text.as_str(),
            matches,
            *idx,
            forward,
        );
        match step {
            Some(s) => {
                *idx = s.index;
                self.status = s.status;
                Some(s.line0)
            },
            None => None,
        }
    }

    /// Tab with "insert spaces" on, in the tab in front. Gives where the caret goes.
    pub fn indent_with_spaces(&mut self, primary: usize, secondary: usize, width: usize) -> (caret:
        usize)
        requires
            old(self).wf(),
            edit::lower(primary as int, secondary as int) + width <= usize::MAX,
        ensures
            final(self).wf(),
            final(self)@ == old(self)@.front_set(
                edit::put(
                    old(self)@.front().text,
                    edit::lower(primary as int, secondary as int),
                    edit::upper(primary as int, secondary as int),
                    edit::blanks(width as nat),
                ),
            ),
            caret == edit::lower(primary as int, secondary as int) + width,
    {
        let (new, caret) = edit::indent_with_spaces(
            self.open.tabs[self.open.active].text.as_str(),
            primary,
            secondary,
            width,
        );
        self.set_front(new);
        caret
    }

    /// Enter in the tab in front: the new line keeps the indentation. `None` leaves the key
    /// to the text widget. Gives where the caret goes.
    pub fn auto_indent_newline(&mut self, primary: usize, secondary: usize) -> (caret: Option<
        usize,
    >)
        requires
            old(self).wf(),
            primary + old(self)@.front().text.len() < usize::MAX,
        ensures
            final(self).wf(),
            ({
                let s = old(self)@.front().text;
                let indent = edit::line_indent(s, primary as int);
                if primary == secondary && indent.len() > 0 {
                    &&& final(self)@ == old(self)@.front_set(
                        edit::put(s, primary as int, primary as int, seq!['\n'] + indent),
                    )
                    &&& caret matches Some(c) && c == primary + 1 + indent.len()
                } else {
                    caret is None && final(self)@ == old(self)@
                }
            }),
    {
        let done = edit::auto_indent_newline(
            self.open.tabs[self.open.active].text.as_str(),
            primary,
            secondary,
        );
        match done {
            Some((new, caret)) => {
                self.set_front(new);
                Some(caret)
            },
            None => None,
        }
    }

    /// Put a time stamp in place of the selection of the tab in front, and say so. Gives
    /// where the caret goes.
    pub fn insert_datetime_at_caret(&mut self, primary: usize, secondary: usize, stamp: &str) -> (
    caret: usize)
        requires
            old(self).wf(),
            edit::lower(primary as int, secondary as int) + stamp@.len() <= usize::MAX,
        ensures
            final(self).wf(),
            final(self)@ == old(self)@.front_set(
                edit::put(
                    old(self)@.front().text,
                    edit::lower(primary as int, secondary as int),
                    edit::upper(primary as int, secondary as int),
                    stamp@,
                ),
            ).said("inserted "@ + stamp@),
            caret == edit::lower(primary as int, secondary as int) + stamp@.len(),
    {
        let (new, caret) = edit::insert_at_caret(
            self.open.tabs[self.open.active].text.as_str(),
            primary,
            secondary,
            stamp,
        );
        self.set_front(new);
        let mut s = "inserted ".to_string();
        s.append(stamp);
        self.status = s;
        caret
    }

    /// Duplicate the selection of the tab in front or, with a bare caret, its line. Gives
    /// where the caret goes: on the copy.
    pub fn duplicate_selection(&mut self, primary: usize, secondary: usize) -> (caret: usize)
        requires
            old(self).wf(),
            primary == secondary ==> primary + old(self)@.front().text.len() < usize::MAX,
            primary != secondary ==> 2 * edit::upper(primary as int, secondary as int)
                - edit::lower(primary as int, secondary as int) <= usize::MAX,
        ensures
            final(self).wf(),
            final(self)@ == old(self)@.front_set(
                edit::duplicated(old(self)@.front().text, primary as int, secondary as int),
            ),
            ({
                let s = old(self)@.front().text;
                let c = text::clamp(primary as int, s.len() as int);
                caret == (if primary != secondary {
                    2 * edit::upper(primary as int, secondary as int) - edit::lower(
                        primary as int,
                        secondary as int,
                    )
                } else {
                    primary + (edit::line_end(s, c) - edit::line_start(s, c)) + 1
                })
            }),
    {
        let (new, caret) = edit::duplicate_selection(
            self.open.tabs[self.open.active].text.as_str(),
            primary,
            secondary,
        );
        self.set_front(new);
        caret
    }

    /// Take the tab that was closed last off the reopen stack, or say that there is none.
    pub fn take_closed_tab(&mut self) -> (r: Option<ClosedTab>)
        requires
            old(self).wf(),
        ensures
            final(self).wf(),
            match r {
                Some(c) => {
                    &&& old(self)@.open.closed.len() > 0
                    &&& c@ == old(self)@.open.closed.last()
                    &&& final(self)@ == (AppModel {
                        open: tabs::TabsModel {
                            closed: old(self)@.open.closed.drop_last(),
                            ..old(self)@.open
                        },
                        ..old(self)@
                    })
                },
                None => old(self)@.open.closed.len() == 0 && final(self)@ == old(self)@.said(
                    "no closed tab to reopen"@,
                ),
            },
    {
        let r = self.open.pop_closed();
        if r.is_none() {
            self.status = "no closed tab to reopen".to_string();
        }
        r
    }

    /// Open a closed tab again, at the end and in front, and say so. `opened` is its file
    /// as it is on disk now.
    pub fn reopen_closed_tab(&mut self, closed: ClosedTab, opened: Option<Opened>, rope: bool)
        requires
            old(self).wf(),
        ensures
            final(self).wf(),
            final(self)@ == (AppModel {
                open: old(self)@.open.with_tab(tabs::reopened_tab(closed@, opened, rope)),
                ..old(self)@
            }).said("reopened closed tab"@),
    {
        self.open.reopen_closed_tab(closed, opened, rope);
        self.status = "reopened closed tab".to_string();
    }

    /// Bring the tab of a file that is open already to the front, and say so. `keys` holds
    /// the identity of each tab's file. Gives whether the file is open.
    pub fn focus_path(&mut self, path: &str, key: &String, keys: &Vec<Option<String>>) -> (found:
        bool)
        requires
            old(self).wf(),
            keys@.len() == old(self)@.open.tabs.len(),
        ensures
            final(self).wf(),
            ({
                let at = restore::tab_with_key(restore::key_views(keys@), key@, 0);
                &&& found == (at is Some)
                &&& final(self)@ == (match at {
                    Some(i) => AppModel {
                        open: old(self)@.open.focused(i),
                        ..old(self)@
                    }.said("already open: "@ + path@),
                    None => old(self)@,
                })
            }),
    {
        match focus_if_open(&mut self.open, path, key, keys) {
            Some(status) => {
                self.status = status;
                true
            },
            None => false,
        }
    }

    /// Show a file that was read in a new tab in front, or say why it could not be read.
    /// Gives whether it is open.
    pub fn open_path(
        &mut self,
        path: &str,
        loaded: Result<Opened, String>,
        cursor: Option<usize>,
    ) -> (opened: bool)
        requires
            old(self).wf(),
        ensures
            final(self).wf(),
            opened == (loaded is Ok),
            final(self)@ == (match loaded {
                Ok(o) => AppModel {
                    open: old(self)@.open.with_tab(disk::opened_tab(o, cursor)),
                    ..old(self)@
                }.said("opened "@ + path@),
                Err(e) => old(self)@.noted("open failed: "@ + e@),
            }),
    {
        match finish_open(&mut self.open, path, loaded, cursor) {
            OpenReport::Opened(status) => {
                self.status = status;
                true
            },
            OpenReport::Failed(notice) => {
                self.toast = Some(notice);
                false
            },
        }
    }

    /// Take what the plugins' save hooks made of the text of the tab in front, and what they
    /// had to say.
    pub fn fire_save_hooks(&mut self, hooked: Option<(String, Option<String>)>)
        requires
            old(self).wf(),
        ensures
            final(self).wf(),
            final(self)@ == (match hooked {
                Some((new, message)) => {
                    let m = if new@ == old(self)@.front().text {
                        old(self)@
                    } else {
                        old(self)@.front_set(new@)
                    };
                    match message {
                        Some(s) => m.said(s@),
                        None => m,
                    }
                },
                None => old(self)@,
            }),
    {
        let ghost before = self@;
        let active: usize = self.open.active;
        let ghost made = hooked;
        let said = apply_save_hooks(&mut self.open.tabs[active], hooked);
        proof {
            match made {
                Some((new, _)) => {
                    if new@ == before.front().text {
                        assert(self@.open.tabs =~= before.open.tabs);
                    } else {
                        assert(self@.open.tabs =~= before.front_set(new@).open.tabs);
                    }
                },
                None => {
                    assert(self@.open.tabs =~= before.open.tabs);
                },
            }
        }
        match said {
            Some(s) => {
                self.status = s;
            },
            None => {},
        }
    }

    fn report_save(&mut self, r: SaveReport, Ghost(says): Ghost<(Seq<char>, Seq<char>, Result<
        bool,
        (),
    >)>)
        requires
            disk::report_says(r, says.0, says.1, says.2),
        ensures
            final(self)@ == old(self)@.save_reported(says.0, says.1, says.2),
            final(self).open == old(self).open,
    {
        match r.status {
            Some(s) => {
                self.status = s;
            },
            None => {},
        }
        match r.toast {
            Some(s) => {
                self.toast = Some(s);
            },
            None => {},
        }
    }

    /// Take the tidied text into the tab in front, and say where to write it.
    pub fn save_active(&mut self, cleaned: String) -> (step: SaveStep)
        requires
            old(self).wf(),
        ensures
            final(self).wf(),
            final(self)@ == old(self)@.with_front(disk::prepared(old(self)@.front(), cleaned@)),
            step == (if old(self)@.front().doc.path is None {
                SaveStep::AskPath
            } else {
                SaveStep::Write
            }),
    {
        let ghost before = self@;
        let active: usize = self.open.active;
        let step = prepare_save(&mut self.open.tabs[active], cleaned);
        assert(self@.open.tabs =~= before.with_front(
            disk::prepared(before.front(), cleaned@),
        ).open.tabs);
        step
    }

    /// Record that the file of the tab in front was written, or was not, and say so.
    pub fn saved_active(&mut self, written: Result<bool, ()>, mtime: Option<Stamp>)
        requires
            old(self).wf(),
        ensures
            final(self).wf(),
            final(self)@ == old(self)@.with_front(
                disk::after_save(old(self)@.front(), written, mtime),
            ).save_reported(
                old(self)@.front().doc.name,
                old(self)@.front().doc.encoding,
                written,
            ),
    {
        let ghost before = self@;
        let ghost t = self@.front();
        let active: usize = self.open.active;
        let r = finish_save(&mut self.open.tabs[active], written, mtime);
        assert(self@.open.tabs =~= before.with_front(
            disk::after_save(t, written, mtime),
        ).open.tabs);
        self.report_save(r, Ghost((t.doc.name, t.doc.encoding, written)));
    }

    /// Record that the tab in front was written to `path`, under the name `name`, or was
    /// not, and say so.
    pub fn save_as_active(&mut self, path: String, name: String, written: Result<bool, ()>)
        requires
            old(self).wf(),
        ensures
            final(self).wf(),
            final(self)@ == old(self)@.with_front(
                disk::after_save_as(old(self)@.front(), path@, name@, written),
            ).save_reported(path@, old(self)@.front().doc.encoding, written),
    {
        let ghost before = self@;
        let ghost t = self@.front();
        let ghost p = path@;
        let ghost n = name@;
        let active: usize = self.open.active;
        let r = disk::save_as_active(&mut self.open.tabs[active], path, name, written);
        assert(self@.open.tabs =~= before.with_front(
            disk::after_save_as(t, p, n, written),
        ).open.tabs);
        self.report_save(r, Ghost((p, t.doc.encoding, written)));
    }

    /// Answer the "changed on disk" banner of the tab in front with "Reload".
    pub fn reload_active(&mut self, fresh: Option<String>, mtime: Option<Stamp>)
        requires
            old(self).wf(),
        ensures
            final(self).wf(),
            ({
                let t = old(self)@.front();
                let m = old(self)@.with_front(
                    disk::answered_reload(t, tab::opt_view(fresh), mtime),
                );
                final(self)@ == (match (t.doc.path, fresh) {
                    (Some(p), Some(_)) => m.said("reloaded "@ + p + " from disk"@),
                    _ => m,
                })
            }),
    {
        let ghost before = self@;
        let ghost t = self@.front();
        let active: usize = self.open.active;
        let said = answer_reload(&mut self.open.tabs[active], fresh, mtime);
        assert(self@.open.tabs =~= before.with_front(
            disk::answered_reload(t, tab::opt_view(fresh), mtime),
        ).open.tabs);
        match said {
            Some(s) => {
                self.status = s;
            },
            None => {},
        }
    }

    /// Answer the "changed on disk" banner of the tab in front with "Keep my version".
    pub fn keep_active(&mut self, mtime: Option<Stamp>)
        requires
            old(self).wf(),
        ensures
            final(self).wf(),
            final(self)@ == old(self)@.with_front(
                disk::answered_keep(old(self)@.front(), mtime),
            ),
    {
        let ghost before = self@;
        let active: usize = self.open.active;
        answer_keep(&mut self.open.tabs[active], mtime);
        assert(self@.open.tabs =~= before.with_front(
            disk::answered_keep(before.front(), mtime),
        ).open.tabs);
    }

    /// Do what was clicked on the tab strip; the status line says when a pinned tab stayed.
    /// Gives the file and the caret of a tab that was closed, where it had a file.
    pub fn click_tab_strip(&mut self, c: &StripClicks) -> (closed: Option<(String, usize)>)
        requires
            old(self).wf(),
            c.switch_to matches Some(i) ==> i < old(self)@.open.tabs.len(),
        ensures
            final(self).wf(),
            ({
                let m = AppModel {
                    open: tabstrip::after_clicks(old(self)@.open, *c),
                    ..old(self)@
                };
                let m1 = match c.switch_to {
                    Some(i) => old(self)@.open.focused(i as int),
                    None => old(self)@.open,
                };
                match c.close {
                    Some(i) => if i >= m1.tabs.len() {
                        closed is None && final(self)@ == m
                    } else if m1.tabs[i as int].pinned {
                        closed is None && final(self)@ == m.said(tabs::pinned_status())
                    } else {
                        let entry = tabs::TabsModel::closed_entry(m1.tabs[i as int]);
                        &&& final(self)@ == m
                        &&& match closed {
                            Some((p, cur)) => entry.path == Some(p@) && entry.cursor == cur,
                            None => entry.path is None,
                        }
                    },
                    None => closed is None && final(self)@ == m,
                }
            }),
    {
        let outcome = tabstrip::apply_clicks(&mut self.open, c);
        match outcome {
            Some(CloseOutcome::Closed(place)) => place,
            Some(CloseOutcome::Pinned) => {
                self.status = pinned_status_line();
                None
            },
            Some(CloseOutcome::Absent) => None,
            None => None,
        }
    }
}

} // verus!
