//! Themes, backgrounds, and small rules about paths and large buffers.
use vstd::prelude::*;
use vstd::string::*;
use crate::session;
use crate::text::{chars_of, str_eq};

verus! {

/// What the operating system reports as its theme.
#[derive(Clone, Copy, Debug, PartialEq, Eq, Structural)]
pub enum OsTheme {
    /// Light.
    Light,
    /// Dark.
    Dark,
}

/// The theme to load: the user's own, or, when the system decides, the bundled light
/// one under a light system, and under a dark one the user's own if that is dark.
pub open spec fn theme_for(
    chosen: Seq<char>,
    follow_os: bool,
    os: OsTheme,
    chosen_is_dark: bool,
) -> Seq<char> {
    if follow_os && os is Light {
        "ghost-paper"@
    } else if follow_os && !chosen_is_dark {
        "wired-noir"@
    } else {
        chosen
    }
}

/// The name of the theme to load.
pub fn effective_theme_name(chosen: &str, follow_os: bool, os: OsTheme, chosen_is_dark: bool) -> (s:
    String)
    ensures
        s@ == theme_for(chosen@, follow_os, os, chosen_is_dark),
{
    if follow_os {
        match os {
            OsTheme::Light => {
                return "ghost-paper".to_string();
            },
            OsTheme::Dark => {
                return if chosen_is_dark {
                    chosen.to_string()
                } else {
                    "wired-noir".to_string()
                };
            },
        }
    }
    chosen.to_string()
}

/// A colour, without its transparency.
#[derive(Clone, Copy, Debug, PartialEq, Eq, Structural)]
pub struct Rgb {
    pub r: u8,
    pub g: u8,
    pub b: u8,
}

/// The backgrounds that replace the theme's.
#[derive(Clone, Copy, Debug, PartialEq, Eq, Structural)]
pub struct Backgrounds {
    /// Of the panels and windows; `None` follows the theme.
    pub app: Option<Rgb>,
    /// Of the notes; `None` follows the theme.
    pub note: Option<Rgb>,
}

/// The backgrounds that replace the theme's: the notes' follows the application's while
/// the two are linked.
pub fn background_overrides(app: Option<Rgb>, note: Option<Rgb>, linked: bool) -> (b: Backgrounds)
    ensures
        b.app == app,
        b.note == (if linked {
            app
        } else {
            note
        }),
{
    Backgrounds {
        app,
        note: if linked {
            app
        } else {
            note
        },
    }
}

/// The first place of a name in a list, or the first place where it is not there.
pub open spec fn place_of(names: Seq<Seq<char>>, name: Seq<char>, i: int) -> int
    decreases names.len() - i,
{
    if i >= names.len() {
        0
    } else if names[i] == name {
        i
    } else {
        place_of(names, name, i + 1)
    }
}

/// The place after `i` in a circle of `n`.
pub open spec fn after(i: int, n: int) -> int {
    if i + 1 < n {
        i + 1
    } else {
        0
    }
}

/// The theme after `current` in the list, in a circle; after one that is not in the
/// list, the second. `None` when the list is empty.
pub fn next_theme(names: &Vec<String>, current: &str) -> (r: Option<String>)
    ensures
        match r {
            Some(s) => names@.len() > 0 && s@ == session::str_views(names@)[after(
                place_of(session::str_views(names@), current@, 0),
                names@.len() as int,
            )],
            None => names@.len() == 0,
        },
{
    let n: usize = names.len();
    if n == 0 {
        return None;
    }
    let ghost v = session::str_views(names@);
    let mut i: usize = 0;
    let mut at: usize = 0;
    let mut found: bool = false;
    while i < n && !found
        invariant
            n == names@.len(),
            v == session::str_views(names@),
            n > 0,
            i <= n,
            at < n,
            found ==> place_of(v, current@, 0) == at,
            !found ==> at == 0 && place_of(v, current@, 0) == place_of(v, current@, i as int),
        decreases n - i + (if found {
            0int
        } else {
            1
        }),
    {
        assert(v[i as int] == names@[i as int]@);
        if str_eq(names[i].as_str(), current) {
            at = i;
            found = true;
        } else {
            i += 1;
        }
    }
    let next: usize = if at + 1 < n {
        at + 1
    } else {
        0
    };
    assert(v[next as int] == names@[next as int]@);
    Some(names[next].clone())
}

/// Cycling from a listed theme, as often as there are themes, visits each once: the
/// step leads from each place to the next.
pub proof fn law_theme_cycle_steps(names: Seq<Seq<char>>, k: int)
    requires
        0 <= k < names.len(),
        forall|i: int, j: int| 0 <= i < j < names.len() ==> #[trigger] names[i] != #[trigger] names[j],
    ensures
        place_of(names, names[k], 0) == k,
        0 <= after(k, names.len() as int) < names.len(),
{
    lemma_place_of(names, k, 0);
}

proof fn lemma_place_of(names: Seq<Seq<char>>, k: int, i: int)
    requires
        0 <= i <= k < names.len(),
        forall|i: int, j: int| 0 <= i < j < names.len() ==> #[trigger] names[i] != #[trigger] names[j],
    ensures
        place_of(names, names[k], i) == k,
    decreases k - i,
{
    if i < k {
        assert(names[i] != names[k]);
        lemma_place_of(names, k, i + 1);
    }
}

/// A name is found where it stands first.
pub proof fn lemma_place_of_first(names: Seq<Seq<char>>, name: Seq<char>, i: int, k: int)
    requires
        0 <= i <= k < names.len(),
        names[k] == name,
        forall|j: int| i <= j < k ==> #[trigger] names[j] != name,
    ensures
        place_of(names, name, i) == k,
    decreases k - i,
{
    if i < k {
        assert(names[i] != name);
        lemma_place_of_first(names, name, i + 1, k);
    }
}

/// A theme that is not in the list counts as the first.
pub proof fn law_unlisted_theme_counts_as_first(names: Seq<Seq<char>>, name: Seq<char>, i: int)
    requires
        0 <= i <= names.len(),
        !names.contains(name),
    ensures
        place_of(names, name, i) == 0,
    decreases names.len() - i,
{
    if i < names.len() {
        assert(names[i] != name);
        law_unlisted_theme_counts_as_first(names, name, i + 1);
    }
}

/// Going on in a circle leads to the next place, and from the last to the first.
pub proof fn law_circle_goes_on(i: int, n: int)
    requires
        0 <= i < n,
    ensures
        i < n - 1 ==> after(i, n) == i + 1,
        after(n - 1, n) == 0,
{
}

/// The chosen theme is loaded unless the system decides: a light system has the light house
/// theme whatever was chosen, a dark one keeps a dark choice and replaces a light one by the
/// dark house theme.
pub proof fn law_theme_follows_the_system(chosen: Seq<char>, os: OsTheme, dark: bool)
    ensures
        theme_for(chosen, false, os, dark) == chosen,
        theme_for(chosen, true, OsTheme::Light, dark) == "ghost-paper"@,
        theme_for(chosen, true, OsTheme::Dark, true) == chosen,
        theme_for(chosen, true, OsTheme::Dark, false) == "wired-noir"@,
{
}

/// A path with `/` for every `\`.
pub open spec fn slashed(s: Seq<char>) -> Seq<char> {
    Seq::new(
        s.len(),
        |i: int|
            if s[i] == '\\' {
                '/'
            } else {
                s[i]
            },
    )
}

/// The `file://` URI of a path.
pub open spec fn uri_of(s: Seq<char>) -> Seq<char> {
    let p = slashed(s);
    if p.len() > 0 && p[0] == '/' {
        "file://"@ + p
    } else {
        "file:///"@ + p
    }
}

/// Convert a path, as it is displayed, to a `file://` URI.
pub fn path_to_uri(p: &str) -> (s: String)
    ensures
        s@ == uri_of(p@),
{
    let chars = chars_of(p);
    let mut path = String::new();
    let mut i: usize = 0;
    while i < chars.len()
        invariant
            chars@ == p@,
            i <= chars@.len(),
            path@ == slashed(p@).take(i as int),
        decreases chars@.len() - i,
    {
        let c = chars[i];
        assert(slashed(p@).take(i + 1) =~= slashed(p@).take(i as int).push(slashed(p@)[i as int]));
        if c == '\\' {
            path.push('/');
        } else {
            path.push(c);
        }
        i += 1;
    }
    assert(slashed(p@).take(i as int) =~= slashed(p@));
    let rooted: bool = chars.len() > 0 && (chars[0] == '/' || chars[0] == '\\');
    let mut s = if rooted {
        "file://".to_string()
    } else {
        "file:///".to_string()
    };
    s.append(path.as_str());
    s
}

/// The URI of a path ends in the path, with slashes for backslashes and nothing else changed;
/// before it stand the scheme and, where the path does not begin with one, a slash more.
pub proof fn law_uri_holds_the_path(s: Seq<char>)
    ensures
        ({
            let u = uri_of(s);
            let n = if s.len() > 0 && (s[0] == '/' || s[0] == '\\') {
                7int
            } else {
                8int
            };
            &&& u.len() == n + s.len()
            &&& u.take(7) == seq!['f', 'i', 'l', 'e', ':', '/', '/']
            &&& u.len() > 7 ==> u[7] == '/'
            &&& forall|i: int|
                0 <= i < s.len() ==> u[n + i] == (if #[trigger] s[i] == '\\' {
                    '/'
                } else {
                    s[i]
                })
        }),
{
    reveal_strlit("file://");
    reveal_strlit("file:///");
    let u = uri_of(s);
    assert(slashed(s).len() == s.len());
    assert(u.take(7) =~= seq!['f', 'i', 'l', 'e', ':', '/', '/']);
    if s.len() > 0 && (s[0] == '/' || s[0] == '\\') {
        assert(slashed(s)[0] == '/');
        assert(u[7] == slashed(s)[0]);
        assert forall|i: int| 0 <= i < s.len() implies u[7 + i] == (if #[trigger] s[i] == '\\' {
            '/'
        } else {
            s[i]
        }) by {
            assert(u[7 + i] == slashed(s)[i]);
        }
    } else {
        assert forall|i: int| 0 <= i < s.len() implies u[8 + i] == (if #[trigger] s[i] == '\\' {
            '/'
        } else {
            s[i]
        }) by {
            assert(u[8 + i] == slashed(s)[i]);
        }
    }
}

/// Whether the rope editor is wanted: the user opted in, or the text has grown to the
/// threshold, unless that is zero.
pub open spec fn rope_wanted(experimental: bool, bytes: usize, threshold: usize) -> bool {
    experimental || (threshold > 0 && bytes >= threshold)
}

/// The rope editor comes with the length: once it is wanted, more text wants it too; a text
/// below the threshold does not, unless the user opted in. A threshold of zero never wants it.
pub proof fn law_rope_comes_with_length(bytes: usize, more: usize, threshold: usize)
    requires
        bytes <= more,
    ensures
        rope_wanted(true, bytes, threshold),
        rope_wanted(false, bytes, threshold) ==> rope_wanted(false, more, threshold),
        threshold > 0 ==> rope_wanted(false, threshold, threshold),
        bytes < threshold ==> !rope_wanted(false, bytes, threshold),
        !rope_wanted(false, bytes, 0),
{
}

/// Whether the buffer is edited in the rope editor: when the user opted in, or when it
/// has grown to the threshold, unless that is zero.
pub fn use_rope_editor(experimental: bool, text_len: usize, auto_threshold_bytes: usize) -> (b: bool)
    ensures
        b == rope_wanted(experimental, text_len, auto_threshold_bytes),
{
    experimental || (auto_threshold_bytes > 0 && text_len >= auto_threshold_bytes)
}

} // verus!
