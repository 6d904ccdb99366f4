//! The font families: which faces there are and in which order they are tried.
use vstd::prelude::*;
use vstd::string::*;
use crate::session;
use crate::text::str_eq;

verus! {

/// How many font families are bundled.
pub const FONT_FAMILY_COUNT: usize = 21;

/// The bundled families: each one's display name, as the settings show and keep it.
pub open spec fn family_name(i: int) -> Seq<char> {
    if i == 0 {
        "JetBrains Mono"@
    } else if i == 1 {
        "IBM Plex Mono"@
    } else if i == 2 {
        "Fira Mono"@
    } else if i == 3 {
        "Space Mono"@
    } else if i == 4 {
        "Cousine"@
    } else if i == 5 {
        "Source Code Pro"@
    } else if i == 6 {
        "B612 Mono"@
    } else if i == 7 {
        "Share Tech Mono"@
    } else if i == 8 {
        "VT323"@
    } else if i == 9 {
        "Doto"@
    } else if i == 10 {
        "Major Mono Display"@
    } else if i == 11 {
        "Chakra Petch"@
    } else if i == 12 {
        "Wallpoet"@
    } else if i == 13 {
        "Michroma"@
    } else if i == 14 {
        "Red Hat Mono"@
    } else if i == 15 {
        "Teko"@
    } else if i == 16 {
        "Rajdhani"@
    } else if i == 17 {
        "Saira"@
    } else if i == 18 {
        "Zen Dots"@
    } else if i == 19 {
        "Syncopate"@
    } else {
        "Spline Sans Mono"@
    }
}

/// The bundled families: the key that each one's face is registered under.
pub open spec fn family_key(i: int) -> Seq<char> {
    if i == 0 {
        "JetBrainsMono"@
    } else if i == 1 {
        "IBMPlexMono"@
    } else if i == 2 {
        "FiraMono"@
    } else if i == 3 {
        "SpaceMono"@
    } else if i == 4 {
        "Cousine"@
    } else if i == 5 {
        "SourceCodePro"@
    } else if i == 6 {
        "B612Mono"@
    } else if i == 7 {
        "ShareTechMono"@
    } else if i == 8 {
        "VT323"@
    } else if i == 9 {
        "Doto"@
    } else if i == 10 {
        "MajorMonoDisplay"@
    } else if i == 11 {
        "ChakraPetch"@
    } else if i == 12 {
        "Wallpoet"@
    } else if i == 13 {
        "Michroma"@
    } else if i == 14 {
        "RedHatMono"@
    } else if i == 15 {
        "Teko"@
    } else if i == 16 {
        "Rajdhani"@
    } else if i == 17 {
        "Saira"@
    } else if i == 18 {
        "ZenDots"@
    } else if i == 19 {
        "Syncopate"@
    } else {
        "SplineSansMono"@
    }
}

/// The place of a display name among the bundled families, from the `i`th on.
pub open spec fn family_index_from(display: Seq<char>, i: int) -> Option<int>
    decreases FONT_FAMILY_COUNT - i,
{
    if i >= FONT_FAMILY_COUNT {
        None
    } else if family_name(i) == display {
        Some(i)
    } else {
        family_index_from(display, i + 1)
    }
}

/// The place of a display name among the bundled families.
pub open spec fn family_index(display: Seq<char>) -> Option<int> {
    family_index_from(display, 0)
}

/// The key of a display name; of JetBrains Mono for a name that is not bundled.
pub open spec fn key_or_default(display: Seq<char>) -> Seq<char> {
    match family_index(display) {
        Some(i) => family_key(i),
        None => "JetBrainsMono"@,
    }
}

/// The display name of the `i`th bundled family.
pub fn family_name_at(i: usize) -> (s: &'static str)
    requires
        i < FONT_FAMILY_COUNT,
    ensures
        s@ == family_name(i as int),
{
    if i == 0 {
        "JetBrains Mono"
    } else if i == 1 {
        "IBM Plex Mono"
    } else if i == 2 {
        "Fira Mono"
    } else if i == 3 {
        "Space Mono"
    } else if i == 4 {
        "Cousine"
    } else if i == 5 {
        "Source Code Pro"
    } else if i == 6 {
        "B612 Mono"
    } else if i == 7 {
        "Share Tech Mono"
    } else if i == 8 {
        "VT323"
    } else if i == 9 {
        "Doto"
    } else if i == 10 {
        "Major Mono Display"
    } else if i == 11 {
        "Chakra Petch"
    } else if i == 12 {
        "Wallpoet"
    } else if i == 13 {
        "Michroma"
    } else if i == 14 {
        "Red Hat Mono"
    } else if i == 15 {
        "Teko"
    } else if i == 16 {
        "Rajdhani"
    } else if i == 17 {
        "Saira"
    } else if i == 18 {
        "Zen Dots"
    } else if i == 19 {
        "Syncopate"
    } else {
        "Spline Sans Mono"
    }
}

/// The key of the `i`th bundled family.
pub fn family_key_at(i: usize) -> (s: &'static str)
    requires
        i < FONT_FAMILY_COUNT,
    ensures
        s@ == family_key(i as int),
{
    if i == 0 {
        "JetBrainsMono"
    } else if i == 1 {
        "IBMPlexMono"
    } else if i == 2 {
        "FiraMono"
    } else if i == 3 {
        "SpaceMono"
    } else if i == 4 {
        "Cousine"
    } else if i == 5 {
        "SourceCodePro"
    } else if i == 6 {
        "B612Mono"
    } else if i == 7 {
        "ShareTechMono"
    } else if i == 8 {
        "VT323"
    } else if i == 9 {
        "Doto"
    } else if i == 10 {
        "MajorMonoDisplay"
    } else if i == 11 {
        "ChakraPetch"
    } else if i == 12 {
        "Wallpoet"
    } else if i == 13 {
        "Michroma"
    } else if i == 14 {
        "RedHatMono"
    } else if i == 15 {
        "Teko"
    } else if i == 16 {
        "Rajdhani"
    } else if i == 17 {
        "Saira"
    } else if i == 18 {
        "ZenDots"
    } else if i == 19 {
        "Syncopate"
    } else {
        "SplineSansMono"
    }
}

/// The place of a display name among the bundled families.
pub fn find_family(display: &str) -> (r: Option<usize>)
    ensures
        match r {
            Some(i) => i < FONT_FAMILY_COUNT && family_index(display@) == Some(i as int),
            None => family_index(display@) is None,
        },
{
    let mut i: usize = 0;
    while i < FONT_FAMILY_COUNT
        invariant
            i <= FONT_FAMILY_COUNT,
            family_index(display@) == family_index_from(display@, i as int),
        decreases FONT_FAMILY_COUNT - i,
    {
        if str_eq(family_name_at(i), display) {
            return Some(i);
        }
        i += 1;
    }
    None
}

/// A family is found by its name, the first of that name, and none is found only where none has
/// it.
pub proof fn law_family_is_found_by_its_name(display: Seq<char>, i: int)
    requires
        0 <= i <= FONT_FAMILY_COUNT,
    ensures
        match family_index_from(display, i) {
            Some(k) => i <= k < FONT_FAMILY_COUNT && family_name(k) == display && forall|j: int|
                i <= j < k ==> #[trigger] family_name(j) != display,
            None => forall|j: int|
                i <= j < FONT_FAMILY_COUNT ==> #[trigger] family_name(j) != display,
        },
    decreases FONT_FAMILY_COUNT - i,
{
    if i < FONT_FAMILY_COUNT && family_name(i) != display {
        law_family_is_found_by_its_name(display, i + 1);
    }
}

/// The key of a bundled family is that of its face, and a family that is not bundled has the key
/// of the first.
pub proof fn law_unknown_family_is_the_first(display: Seq<char>)
    ensures
        family_index(display) matches Some(i) ==> key_or_default(display) == family_key(i),
        family_index(display) is None ==> key_or_default(display) == family_key(0),
{
}

/// Resolve a display name to the key of its face; a name that is not bundled resolves
/// to JetBrains Mono.
pub fn font_family_key(display: &str) -> (key: &'static str)
    ensures
        key@ == key_or_default(display@),
{
    match find_family(display) {
        Some(i) => family_key_at(i),
        None => "JetBrainsMono",
    }
}

/// Tells when the fonts have to be built anew: the note family and the interface
/// family.
pub fn font_state_key(editor_family: &str, ui_family: &str) -> (s: String)
    ensures
        s@ == editor_family@.push('\0') + ui_family@,
{
    let mut s = editor_family.to_string();
    s.push('\0');
    s.append(ui_family);
    s
}

/// Two different choices of families have different keys, as long as no family's name
/// holds the separator.
pub proof fn law_font_state_key_tells_apart(
    a: Seq<char>,
    b: Seq<char>,
    c: Seq<char>,
    d: Seq<char>,
)
    requires
        a.push('\0') + b == c.push('\0') + d,
        forall|i: int| 0 <= i < a.len() ==> #[trigger] a[i] != '\0',
        forall|i: int| 0 <= i < c.len() ==> #[trigger] c[i] != '\0',
    ensures
        a == c,
        b == d,
{
    let x = a.push('\0') + b;
    let y = c.push('\0') + d;
    assert(x[a.len() as int] == '\0');
    assert(y[c.len() as int] == '\0');
    if a.len() < c.len() {
        assert(y[a.len() as int] == c[a.len() as int]);
    }
    if c.len() < a.len() {
        assert(x[c.len() as int] == a[c.len() as int]);
    }
    assert forall|i: int| 0 <= i < a.len() implies a[i] == c[i] by {
        assert(x[i] == a[i]);
        assert(y[i] == c[i]);
    }
    assert(a =~= c);
    assert(x.len() == a.len() + 1 + b.len());
    assert(y.len() == c.len() + 1 + d.len());
    assert forall|i: int| 0 <= i < b.len() implies b[i] == d[i] by {
        assert(x[a.len() + 1 + i] == b[i]);
        assert(y[c.len() + 1 + i] == d[i]);
    }
    assert(b =~= d);
}

/// The faces that a font set tries, in order, for each of its two families.
pub struct FontLists {
    /// For monospace text: notes, status line.
    pub monospace: Vec<String>,
    /// For the interface.
    pub proportional: Vec<String>,
}

/// `egui::FontDefinitions::default`: the faces that egui tries before any are added,
/// with its bundled fonts compiled in.
#[verifier::external_body]
fn egui_default_families() -> (r: FontLists)
    ensures
        session::str_views(r.monospace@) == seq![
            "Hack"@,
            "Ubuntu-Light"@,
            "NotoEmoji-Regular"@,
            "emoji-icon-font"@,
        ],
        session::str_views(r.proportional@) == seq![
            "Ubuntu-Light"@,
            "NotoEmoji-Regular"@,
            "emoji-icon-font"@,
        ],
{
    let mut d = egui::FontDefinitions::default();
    let monospace = d.families.remove(&egui::FontFamily::Monospace).unwrap_or_default();
    let proportional = d.families.remove(&egui::FontFamily::Proportional).unwrap_or_default();
    FontLists { monospace, proportional }
}

/// `egui_phosphor::add_to_fonts`: the icon font becomes the second face of the
/// proportional family; the monospace family stays as it is.
#[verifier::external_body]
fn add_phosphor(lists: FontLists) -> (r: FontLists)
    requires
        lists.proportional@.len() >= 1,
    ensures
        session::str_views(r.monospace@) == session::str_views(lists.monospace@),
        session::str_views(r.proportional@) == session::str_views(lists.proportional@).insert(
            1,
            "phosphor"@,
        ),
{
    let mut d = egui::FontDefinitions::empty();
    d.families.insert(egui::FontFamily::Monospace, lists.monospace);
    d.families.insert(egui::FontFamily::Proportional, lists.proportional);
    egui_phosphor::add_to_fonts(&mut d, egui_phosphor::Variant::Thin);
    let monospace = d.families.remove(&egui::FontFamily::Monospace).unwrap_or_default();
    let proportional = d.families.remove(&egui::FontFamily::Proportional).unwrap_or_default();
    FontLists { monospace, proportional }
}

/// The monospace faces: the chosen one, JetBrains Mono behind it, the ones there were,
/// the icons unless they are among those, and the kanji last.
pub open spec fn monospace_list(base: Seq<Seq<char>>, editor_family: Seq<char>) -> Seq<Seq<char>> {
    let selected = key_or_default(editor_family);
    let front = if selected == "JetBrainsMono"@ {
        seq![selected]
    } else {
        seq![selected, "JetBrainsMono"@]
    };
    let faces = front + base;
    (if faces.contains("phosphor"@) {
        faces
    } else {
        faces.push("phosphor"@)
    }).push("NotoSansJP-Subset"@)
}

/// The interface faces: the chosen one where it is bundled, the ones there were, and
/// the kanji last.
pub open spec fn proportional_list(base: Seq<Seq<char>>, ui_family: Seq<char>) -> Seq<Seq<char>> {
    (match family_index(ui_family) {
        Some(i) => seq![family_key(i)] + base,
        None => base,
    }).push("NotoSansJP-Subset"@)
}

/// Add the chosen faces, the icons and the kanji to the faces of a font set.
pub fn arrange_fonts(base: FontLists, editor_family: &str, ui_family: &str) -> (r: FontLists)
    ensures
        session::str_views(r.monospace@) == monospace_list(
            session::str_views(base.monospace@),
            editor_family@,
        ),
        session::str_views(r.proportional@) == proportional_list(
            session::str_views(base.proportional@),
            ui_family@,
        ),
{
    let mut mono = base.monospace;
    let ghost m0 = session::str_views(mono@);
    let selected = font_family_key(editor_family);
    mono.insert(0, selected.to_string());
    let ghost m1 = session::str_views(mono@);
    assert(m1 =~= seq![selected@] + m0);
    if !str_eq(selected, "JetBrainsMono") {
        mono.insert(1, "JetBrainsMono".to_string());
        assert(session::str_views(mono@) =~= seq![selected@, "JetBrainsMono"@] + m0);
    }
    let ghost m2 = session::str_views(mono@);
    let mut has_icons: bool = false;
    let mut i: usize = 0;
    while i < mono.len()
        invariant
            i <= mono@.len(),
            m2 == session::str_views(mono@),
            has_icons ==> m2.contains("phosphor"@),
            !has_icons ==> forall|k: int| 0 <= k < i ==> #[trigger] m2[k] != "phosphor"@,
        decreases mono@.len() - i,
    {
        assert(m2[i as int] == mono@[i as int]@);
        if str_eq(mono[i].as_str(), "phosphor") {
            has_icons = true;
        }
        i += 1;
    }
    if !has_icons {
        mono.push("phosphor".to_string());
        assert(session::str_views(mono@) =~= m2.push("phosphor"@));
    }
    let ghost m3 = session::str_views(mono@);
    mono.push("NotoSansJP-Subset".to_string());
    assert(session::str_views(mono@) =~= m3.push("NotoSansJP-Subset"@));
    let mut prop = base.proportional;
    let ghost p0 = session::str_views(prop@);
    match find_family(ui_family) {
        Some(k) => {
            prop.insert(0, family_key_at(k).to_string());
            assert(session::str_views(prop@) =~= seq![family_key(k as int)] + p0);
        },
        None => {},
    }
    let ghost p1 = session::str_views(prop@);
    prop.push("NotoSansJP-Subset".to_string());
    assert(session::str_views(prop@) =~= p1.push("NotoSansJP-Subset"@));
    FontLists { monospace: mono, proportional: prop }
}

/// The faces of the font set for a choice of families.
pub fn build_fonts(editor_family: &str, ui_family: &str) -> (r: FontLists)
    ensures
        session::str_views(r.monospace@) == monospace_list(
            seq!["Hack"@, "Ubuntu-Light"@, "NotoEmoji-Regular"@, "emoji-icon-font"@],
            editor_family@,
        ),
        session::str_views(r.proportional@) == proportional_list(
            seq!["Ubuntu-Light"@, "phosphor"@, "NotoEmoji-Regular"@, "emoji-icon-font"@],
            ui_family@,
        ),
{
    let base = egui_default_families();
    assert(base.proportional@.len() == session::str_views(base.proportional@).len());
    let with_icons = add_phosphor(base);
    assert(session::str_views(with_icons.proportional@) =~= seq![
        "Ubuntu-Light"@,
        "phosphor"@,
        "NotoEmoji-Regular"@,
        "emoji-icon-font"@,
    ]);
    arrange_fonts(with_icons, editor_family, ui_family)
}

/// Whatever is chosen, the chosen monospace face leads, JetBrains Mono comes first or
/// second, icons can be drawn, and kanji are the last resort of both families.
pub proof fn law_font_fallbacks(base: Seq<Seq<char>>, editor: Seq<char>, ui: Seq<char>)
    ensures
        ({
            let m = monospace_list(base, editor);
            &&& m[0] == key_or_default(editor)
            &&& m[0] == "JetBrainsMono"@ || m[1] == "JetBrainsMono"@
            &&& m.contains("phosphor"@)
            &&& m.last() == "NotoSansJP-Subset"@
            &&& proportional_list(base, ui).last() == "NotoSansJP-Subset"@
        }),
{
    let selected = key_or_default(editor);
    let front = if selected == "JetBrainsMono"@ {
        seq![selected]
    } else {
        seq![selected, "JetBrainsMono"@]
    };
    let faces = front + base;
    let m = monospace_list(base, editor);
    if faces.contains("phosphor"@) {
        let k = choose|k: int| 0 <= k < faces.len() && faces[k] == "phosphor"@;
        assert(m[k] == "phosphor"@);
    } else {
        assert(m[faces.len() as int] == "phosphor"@);
    }
}

/// The faces that were there are still tried, in their order, behind the chosen ones; an
/// interface family that is not bundled adds none.
pub proof fn law_fonts_keep_the_faces(base: Seq<Seq<char>>, editor: Seq<char>, ui: Seq<char>, i: int)
    requires
        0 <= i < base.len(),
    ensures
        ({
            let m = monospace_list(base, editor);
            let p = proportional_list(base, ui);
            let skip = if key_or_default(editor) == "JetBrainsMono"@ {
                1int
            } else {
                2int
            };
            &&& m[skip + i] == base[i]
            &&& m.len() <= base.len() + skip + 2
            &&& family_index(ui) matches Some(k) ==> p[0] == family_key(k) && p[1 + i] == base[i]
            &&& family_index(ui) is None ==> p[i] == base[i] && p.len() == base.len() + 1
        }),
{
}

} // verus!
