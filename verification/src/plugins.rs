//! Which plugins may run: the trust gate at launch and the approval by the user.
use vstd::prelude::*;
use vstd::string::*;
use crate::find;
use crate::session;
use crate::tab;
use crate::tabs;
use crate::text;
use crate::text::decimal_string;

verus! {

/// The panes of the plugin manager, in the order of their headers.
#[derive(Clone, Copy, Debug, PartialEq, Eq, Structural)]
pub enum PluginManagerTab {
    /// The plugins that were found.
    Loaded,
    /// The registry of plugins.
    Registry,
    /// Installing a plugin from a file.
    Install,
}

impl PluginManagerTab {
    /// The header of the pane.
    pub open spec fn spec_header(self) -> Seq<char> {
        match self {
            PluginManagerTab::Loaded => "Loaded"@,
            PluginManagerTab::Registry => "Registry"@,
            PluginManagerTab::Install => "Install"@,
        }
    }

    /// The header of the pane.
    pub fn header(self) -> (s: &'static str)
        ensures
            s@ == self.spec_header(),
    {
        match self {
            PluginManagerTab::Loaded => "Loaded",
            PluginManagerTab::Registry => "Registry",
            PluginManagerTab::Install => "Install",
        }
    }
}

/// The window of the plugin manager.
#[derive(Clone, Copy, Debug, PartialEq, Eq, Structural)]
pub struct PluginManager {
    /// It is shown.
    pub open: bool,
    /// The pane in front.
    pub tab: PluginManagerTab,
}

impl PluginManager {
    /// Not shown; the first pane is in front.
    pub open spec fn spec_closed() -> PluginManager {
        PluginManager { open: false, tab: PluginManagerTab::Loaded }
    }

    /// Not shown; the first pane is in front.
    pub fn closed() -> (m: PluginManager)
        ensures
            m == PluginManager::spec_closed(),
    {
        PluginManager { open: false, tab: PluginManagerTab::Loaded }
    }
}

/// How a plugin's author key compares with the one pinned for it.
#[derive(Clone, Copy, Debug, PartialEq, Eq, Structural)]
pub enum PinOutcome {
    /// It is the pinned key.
    Match,
    /// No key was pinned: this is the first contact.
    New,
    /// It is another key than the pinned one.
    Mismatch,
}

/// What the author key allows.
#[derive(Clone, Copy, Debug, PartialEq, Eq, Structural)]
pub enum KeyDecision {
    /// The plugin may run.
    Allow,
    /// The user has to agree to a key seen for the first time.
    NeedsFirstConsent,
    /// The key changed: the plugin is blocked.
    BlockKeyChanged,
}

/// What the author key allows: a pinned key runs, a new one only with the user's
/// consent, a changed one never.
pub open spec fn key_trust(outcome: PinOutcome, consent: bool) -> KeyDecision {
    match outcome {
        PinOutcome::Match => KeyDecision::Allow,
        PinOutcome::New => if consent {
            KeyDecision::Allow
        } else {
            KeyDecision::NeedsFirstConsent
        },
        PinOutcome::Mismatch => KeyDecision::BlockKeyChanged,
    }
}

/// What the author key allows.
pub fn decide_key_trust(outcome: PinOutcome, consent: bool) -> (d: KeyDecision)
    ensures
        d == key_trust(outcome, consent),
{
    match outcome {
        PinOutcome::Match => KeyDecision::Allow,
        PinOutcome::New => if consent {
            KeyDecision::Allow
        } else {
            KeyDecision::NeedsFirstConsent
        },
        PinOutcome::Mismatch => KeyDecision::BlockKeyChanged,
    }
}

/// The pinned key is allowed without asking, a new one only with consent, and a changed one
/// not even with consent.
pub proof fn law_key_trust(outcome: PinOutcome, consent: bool)
    ensures
        key_trust(outcome, consent) is Allow <==> outcome is Match || (outcome is New && consent),
        key_trust(outcome, consent) is NeedsFirstConsent <==> outcome is New && !consent,
        key_trust(outcome, consent) is BlockKeyChanged <==> outcome is Mismatch,
{
}

/// A plugin whose entry script the user approved, with the script's checksum.
pub struct Approval {
    /// The plugin.
    pub id: String,
    /// The SHA-256 of its entry script, in hexadecimal.
    pub sha: String,
}

/// The approved checksum of plugin `id`, looked for from the `i`th entry on.
pub open spec fn approved_from(v: Seq<Approval>, id: Seq<char>, i: int) -> Option<Seq<char>>
    decreases v.len() - i,
{
    if i >= v.len() {
        None
    } else if v[i].id@ == id {
        Some(v[i].sha@)
    } else {
        approved_from(v, id, i + 1)
    }
}

/// The approved checksum of plugin `id`.
pub open spec fn approved(v: Seq<Approval>, id: Seq<char>) -> Option<Seq<char>> {
    approved_from(v, id, 0)
}

/// The approved checksum of a plugin is the one of its first entry, and there is none without an
/// entry.
pub proof fn law_approved_is_the_first_entry(v: Seq<Approval>, id: Seq<char>, i: int, k: int)
    requires
        0 <= i <= k <= v.len(),
        forall|j: int| i <= j < k ==> (#[trigger] v[j]).id@ != id,
    ensures
        k < v.len() && v[k].id@ == id ==> approved_from(v, id, i) == Some(v[k].sha@),
        k == v.len() ==> approved_from(v, id, i) is None,
    decreases k - i,
{
    if i < k {
        assert(v[i].id@ != id);
        law_approved_is_the_first_entry(v, id, i + 1, k);
    }
}

/// Whether exactly this entry script was approved for plugin `id`.
pub fn entry_is_trusted(id: &String, sha: &String, trusted: &Vec<Approval>) -> (b: bool)
    ensures
        b == (approved(trusted@, id@) == Some(sha@)),
{
    let mut i: usize = 0;
    while i < trusted.len()
        invariant
            i <= trusted@.len(),
            approved(trusted@, id@) == approved_from(trusted@, id@, i as int),
        decreases trusted@.len() - i,
    {
        if trusted[i].id == *id {
            return trusted[i].sha == *sha;
        }
        i += 1;
    }
    false
}

/// What is known of a plugin that was found on disk.
pub struct PluginFacts {
    /// The plugin.
    pub id: String,
    /// This application is new enough for it.
    pub app_version_ok: bool,
    /// The SHA-256 of its entry script, where that could be read.
    pub entry_sha: Option<String>,
    /// Its manifest names an author key and holds a signature.
    pub signed: bool,
    /// The signature over the entry script verifies with the author key.
    pub signature_ok: bool,
    /// How the author key compares with the pinned one; `None` where the store of
    /// pinned keys could not be used.
    pub pin: Option<PinOutcome>,
}

/// What becomes of a plugin at launch.
#[derive(Clone, Copy, Debug, PartialEq, Eq, Structural)]
pub enum Gate {
    /// It is left out: disabled, too new for this application, or unreadable.
    Skip,
    /// It is refused: not signed as it has to be.
    Refuse,
    /// It runs.
    Run,
    /// It waits for the user's approval.
    Pending,
    /// It is blocked: its author key changed.
    KeyChanged,
}

/// Whether a list holds a string.
pub open spec fn holds(v: Seq<String>, s: Seq<char>) -> bool {
    exists|i: int| 0 <= i < v.len() && (#[trigger] v[i])@ == s
}

/// Whether a list holds a string.
pub fn list_holds(v: &Vec<String>, s: &String) -> (b: bool)
    ensures
        b == holds(v@, s@),
{
    let mut i: usize = 0;
    while i < v.len()
        invariant
            i <= v@.len(),
            forall|k: int| 0 <= k < i ==> (#[trigger] v@[k])@ != s@,
        decreases v@.len() - i,
    {
        if v[i] == *s {
            assert(v@[i as int]@ == s@);
            return true;
        }
        i += 1;
    }
    false
}

/// What becomes of a plugin at launch. Without "require signed" it runs when exactly
/// its entry script was approved, and waits otherwise. With it, it has to be signed,
/// the signature has to verify, and its author key is asked.
pub open spec fn gate_of(
    p: PluginFacts,
    disabled: Seq<String>,
    trusted: Seq<Approval>,
    require_signed: bool,
) -> Gate {
    if holds(disabled, p.id@) || !p.app_version_ok || p.entry_sha is None {
        Gate::Skip
    } else {
        let consent = approved(trusted, p.id@) == Some(p.entry_sha->0@);
        if !require_signed {
            if consent {
                Gate::Run
            } else {
                Gate::Pending
            }
        } else if !p.signed || !p.signature_ok {
            Gate::Refuse
        } else {
            match p.pin {
                None => Gate::Refuse,
                Some(o) => match key_trust(o, consent) {
                    KeyDecision::Allow => Gate::Run,
                    KeyDecision::NeedsFirstConsent => Gate::Pending,
                    KeyDecision::BlockKeyChanged => Gate::KeyChanged,
                },
            }
        }
    }
}

/// Whether the pinned keys are asked about a plugin: only with "require signed", and
/// only once its signature has verified. Asking pins the key of a first contact.
pub fn asks_pinned_key(
    p: &PluginFacts,
    disabled: &Vec<String>,
    require_signed: bool,
) -> (b: bool)
    ensures
        b == (require_signed && !holds(disabled@, p.id@) && p.app_version_ok && p.entry_sha is Some
            && p.signed && p.signature_ok),
{
    require_signed && !list_holds(disabled, &p.id) && p.app_version_ok && p.entry_sha.is_some()
        && p.signed && p.signature_ok
}

/// What becomes of a plugin at launch.
pub fn gate(
    p: &PluginFacts,
    disabled: &Vec<String>,
    trusted: &Vec<Approval>,
    require_signed: bool,
) -> (g: Gate)
    ensures
        g == gate_of(*p, disabled@, trusted@, require_signed),
{
    if list_holds(disabled, &p.id) || !p.app_version_ok {
        return Gate::Skip;
    }
    match &p.entry_sha {
        None => Gate::Skip,
        Some(sha) => {
            let consent = entry_is_trusted(&p.id, sha, trusted);
            if !require_signed {
                if consent {
                    Gate::Run
                } else {
                    Gate::Pending
                }
            } else if !p.signed || !p.signature_ok {
                Gate::Refuse
            } else {
                match p.pin {
                    None => Gate::Refuse,
                    Some(o) => match decide_key_trust(o, consent) {
                        KeyDecision::Allow => Gate::Run,
                        KeyDecision::NeedsFirstConsent => Gate::Pending,
                        KeyDecision::BlockKeyChanged => Gate::KeyChanged,
                    },
                }
            }
        },
    }
}

/// No plugin runs untrusted: one that runs is not disabled, and either exactly its
/// script was approved, or it is signed with the pinned key. With "require signed" the
/// signature has verified in any case.
pub proof fn law_nothing_runs_untrusted(
    p: PluginFacts,
    disabled: Seq<String>,
    trusted: Seq<Approval>,
    require_signed: bool,
)
    requires
        gate_of(p, disabled, trusted, require_signed) is Run,
    ensures
        !holds(disabled, p.id@),
        approved(trusted, p.id@) == Some(p.entry_sha->0@) || (require_signed && p.pin == Some(
            PinOutcome::Match,
        )),
        require_signed ==> p.signed && p.signature_ok && p.pin is Some && p.pin != Some(
            PinOutcome::Mismatch,
        ),
{
}

/// What becomes of a plugin: it is left out exactly when it is switched off, too new or
/// unreadable. Otherwise, without "require signed", it runs exactly when its script was approved,
/// and waits if not; with it, it is refused exactly when it is not signed, does not verify or has
/// no readable pin, it is blocked exactly when its key changed, and it waits exactly when its key
/// is new and its script was not approved.
pub proof fn law_gate_decides(
    p: PluginFacts,
    disabled: Seq<String>,
    trusted: Seq<Approval>,
)
    ensures
        ({
            let out = holds(disabled, p.id@) || !p.app_version_ok || p.entry_sha is None;
            let consent = approved(trusted, p.id@) == Some(p.entry_sha->0@);
            let valid = p.signed && p.signature_ok && p.pin is Some;
            let free = gate_of(p, disabled, trusted, false);
            let signed = gate_of(p, disabled, trusted, true);
            &&& free is Skip <==> out
            &&& signed is Skip <==> out
            &&& free is Run <==> !out && consent
            &&& free is Pending <==> !out && !consent
            &&& signed is Refuse <==> !out && !valid
            &&& signed is KeyChanged <==> !out && valid && p.pin == Some(PinOutcome::Mismatch)
            &&& signed is Pending <==> !out && valid && p.pin == Some(PinOutcome::New) && !consent
            &&& signed is Run <==> !out && valid && (p.pin == Some(PinOutcome::Match) || (p.pin
                == Some(PinOutcome::New) && consent))
        }),
{
}

/// A list holds a string when one of its entries is that string.
pub proof fn law_list_holds_its_entries(v: Seq<String>, s: Seq<char>, i: int)
    requires
        0 <= i < v.len(),
    ensures
        v[i]@ == s ==> holds(v, s),
        (forall|k: int| 0 <= k < v.len() ==> (#[trigger] v[k])@ != s) ==> !holds(v, s),
{
}

/// A changed author key never runs, whatever was approved.
pub proof fn law_changed_key_never_runs(
    p: PluginFacts,
    disabled: Seq<String>,
    trusted: Seq<Approval>,
)
    requires
        p.pin == Some(PinOutcome::Mismatch),
    ensures
        !(gate_of(p, disabled, trusted, true) is Run),
{
}

/// What becomes of the plugins at launch.
pub open spec fn gates_of(
    ps: Seq<PluginFacts>,
    disabled: Seq<String>,
    trusted: Seq<Approval>,
    require_signed: bool,
) -> Seq<Gate> {
    Seq::new(ps.len(), |i: int| gate_of(ps[i], disabled, trusted, require_signed))
}

/// Each plugin is decided for itself: what becomes of it does not depend on the others.
pub proof fn law_each_plugin_is_decided_alone(
    ps: Seq<PluginFacts>,
    disabled: Seq<String>,
    trusted: Seq<Approval>,
    require_signed: bool,
    i: int,
)
    requires
        0 <= i < ps.len(),
    ensures
        gates_of(ps, disabled, trusted, require_signed).len() == ps.len(),
        gates_of(ps, disabled, trusted, require_signed)[i] == gates_of(
            seq![ps[i]],
            disabled,
            trusted,
            require_signed,
        )[0],
        holds(disabled, ps[i].id@) ==> !(gates_of(ps, disabled, trusted, require_signed)[i] is Run),
{
}

/// The names of the first `n` plugins for which `g` was decided.
pub open spec fn with_gate(ps: Seq<PluginFacts>, gates: Seq<Gate>, g: Gate, n: int) -> Seq<
    Seq<char>,
>
    decreases n,
{
    if n <= 0 {
        Seq::empty()
    } else if gates[n - 1] == g {
        with_gate(ps, gates, g, n - 1).push(ps[n - 1].id@)
    } else {
        with_gate(ps, gates, g, n - 1)
    }
}

/// The plugins for which a thing was decided are named in their order, each of them, and no
/// other.
pub proof fn law_named_are_those_decided(ps: Seq<PluginFacts>, gates: Seq<Gate>, g: Gate, n: int)
    requires
        0 <= n <= ps.len(),
        ps.len() == gates.len(),
    ensures
        ({
            let decided = |i: int| gates[i] == g;
            let v = with_gate(ps, gates, g, n);
            &&& v.len() == tabs::tally(decided, n)
            &&& forall|i: int|
                0 <= i < n && gates[i] == g ==> 0 <= tabs::tally(decided, i) < v.len()
                    && v[tabs::tally(decided, i)] == (#[trigger] ps[i]).id@
        }),
    decreases n,
{
    if n > 0 {
        law_named_are_those_decided(ps, gates, g, n - 1);
    }
}

/// The names of the plugins for which `g` was decided, in order.
pub fn ids_with_gate(ps: &Vec<PluginFacts>, gates: &Vec<Gate>, g: Gate) -> (v: Vec<String>)
    requires
        ps@.len() == gates@.len(),
    ensures
        session::str_views(v@) == with_gate(ps@, gates@, g, ps@.len() as int),
{
    let mut v: Vec<String> = Vec::new();
    let mut i: usize = 0;
    assert(session::str_views(v@) =~= Seq::<Seq<char>>::empty());
    while i < ps.len()
        invariant
            ps@.len() == gates@.len(),
            i <= ps@.len(),
            session::str_views(v@) == with_gate(ps@, gates@, g, i as int),
        decreases ps@.len() - i,
    {
        if gates[i] == g {
            let ghost before = session::str_views(v@);
            v.push(ps[i].id.clone());
            assert(session::str_views(v@) =~= before.push(ps@[i as int].id@));
        }
        i += 1;
    }
    v
}

/// The notice at launch: a changed key before everything, then one that is there
/// already, then plugins that could not be read, then those that wait.
pub open spec fn launch_toast(
    before: Option<Seq<char>>,
    errors: int,
    pending: int,
    key_changed: int,
) -> Option<Seq<char>> {
    if key_changed > 0 {
        Some(
            "⚠ "@ + text::decimal(key_changed as nat)
                + " plugin(s) BLOCKED — author key changed since last run (possible takeover). Open Settings → Plugins to review the new key before allowing it."@,
        )
    } else if before is Some {
        before
    } else if errors > 0 {
        Some(text::decimal(errors as nat) + " plugin(s) skipped (see log)"@)
    } else if pending > 0 {
        Some(
            text::decimal(pending as nat)
                + " plugin(s) need your approval before they run — open Settings → Plugins → Manage plugins"@,
        )
    } else {
        None
    }
}

/// The notice at launch.
pub fn plugin_launch_toast(
    before: Option<String>,
    errors: usize,
    pending: usize,
    key_changed: usize,
) -> (t: Option<String>)
    ensures
        tab::opt_view(t) == launch_toast(
            tab::opt_view(before),
            errors as int,
            pending as int,
            key_changed as int,
        ),
{
    if key_changed > 0 {
        let mut s = "⚠ ".to_string();
        let n = decimal_string(key_changed);
        s.append(n.as_str());
        s.append(
            " plugin(s) BLOCKED — author key changed since last run (possible takeover). Open Settings → Plugins to review the new key before allowing it.",
        );
        return Some(s);
    }
    if before.is_some() {
        return before;
    }
    if errors > 0 {
        let mut s = decimal_string(errors);
        s.append(" plugin(s) skipped (see log)");
        return Some(s);
    }
    if pending > 0 {
        let mut s = decimal_string(pending);
        s.append(
            " plugin(s) need your approval before they run — open Settings → Plugins → Manage plugins",
        );
        return Some(s);
    }
    None
}

/// A changed key is told before everything else, with how many; otherwise a notice that is there
/// stays; otherwise plugins that could not be read come before those that wait. Where there is
/// nothing to tell there is no notice.
pub proof fn law_launch_notice_goes_by_weight(
    before: Option<Seq<char>>,
    errors: int,
    pending: int,
    changed: int,
)
    requires
        errors >= 0,
        pending >= 0,
        changed >= 0,
    ensures
        ({
            let t = launch_toast(before, errors, pending, changed);
            &&& changed > 0 ==> t is Some && find::contains(t->0, text::decimal(changed as nat))
            &&& changed > 0 ==> t == launch_toast(None, 0, 0, changed)
            &&& changed == 0 && before is Some ==> t == before
            &&& changed == 0 && before is None && errors > 0 ==> t is Some && find::contains(
                t->0,
                text::decimal(errors as nat),
            ) && t == launch_toast(None, errors, 0, 0)
            &&& changed == 0 && before is None && errors == 0 && pending > 0 ==> t is Some
                && find::contains(t->0, text::decimal(pending as nat))
            &&& changed == 0 && before is None && errors == 0 && pending == 0 ==> t is None
        }),
{
    let e = Seq::<char>::empty();
    let c = text::decimal(changed as nat);
    let x = text::decimal(errors as nat);
    let p = text::decimal(pending as nat);
    let blocked = " plugin(s) BLOCKED — author key changed since last run (possible takeover). Open Settings → Plugins to review the new key before allowing it."@;
    let skipped = " plugin(s) skipped (see log)"@;
    let waiting = " plugin(s) need your approval before they run — open Settings → Plugins → Manage plugins"@;
    find::lemma_stands_between("⚠ "@, c, blocked);
    find::lemma_stands_between(e, x, skipped);
    assert(e + x + skipped =~= x + skipped);
    find::lemma_stands_between(e, p, waiting);
    assert(e + p + waiting =~= p + waiting);
}

/// Why an approval is refused.
#[derive(Clone, Copy, Debug, PartialEq, Eq, Structural)]
pub enum Refusal {
    /// The entry script could not be read.
    Unreadable,
    /// Signed plugins are required, and this one has no author key or no signature.
    Unsigned,
    /// The signature does not verify.
    BadSignature,
    /// The store of pinned keys could not be used.
    KeyStore,
    /// The author key is not the pinned one.
    KeyChanged,
}

/// Why the user's approval of a plugin is refused, if it is. Approving is consent to a
/// key seen for the first time; it makes up for nothing else.
pub open spec fn refusal_of(p: PluginFacts, require_signed: bool) -> Option<Refusal> {
    if p.entry_sha is None {
        Some(Refusal::Unreadable)
    } else if !require_signed {
        None
    } else if !p.signed {
        Some(Refusal::Unsigned)
    } else if !p.signature_ok {
        Some(Refusal::BadSignature)
    } else {
        match p.pin {
            None => Some(Refusal::KeyStore),
            Some(o) => if key_trust(o, true) is Allow {
                None
            } else {
                Some(Refusal::KeyChanged)
            },
        }
    }
}

/// An approval goes through exactly for a script that can be read and, with "require signed",
/// is signed, verifies, and comes with the pinned key or a new one. Of the reasons against it the
/// first that holds is given: unreadable, unsigned, a bad signature, no key store, a changed key.
pub proof fn law_approval_goes_through(p: PluginFacts)
    ensures
        refusal_of(p, false) is None <==> p.entry_sha is Some,
        refusal_of(p, true) is None <==> p.entry_sha is Some && p.signed && p.signature_ok && (
        p.pin == Some(PinOutcome::Match) || p.pin == Some(PinOutcome::New)),
        p.entry_sha is None <==> refusal_of(p, true) == Some(Refusal::Unreadable),
        p.entry_sha is Some ==> {
            &&& !p.signed <==> refusal_of(p, true) == Some(Refusal::Unsigned)
            &&& p.signed ==> (!p.signature_ok <==> refusal_of(p, true) == Some(
                Refusal::BadSignature,
            ))
            &&& p.signed && p.signature_ok ==> {
                &&& p.pin is None <==> refusal_of(p, true) == Some(Refusal::KeyStore)
                &&& p.pin == Some(PinOutcome::Mismatch) <==> refusal_of(p, true) == Some(
                    Refusal::KeyChanged,
                )
            }
        },
        approval_asks(p, true) <==> p.entry_sha is Some && p.signed && p.signature_ok,
        !approval_asks(p, false),
{
}

/// Why the user's approval of a plugin is refused, if it is.
pub fn approval_refusal(p: &PluginFacts, require_signed: bool) -> (r: Option<Refusal>)
    ensures
        r == refusal_of(*p, require_signed),
{
    if p.entry_sha.is_none() {
        return Some(Refusal::Unreadable);
    }
    if !require_signed {
        return None;
    }
    if !p.signed {
        return Some(Refusal::Unsigned);
    }
    if !p.signature_ok {
        return Some(Refusal::BadSignature);
    }
    match p.pin {
        None => Some(Refusal::KeyStore),
        Some(o) => {
            if decide_key_trust(o, true) == KeyDecision::Allow {
                None
            } else {
                Some(Refusal::KeyChanged)
            }
        },
    }
}

/// Whether the pinned keys are asked when a plugin is approved.
pub open spec fn approval_asks(p: PluginFacts, require_signed: bool) -> bool {
    require_signed && p.entry_sha is Some && p.signed && p.signature_ok
}

/// Whether the pinned keys are asked when a plugin is approved: only with "require
/// signed", and only once its signature has verified. Asking pins the key of a first
/// contact.
pub fn approval_asks_pinned_key(p: &PluginFacts, require_signed: bool) -> (b: bool)
    ensures
        b == approval_asks(*p, require_signed),
{
    require_signed && p.entry_sha.is_some() && p.signed && p.signature_ok
}

/// An approval for which the pinned keys are not asked does not depend on them.
pub proof fn law_unasked_key_does_not_matter(
    p: PluginFacts,
    pin: Option<PinOutcome>,
    require_signed: bool,
)
    requires
        !approval_asks(p, require_signed),
    ensures
        refusal_of(PluginFacts { pin, ..p }, require_signed) == refusal_of(p, require_signed),
{
}

/// The notice of a refused approval.
pub open spec fn refusal_toast(id: Seq<char>, r: Refusal) -> Seq<char> {
    match r {
        Refusal::Unreadable => "could not read plugin '"@ + id + "' entry script"@,
        Refusal::Unsigned => "plugin '"@ + id
            + "' NOT approved: only signed plugins may run, and it has no author key or no signature"@,
        Refusal::BadSignature => "plugin '"@ + id + "' NOT approved: its signature does not verify"@,
        Refusal::KeyStore => "plugin '"@ + id + "' NOT approved: the pinned keys could not be read"@,
        Refusal::KeyChanged => "plugin '"@ + id
            + "' NOT approved: its author key changed since it was pinned (possible takeover)"@,
    }
}

/// The notice of a refused approval names the plugin.
pub proof fn law_refusal_names_the_plugin(id: Seq<char>, r: Refusal)
    ensures
        find::contains(refusal_toast(id, r), id),
{
    find::lemma_stands_between("could not read plugin '"@, id, "' entry script"@);
    find::lemma_stands_between(
        "plugin '"@,
        id,
        "' NOT approved: only signed plugins may run, and it has no author key or no signature"@,
    );
    find::lemma_stands_between("plugin '"@, id, "' NOT approved: its signature does not verify"@);
    find::lemma_stands_between("plugin '"@, id, "' NOT approved: the pinned keys could not be read"@);
    find::lemma_stands_between(
        "plugin '"@,
        id,
        "' NOT approved: its author key changed since it was pinned (possible takeover)"@,
    );
}

fn refusal_notice(id: &str, r: Refusal) -> (s: String)
    ensures
        s@ == refusal_toast(id@, r),
{
    let mut s = if r == Refusal::Unreadable {
        "could not read plugin '".to_string()
    } else {
        "plugin '".to_string()
    };
    s.append(id);
    match r {
        Refusal::Unreadable => {
            s.append("' entry script");
        },
        Refusal::Unsigned => {
            s.append(
                "' NOT approved: only signed plugins may run, and it has no author key or no signature",
            );
        },
        Refusal::BadSignature => {
            s.append("' NOT approved: its signature does not verify");
        },
        Refusal::KeyStore => {
            s.append("' NOT approved: the pinned keys could not be read");
        },
        Refusal::KeyChanged => {
            s.append(
                "' NOT approved: its author key changed since it was pinned (possible takeover)",
            );
        },
    }
    s
}

/// What the user decided about plugins.
pub struct PluginTrust {
    /// Only signed plugins may run.
    pub require_signed: bool,
    /// The entry scripts that were approved.
    pub trusted: Vec<Approval>,
    /// The plugins that wait for approval.
    pub pending: Vec<String>,
    /// The plugins that are switched off.
    pub disabled: Vec<String>,
}

/// What an approval says: the status line or a notice.
pub enum ApprovalReport {
    /// The status line.
    Status(String),
    /// The notice.
    Toast(String),
}

/// The strings of a list that are not `s`.
pub open spec fn without(v: Seq<Seq<char>>, s: Seq<char>, n: int) -> Seq<Seq<char>>
    decreases n,
{
    if n <= 0 {
        Seq::empty()
    } else if v[n - 1] == s {
        without(v, s, n - 1)
    } else {
        without(v, s, n - 1).push(v[n - 1])
    }
}

impl PluginTrust {
    /// Decide on the plugins found at launch: which run, which wait for approval and which
    /// are blocked. Gives the decisions, in order, and the notice. `errors` counts the
    /// plugins that could not be read; `before` is the notice there is already.
    pub fn decide_launch(
        &mut self,
        ps: &Vec<PluginFacts>,
        errors: usize,
        before: Option<String>,
    ) -> (r: (Vec<Gate>, Option<String>))
        ensures
            ({
                let gates = gates_of(
                    ps@,
                    old(self).disabled@,
                    old(self).trusted@,
                    old(self).require_signed,
                );
                let n = ps@.len() as int;
                let pending = with_gate(ps@, gates, Gate::Pending, n);
                &&& r.0@ == gates
                &&& session::str_views(final(self).pending@) == pending
                &&& tab::opt_view(r.1) == launch_toast(
                    tab::opt_view(before),
                    errors as int,
                    pending.len() as int,
                    with_gate(ps@, gates, Gate::KeyChanged, n).len() as int,
                )
            }),
            final(self).require_signed == old(self).require_signed,
            final(self).trusted == old(self).trusted,
            final(self).disabled == old(self).disabled,
    {
        let ghost all = gates_of(ps@, self.disabled@, self.trusted@, self.require_signed);
        let mut gates: Vec<Gate> = Vec::new();
        let mut i: usize = 0;
        while i < ps.len()
            invariant
                i <= ps@.len(),
                *self == *old(self),
                all == gates_of(ps@, self.disabled@, self.trusted@, self.require_signed),
                gates@ == all.take(i as int),
            decreases ps@.len() - i,
        {
            let g = gate(&ps[i], &self.disabled, &self.trusted, self.require_signed);
            gates.push(g);
            assert(all.take(i + 1) =~= all.take(i as int).push(all[i as int]));
            i += 1;
        }
        assert(all.take(i as int) =~= all);
        let changed = ids_with_gate(ps, &gates, Gate::KeyChanged);
        let pending = ids_with_gate(ps, &gates, Gate::Pending);
        assert(session::str_views(changed@).len() == changed@.len());
        assert(session::str_views(pending@).len() == pending@.len());
        let toast = plugin_launch_toast(before, errors, pending.len(), changed.len());
        self.pending = pending;
        (gates, toast)
    }

    /// Approve a plugin: record the checksum of its entry script and, once the script
    /// was loaded into the running host, take it off the waiting list. `load_error` says
    /// why it could not be loaded. A refused approval changes nothing.
    pub fn approve_plugin(&mut self, p: &PluginFacts, load_error: Option<String>) -> (r:
        ApprovalReport)
        ensures
            final(self).require_signed == old(self).require_signed,
            session::str_views(final(self).disabled@) == session::str_views(old(self).disabled@),
            match refusal_of(*p, old(self).require_signed) {
                Some(why) => {
                    &&& final(self).trusted@ == old(self).trusted@
                    &&& final(self).pending@ == old(self).pending@
                    &&& r matches ApprovalReport::Toast(s)
                    &&& s@ == refusal_toast(p.id@, why)
                },
                None => {
                    &&& approved(final(self).trusted@, p.id@) == Some(p.entry_sha->0@)
                    &&& forall|id: Seq<char>| #[trigger]
                        approved(final(self).trusted@, id) == (if id == p.id@ {
                            Some(p.entry_sha->0@)
                        } else {
                            approved(old(self).trusted@, id)
                        })
                    &&& match load_error {
                        None => {
                            &&& session::str_views(final(self).pending@) == without(
                                session::str_views(old(self).pending@),
                                p.id@,
                                old(self).pending@.len() as int,
                            )
                            &&& r matches ApprovalReport::Status(s)
                            &&& s@ == "approved + loaded plugin '"@ + p.id@ + "'"@
                        },
                        Some(e) => {
                            &&& final(self).pending@ == old(self).pending@
                            &&& r matches ApprovalReport::Toast(s)
                            &&& s@ == "plugin '"@ + p.id@ + "' approved but failed to load: "@ + e@
                        },
                    }
                },
            },
    {
        match approval_refusal(p, self.require_signed) {
            Some(why) => ApprovalReport::Toast(refusal_notice(p.id.as_str(), why)),
            None => {
                match &p.entry_sha {
                    Some(sha) => {
                        self.trust(&p.id, sha);
                    },
                    None => {},
                }
                match load_error {
                    None => {
                        self.drop_pending(&p.id);
                        let mut s = "approved + loaded plugin '".to_string();
                        s.append(p.id.as_str());
                        s.append("'");
                        ApprovalReport::Status(s)
                    },
                    Some(e) => {
                        let mut s = "plugin '".to_string();
                        s.append(p.id.as_str());
                        s.append("' approved but failed to load: ");
                        s.append(e.as_str());
                        ApprovalReport::Toast(s)
                    },
                }
            },
        }
    }

    /// Record the checksum of an approved entry script.
    fn trust(&mut self, id: &String, sha: &String)
        ensures
            final(self).require_signed == old(self).require_signed,
            final(self).pending == old(self).pending,
            final(self).disabled == old(self).disabled,
            forall|x: Seq<char>| #[trigger]
                approved(final(self).trusted@, x) == (if x == id@ {
                    Some(sha@)
                } else {
                    approved(old(self).trusted@, x)
                }),
    {
        let ghost before = self.trusted@;
        let mut i: usize = 0;
        while i < self.trusted.len()
            invariant
                self.trusted@ == before,
                before == old(self).trusted@,
                self.require_signed == old(self).require_signed,
                self.pending == old(self).pending,
                self.disabled == old(self).disabled,
                i <= self.trusted@.len(),
                forall|k: int| 0 <= k < i ==> (#[trigger] before[k]).id@ != id@,
            decreases self.trusted@.len() - i,
        {
            if self.trusted[i].id == *id {
                let entry = Approval { id: id.clone(), sha: sha.clone() };
                self.trusted.set(i, entry);
                proof {
                    assert forall|x: Seq<char>| #[trigger] approved(self.trusted@, x) == (if x
                        == id@ {
                        Some(sha@)
                    } else {
                        approved(before, x)
                    }) by {
                        lemma_approved_update(before, self.trusted@, i as int, x, 0);
                    }
                }
                return;
            }
            i += 1;
        }
        let entry = Approval { id: id.clone(), sha: sha.clone() };
        self.trusted.push(entry);
        proof {
            assert forall|x: Seq<char>| #[trigger] approved(self.trusted@, x) == (if x == id@ {
                Some(sha@)
            } else {
                approved(before, x)
            }) by {
                lemma_approved_push(before, entry, x, 0);
            }
        }
    }

    /// Take a plugin off the waiting list.
    fn drop_pending(&mut self, id: &String)
        ensures
            final(self).require_signed == old(self).require_signed,
            final(self).trusted == old(self).trusted,
            final(self).disabled == old(self).disabled,
            session::str_views(final(self).pending@) == without(
                session::str_views(old(self).pending@),
                id@,
                old(self).pending@.len() as int,
            ),
    {
        let ghost before = session::str_views(self.pending@);
        let mut left: Vec<String> = Vec::new();
        let mut i: usize = 0;
        assert(session::str_views(left@) =~= Seq::<Seq<char>>::empty());
        while i < self.pending.len()
            invariant
                before == session::str_views(self.pending@),
                i <= self.pending@.len(),
                session::str_views(left@) == without(before, id@, i as int),
            decreases self.pending@.len() - i,
        {
            assert(before[i as int] == self.pending@[i as int]@);
            if self.pending[i] != *id {
                let ghost v = session::str_views(left@);
                left.push(self.pending[i].clone());
                assert(session::str_views(left@) =~= v.push(before[i as int]));
            }
            i += 1;
        }
        self.pending = left;
    }

    /// Switch a plugin off, or on again.
    pub fn toggle_disabled(&mut self, id: String)
        ensures
            final(self).require_signed == old(self).require_signed,
            final(self).trusted == old(self).trusted,
            final(self).pending == old(self).pending,
            match first_at(session::str_views(old(self).disabled@), id@, 0) {
                Some(k) => session::str_views(final(self).disabled@) == session::str_views(
                    old(self).disabled@,
                ).remove(k),
                None => session::str_views(final(self).disabled@) == session::str_views(
                    old(self).disabled@,
                ).push(id@),
            },
            session::str_views(final(self).disabled@) == switched(
                session::str_views(old(self).disabled@),
                id@,
            ),
    {
        let ghost before = session::str_views(self.disabled@);
        let mut i: usize = 0;
        while i < self.disabled.len()
            invariant
                before == session::str_views(self.disabled@),
                self.require_signed == old(self).require_signed,
                self.trusted == old(self).trusted,
                self.pending == old(self).pending,
                session::str_views(old(self).disabled@) == before,
                i <= self.disabled@.len(),
                first_at(before, id@, 0) == first_at(before, id@, i as int),
            decreases self.disabled@.len() - i,
        {
            assert(before[i as int] == self.disabled@[i as int]@);
            if self.disabled[i] == id {
                self.disabled.remove(i);
                assert(session::str_views(self.disabled@) =~= before.remove(i as int));
                return;
            }
            i += 1;
        }
        self.disabled.push(id);
        assert(session::str_views(self.disabled@) =~= before.push(id@));
    }
}

/// A plugin that was approved and loaded waits no more, and every other one still
/// does.
pub proof fn law_waiting_list_loses_only_the_approved(v: Seq<Seq<char>>, s: Seq<char>, n: int)
    requires
        0 <= n <= v.len(),
    ensures
        !without(v, s, n).contains(s),
        forall|k: int| 0 <= k < n && v[k] != s ==> without(v, s, n).contains(#[trigger] v[k]),
    decreases n,
{
    if n > 0 {
        law_waiting_list_loses_only_the_approved(v, s, n - 1);
        let a = without(v, s, n - 1);
        let b = without(v, s, n);
        assert forall|k: int| 0 <= k < n && v[k] != s implies b.contains(#[trigger] v[k]) by {
            if k < n - 1 {
                let j = choose|j: int| 0 <= j < a.len() && a[j] == v[k];
                assert(b[j] == v[k]);
            } else {
                assert(b[b.len() - 1] == v[k]);
            }
        }
        if b.contains(s) {
            let j = choose|j: int| 0 <= j < b.len() && b[j] == s;
            if j < a.len() {
                assert(a[j] == s);
            }
        }
    }
}

/// The first place of `s` in a list, from the `i`th on.
pub open spec fn first_at(v: Seq<Seq<char>>, s: Seq<char>, i: int) -> Option<int>
    decreases v.len() - i,
{
    if i >= v.len() {
        None
    } else if v[i] == s {
        Some(i)
    } else {
        first_at(v, s, i + 1)
    }
}

/// Those that still wait keep their order, and nothing is added to them.
pub proof fn law_waiting_list_keeps_its_order(v: Seq<Seq<char>>, s: Seq<char>, n: int)
    requires
        0 <= n <= v.len(),
    ensures
        ({
            let other = |i: int| v[i] != s;
            let w = without(v, s, n);
            &&& w.len() == tabs::tally(other, n)
            &&& forall|i: int|
                0 <= i < n && #[trigger] v[i] != s ==> 0 <= tabs::tally(other, i) < w.len()
                    && w[tabs::tally(other, i)] == v[i]
        }),
    decreases n,
{
    if n > 0 {
        law_waiting_list_keeps_its_order(v, s, n - 1);
    }
}

/// A string is found at its first place in a list, and not found only where it is not there.
pub proof fn law_first_place(v: Seq<Seq<char>>, s: Seq<char>, i: int)
    requires
        0 <= i <= v.len(),
    ensures
        match first_at(v, s, i) {
            Some(k) => i <= k < v.len() && v[k] == s && forall|j: int|
                i <= j < k ==> #[trigger] v[j] != s,
            None => forall|j: int| i <= j < v.len() ==> #[trigger] v[j] != s,
        },
    decreases v.len() - i,
{
    if i < v.len() && v[i] != s {
        law_first_place(v, s, i + 1);
    }
}

/// The plugins that are switched off after one was turned over.
pub open spec fn switched(v: Seq<Seq<char>>, id: Seq<char>) -> Seq<Seq<char>> {
    match first_at(v, id, 0) {
        Some(k) => v.remove(k),
        None => v.push(id),
    }
}

/// Turning a plugin over switches that one off or on, and leaves the others as they were; the
/// list names none twice.
pub proof fn law_switching_turns_one_plugin_over(v: Seq<Seq<char>>, id: Seq<char>, other: Seq<char>)
    requires
        forall|i: int, j: int| 0 <= i < j < v.len() ==> #[trigger] v[i] != #[trigger] v[j],
    ensures
        switched(v, id).contains(id) <==> !v.contains(id),
        other != id ==> (switched(v, id).contains(other) <==> v.contains(other)),
{
    law_first_place(v, id, 0);
    let w = switched(v, id);
    match first_at(v, id, 0) {
        Some(k) => {
            assert(v.contains(v[k]));
            if w.contains(id) {
                let j = choose|j: int| 0 <= j < w.len() && w[j] == id;
                let o = if j < k { j } else { j + 1 };
                assert(v[o] == id);
            }
            if other != id && v.contains(other) {
                let j = choose|j: int| 0 <= j < v.len() && v[j] == other;
                let o = if j < k { j } else { j - 1 };
                assert(w[o] == other);
            }
            if w.contains(other) {
                let j = choose|j: int| 0 <= j < w.len() && w[j] == other;
                let o = if j < k { j } else { j + 1 };
                assert(v[o] == other);
            }
        },
        None => {
            assert(w[v.len() as int] == id);
            if v.contains(other) {
                let j = choose|j: int| 0 <= j < v.len() && v[j] == other;
                assert(w[j] == other);
            }
            if w.contains(other) && other != id {
                let j = choose|j: int| 0 <= j < w.len() && w[j] == other;
                assert(v[j] == other);
            }
        },
    }
}

proof fn lemma_approved_update(
    a: Seq<Approval>,
    b: Seq<Approval>,
    i: int,
    x: Seq<char>,
    k: int,
)
    requires
        0 <= k <= i < a.len(),
        b == a.update(i, b[i]),
        a[i].id@ == b[i].id@,
        forall|j: int| 0 <= j < i ==> (#[trigger] a[j]).id@ != a[i].id@,
    ensures
        approved_from(b, x, k) == (if x == a[i].id@ {
            Some(b[i].sha@)
        } else {
            approved_from(a, x, k)
        }),
    decreases i - k,
{
    if k < i {
        lemma_approved_update(a, b, i, x, k + 1);
        assert(b[k] == a[k]);
    } else {
        lemma_approved_same(a, b, x, i + 1);
    }
}

proof fn lemma_approved_same(a: Seq<Approval>, b: Seq<Approval>, x: Seq<char>, k: int)
    requires
        a.len() == b.len(),
        0 <= k <= a.len(),
        forall|j: int| k <= j < a.len() ==> #[trigger] a[j] == b[j],
    ensures
        approved_from(a, x, k) == approved_from(b, x, k),
    decreases a.len() - k,
{
    if k < a.len() {
        assert(a[k] == b[k]);
        lemma_approved_same(a, b, x, k + 1);
    }
}

proof fn lemma_approved_push(a: Seq<Approval>, e: Approval, x: Seq<char>, k: int)
    requires
        0 <= k <= a.len(),
        forall|j: int| 0 <= j < a.len() ==> (#[trigger] a[j]).id@ != e.id@,
    ensures
        approved_from(a.push(e), x, k) == (if x == e.id@ {
            Some(e.sha@)
        } else {
            approved_from(a, x, k)
        }),
    decreases a.len() - k,
{
    if k < a.len() {
        lemma_approved_push(a, e, x, k + 1);
        assert(a.push(e)[k] == a[k]);
    } else {
        assert(approved_from(a.push(e), x, k + 1) is None);
    }
}

/// Without "require signed", an approved script runs at the next launch and a changed
/// one waits again.
pub proof fn law_approval_is_for_one_script(
    p: PluginFacts,
    disabled: Seq<String>,
    trusted: Seq<Approval>,
    sha: Seq<char>,
)
    requires
        approved(trusted, p.id@) == Some(sha),
        !holds(disabled, p.id@),
        p.app_version_ok,
        p.entry_sha is Some,
    ensures
        p.entry_sha->0@ == sha ==> gate_of(p, disabled, trusted, false) is Run,
        p.entry_sha->0@ != sha ==> gate_of(p, disabled, trusted, false) is Pending,
{
}

/// The approval and the launch agree: with "require signed", a plugin whose approval is
/// refused does not run, and one whose approval went through does.
pub proof fn law_approval_agrees_with_launch(
    p: PluginFacts,
    disabled: Seq<String>,
    trusted: Seq<Approval>,
)
    requires
        !holds(disabled, p.id@),
        p.app_version_ok,
    ensures
        refusal_of(p, true) is Some ==> !(gate_of(p, disabled, trusted, true) is Run),
        refusal_of(p, true) is None && approved(trusted, p.id@) == Some(p.entry_sha->0@)
            ==> gate_of(p, disabled, trusted, true) is Run,
{
}

/// A plugin as the manager window lists it.
pub struct LoadedRow {
    /// The plugin.
    pub id: String,
    /// Its name.
    pub name: String,
    /// Its version.
    pub version: String,
    /// What it does.
    pub description: String,
    /// It is switched on.
    pub enabled: bool,
    /// It waits for approval.
    pub pending: bool,
}

/// What a plugin's manifest says of it.
pub struct PluginInfo {
    /// The plugin.
    pub id: String,
    /// Its name.
    pub name: String,
    /// Its version.
    pub version: String,
    /// What it does.
    pub description: String,
}

/// A row shows a plugin.
pub open spec fn row_shows(r: LoadedRow, p: PluginInfo, disabled: Seq<String>, pending: Seq<String>) -> bool {
    &&& r.id@ == p.id@
    &&& r.name@ == p.name@
    &&& r.version@ == p.version@
    &&& r.description@ == p.description@
    &&& r.enabled == !holds(disabled, p.id@)
    &&& r.pending == holds(pending, p.id@)
}

/// The rows of the manager window: every plugin found on disk, also those that are
/// switched off.
pub fn discovered_plugin_rows(found: &Vec<PluginInfo>, trust: &PluginTrust) -> (rows: Vec<
    LoadedRow,
>)
    ensures
        rows@.len() == found@.len(),
        forall|i: int|
            0 <= i < rows@.len() ==> row_shows(
                #[trigger] rows@[i],
                found@[i],
                trust.disabled@,
                trust.pending@,
            ),
{
    let mut rows: Vec<LoadedRow> = Vec::new();
    let mut i: usize = 0;
    while i < found.len()
        invariant
            i == rows@.len() <= found@.len(),
            forall|k: int|
                0 <= k < rows@.len() ==> row_shows(
                    #[trigger] rows@[k],
                    found@[k],
                    trust.disabled@,
                    trust.pending@,
                ),
        decreases found@.len() - i,
    {
        let p = &found[i];
        let row = LoadedRow {
            id: p.id.clone(),
            name: p.name.clone(),
            version: p.version.clone(),
            description: p.description.clone(),
            enabled: !list_holds(&trust.disabled, &p.id),
            pending: list_holds(&trust.pending, &p.id),
        };
        rows.push(row);
        i += 1;
    }
    rows
}

/// The plugin window starts closed, and on the plugins that are loaded.
pub proof fn law_plugin_window_starts_closed()
    ensures
        !PluginManager::spec_closed().open,
        PluginManager::spec_closed().tab is Loaded,
{
}

/// A row is of its plugin: switched on exactly when no entry of the switched-off plugins is its
/// id, and waiting exactly when an entry of the waiting ones is.
pub proof fn law_row_is_of_its_plugin(
    r: LoadedRow,
    p: PluginInfo,
    disabled: Seq<String>,
    pending: Seq<String>,
)
    requires
        row_shows(r, p, disabled, pending),
    ensures
        r.id@ == p.id@,
        r.name@ == p.name@,
        r.version@ == p.version@,
        r.description@ == p.description@,
        r.enabled <==> forall|i: int|
            0 <= i < disabled.len() ==> (#[trigger] disabled[i])@ != p.id@,
        r.pending <==> exists|i: int| 0 <= i < pending.len() && (#[trigger] pending[i])@ == p.id@,
{
}

} // verus!
