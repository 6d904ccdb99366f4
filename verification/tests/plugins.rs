use scribe_app::plugins::{
    approval_asks_pinned_key, approval_refusal, asks_pinned_key, decide_key_trust, discovered_plugin_rows, entry_is_trusted,
    gate, ids_with_gate, plugin_launch_toast, Approval, ApprovalReport, Gate, KeyDecision,
    PinOutcome, PluginFacts, PluginInfo, PluginTrust, Refusal,
};

const ENTRY: &str = "// noop";

/// Strict signing on.
fn signed_app() -> PluginTrust {
    PluginTrust {
        require_signed: true,
        trusted: Vec::new(),
        pending: Vec::new(),
        disabled: Vec::new(),
    }
}

fn gen_pk() -> (minisign::KeyPair, String) {
    let kp = minisign::KeyPair::generate_unencrypted_keypair().unwrap();
    let pk_box = kp.pk.to_box().unwrap().to_string();
    (kp, pk_box)
}

fn sign_entry(kp: &minisign::KeyPair) -> String {
    minisign::sign(
        Some(&kp.pk),
        &kp.sk,
        std::io::Cursor::new(ENTRY.as_bytes()),
        Some("scr1b3-test"),
        Some("comment"),
    )
    .unwrap()
    .to_string()
}

/// Whether a signature over the entry script verifies.
fn verifies(pubkey: &str, sig: &str) -> bool {
    let key = match minisign::PublicKeyBox::from_string(pubkey) {
        Ok(b) => b.into_public_key(),
        Err(_) => return false,
    };
    let signature = minisign::SignatureBox::from_string(sig);
    match (key, signature) {
        (Ok(k), Ok(s)) => minisign::verify(
            &k,
            &s,
            std::io::Cursor::new(ENTRY.as_bytes()),
            true,
            false,
            false,
        )
        .is_ok(),
        _ => false,
    }
}

/// What is known of a plugin whose manifest declares this key and signature, where
/// `pinned` is the key that is pinned for it.
fn facts(id: &str, pubkey: Option<&str>, sig: Option<&str>, pinned: Option<&str>) -> PluginFacts {
    let pin = pubkey.map(|pk| match pinned {
        None => PinOutcome::New,
        Some(p) if p == pk => PinOutcome::Match,
        Some(_) => PinOutcome::Mismatch,
    });
    PluginFacts {
        id: id.to_string(),
        app_version_ok: true,
        entry_sha: Some("0f".to_string()),
        signed: pubkey.is_some() && sig.is_some(),
        signature_ok: match (pubkey, sig) {
            (Some(k), Some(s)) => verifies(k, s),
            _ => false,
        },
        pin,
    }
}

/// The keys that are pinned, by plugin.
struct KeyStore {
    pinned: Vec<(String, String)>,
}

impl KeyStore {
    /// Compare a key with the pinned one; the key of a first contact is pinned.
    fn pin_or_match(&mut self, id: &str, key: &str) -> PinOutcome {
        match self.pinned.iter().find(|(i, _)| i == id) {
            Some((_, k)) if k == key => PinOutcome::Match,
            Some(_) => PinOutcome::Mismatch,
            None => {
                self.pinned.push((id.to_string(), key.to_string()));
                PinOutcome::New
            }
        }
    }
}

/// Approve a plugin; the keys are asked where the library says so.
fn approve(
    app: &mut PluginTrust,
    store: &mut KeyStore,
    p: &mut PluginFacts,
    key: &str,
) -> ApprovalReport {
    p.pin = None;
    if approval_asks_pinned_key(p, app.require_signed) {
        p.pin = Some(store.pin_or_match(&p.id, key));
    }
    app.approve_plugin(p, None)
}

fn toast_of(r: ApprovalReport) -> String {
    match r {
        ApprovalReport::Toast(t) => t,
        ApprovalReport::Status(_) => String::new(),
    }
}

fn trusts(t: &PluginTrust, id: &str) -> bool {
    t.trusted.iter().any(|a| a.id == id)
}

#[test]
fn approve_plugin_blocks_rotated_author_key() {
    let mut app = signed_app();
    let (kp_b, pk_b) = gen_pk();
    let sig_b = sign_entry(&kp_b);
    let (_kp_a, pk_a) = gen_pk();
    let mut store = KeyStore { pinned: Vec::new() };
    store.pin_or_match("evilplug", &pk_a);
    let mut p = facts("evilplug", Some(&pk_b), Some(&sig_b), None);
    assert!(p.signature_ok);
    app.pending.push("evilplug".to_string());

    let toast = toast_of(approve(&mut app, &mut store, &mut p, &pk_b));

    assert!(
        !trusts(&app, "evilplug"),
        "rotated-key plugin must NOT be trusted on approve"
    );
    assert!(
        app.pending.iter().any(|p| p == "evilplug"),
        "rotated-key plugin must remain pending (approval refused)"
    );
    assert!(
        toast.contains("NOT approved") && toast.contains("key changed"),
        "user must be warned about the key change, got: {toast:?}"
    );
}

#[test]
fn approve_plugin_allows_first_contact_signed_key() {
    let mut app = signed_app();
    let mut store = KeyStore { pinned: Vec::new() };
    let (kp, pk) = gen_pk();
    let sig = sign_entry(&kp);
    let mut p = facts("goodplug", Some(&pk), Some(&sig), None);
    app.pending.push("goodplug".to_string());

    approve(&mut app, &mut store, &mut p, &pk);

    assert!(
        trusts(&app, "goodplug"),
        "first-contact signed approval must trust the plugin"
    );
    // The key is now pinned: presenting it again matches.
    let outcome = store.pin_or_match("goodplug", &pk);
    assert!(
        matches!(outcome, PinOutcome::Match),
        "approval must have pinned the author key, got {outcome:?}"
    );
    p.pin = Some(outcome);
    assert_eq!(gate(&p, &app.disabled, &app.trusted, true), Gate::Run);
}

#[test]
fn a_refused_signature_pins_nothing() {
    let mut app = signed_app();
    let mut store = KeyStore { pinned: Vec::new() };
    let (_kp, pk) = gen_pk();
    let mut p = facts("tamperedplug", Some(&pk), Some("forged"), None);
    let toast = toast_of(approve(&mut app, &mut store, &mut p, &pk));
    assert!(toast.contains("signature"));
    assert!(store.pinned.is_empty());
    // Without a key to ask for, what the keys would say changes nothing.
    p.pin = Some(PinOutcome::Mismatch);
    assert_eq!(approval_refusal(&p, true), Some(Refusal::BadSignature));
    assert!(!approval_asks_pinned_key(&p, true));
}

#[test]
fn approve_plugin_refuses_unsigned_in_signed_mode() {
    let mut app = signed_app();
    let p = facts("unsignedplug", None, None, None);
    app.pending.push("unsignedplug".to_string());

    let toast = toast_of(app.approve_plugin(&p, None));

    assert!(
        !trusts(&app, "unsignedplug"),
        "unsigned plugin must NOT be trusted under require_signed"
    );
    assert!(
        toast.contains("NOT approved") && toast.contains("signed"),
        "user must be told signed mode requires a signed plugin, got: {toast:?}"
    );
}

#[test]
fn approve_plugin_refuses_bad_signature() {
    let mut app = signed_app();
    let (_kp, pk) = gen_pk();
    let p = facts(
        "tamperedplug",
        Some(&pk),
        Some("untrusted comment: forged\nRWQbogusSignatureThatWillNotVerifyAAAAAAAAAAAAAAAAAAAA"),
        None,
    );
    app.pending.push("tamperedplug".to_string());

    let toast = toast_of(app.approve_plugin(&p, None));

    assert!(
        !trusts(&app, "tamperedplug"),
        "plugin with a non-verifying signature must NOT be trusted"
    );
    assert!(
        toast.contains("NOT approved") && toast.contains("signature"),
        "user must be told the signature did not verify, got: {toast:?}"
    );
}

#[test]
fn discovered_plugin_rows_reflects_the_disabled_set() {
    let found = vec![PluginInfo {
        id: "uppercase".to_string(),
        name: "Uppercase".to_string(),
        version: String::new(),
        description: String::new(),
    }];
    let mut app = signed_app();
    app.disabled.push("uppercase".to_string());
    let rows = discovered_plugin_rows(&found, &app);
    assert_eq!(rows.len(), 1, "the on-disk plugin is discovered");
    assert!(!rows[0].enabled, "a plugin in the disabled set is reported as disabled");
    assert_eq!(rows[0].id, "uppercase");
    app.toggle_disabled("uppercase".to_string());
    assert!(discovered_plugin_rows(&found, &app)[0].enabled);
}

#[test]
fn a_script_that_cannot_be_read_is_not_approved() {
    let mut p = facts("p", None, None, None);
    p.entry_sha = None;
    assert_eq!(approval_refusal(&p, false), Some(Refusal::Unreadable));
    let (kp, pk) = gen_pk();
    let sig = sign_entry(&kp);
    let mut q = facts("q", Some(&pk), Some(&sig), None);
    q.pin = None;
    assert_eq!(approval_refusal(&q, true), Some(Refusal::KeyStore));
}

#[test]
fn an_unsigned_script_runs_once_approved_and_until_it_changes() {
    let mut app = signed_app();
    app.require_signed = false;
    let mut p = facts("p", None, None, None);
    assert_eq!(gate(&p, &app.disabled, &app.trusted, false), Gate::Pending);
    app.pending.push("p".to_string());
    app.pending.push("other".to_string());
    let r = app.approve_plugin(&p, None);
    assert!(matches!(r, ApprovalReport::Status(_)));
    assert_eq!(app.pending, vec!["other"]);
    assert_eq!(gate(&p, &app.disabled, &app.trusted, false), Gate::Run);
    p.entry_sha = Some("other script".to_string());
    assert_eq!(gate(&p, &app.disabled, &app.trusted, false), Gate::Pending);
    assert_eq!(gate(&p, &vec!["p".to_string()], &app.trusted, false), Gate::Skip);
    let a = Approval { id: "p".to_string(), sha: "0f".to_string() };
    assert!(entry_is_trusted(&"p".to_string(), &"0f".to_string(), &vec![a]));
}

#[test]
fn a_plugin_that_fails_to_load_is_reported() {
    let mut app = signed_app();
    app.require_signed = false;
    let p = facts("p", None, None, None);
    let t = toast_of(app.approve_plugin(&p, Some("syntax".to_string())));
    assert!(t.contains("syntax"));
}

#[test]
fn keys_are_trusted_by_match_or_first_consent() {
    assert_eq!(decide_key_trust(PinOutcome::Match, false), KeyDecision::Allow);
    assert_eq!(decide_key_trust(PinOutcome::New, true), KeyDecision::Allow);
    assert_eq!(decide_key_trust(PinOutcome::New, false), KeyDecision::NeedsFirstConsent);
    assert_eq!(decide_key_trust(PinOutcome::Mismatch, true), KeyDecision::BlockKeyChanged);
}

#[test]
fn the_launch_notice_names_the_worst() {
    assert_eq!(plugin_launch_toast(None, 0, 0, 0), None);
    let t = plugin_launch_toast(None, 1, 1, 2).expect("there is a notice");
    assert!(t.contains("BLOCKED") && t.contains('2'));
    assert_eq!(
        plugin_launch_toast(Some("before".to_string()), 0, 0, 0).as_deref(),
        Some("before")
    );
    let (kp, pk) = gen_pk();
    let sig = sign_entry(&kp);
    let ps = vec![
        facts("a", Some(&pk), Some(&sig), Some("other")),
        facts("b", Some(&pk), Some(&sig), None),
    ];
    assert!(asks_pinned_key(&ps[0], &Vec::new(), true));
    let gates: Vec<Gate> =
        ps.iter().map(|p| gate(p, &Vec::new(), &Vec::new(), true)).collect();
    assert_eq!(ids_with_gate(&ps, &gates, Gate::KeyChanged), vec!["a"]);
}

#[test]
fn a_launch_sorts_the_plugins_it_finds() {
    let mut trust = signed_app();
    trust.disabled = vec!["off".to_string()];
    let plugin = |id: &str, pin: Option<PinOutcome>| PluginFacts {
        id: id.to_string(),
        app_version_ok: true,
        entry_sha: Some("abc".to_string()),
        signed: true,
        signature_ok: true,
        pin,
    };
    let found = vec![
        plugin("off", Some(PinOutcome::Match)),
        plugin("known", Some(PinOutcome::Match)),
        plugin("fresh", Some(PinOutcome::New)),
        plugin("taken", Some(PinOutcome::Mismatch)),
        plugin("lost", None),
    ];
    let (gates, toast) = trust.decide_launch(&found, 0, Some("before".to_string()));
    assert_eq!(
        gates,
        vec![Gate::Skip, Gate::Run, Gate::Pending, Gate::KeyChanged, Gate::Refuse]
    );
    assert_eq!(trust.pending, vec!["fresh".to_string()]);
    assert!(toast.unwrap_or_default().starts_with("⚠ 1 plugin(s) BLOCKED"));
}
