//! Crash reports and issue reports: what is sent, and when.
use vstd::prelude::*;
use vstd::string::*;

verus! {

/// What the user allows for crash reports.
#[derive(Clone, Copy, Debug, PartialEq, Eq, Structural)]
pub enum ReportingMode {
    /// They are not kept.
    Off,
    /// Each is shown and asked about.
    AskEachTime,
    /// They are sent.
    Always,
}

/// What happens at launch to crash reports that an earlier session left.
#[derive(Clone, Copy, Debug, PartialEq, Eq, Structural)]
pub enum SpoolStep {
    /// Nothing.
    Leave,
    /// They are sent.
    SendAll,
    /// The consent window is shown for them.
    Ask,
}

/// What happens at launch to crash reports that an earlier session left. Without a
/// place for them there are none.
pub fn drain_crash_spool(has_config_dir: bool, mode: ReportingMode) -> (s: SpoolStep)
    ensures
        s == (if !has_config_dir {
            SpoolStep::Leave
        } else {
            match mode {
                ReportingMode::Always => SpoolStep::SendAll,
                ReportingMode::AskEachTime => SpoolStep::Ask,
                ReportingMode::Off => SpoolStep::Leave,
            }
        }),
{
    if !has_config_dir {
        return SpoolStep::Leave;
    }
    match mode {
        ReportingMode::Always => SpoolStep::SendAll,
        ReportingMode::AskEachTime => SpoolStep::Ask,
        ReportingMode::Off => SpoolStep::Leave,
    }
}

/// What the user wants for future crashes.
#[derive(Clone, Copy, Debug, PartialEq, Eq, Structural)]
pub enum RememberChoice {
    /// Ask again.
    JustThisTime,
    /// Send them all.
    Always,
    /// Send none.
    Never,
}

/// The setting that a choice is kept as; "just this time" keeps none.
pub open spec fn persisted_mode(c: RememberChoice) -> Option<ReportingMode> {
    match c {
        RememberChoice::JustThisTime => None,
        RememberChoice::Always => Some(ReportingMode::Always),
        RememberChoice::Never => Some(ReportingMode::Off),
    }
}

/// "Just this time" changes no setting; the other two choices are kept as what they say, so that
/// a "never" sends nothing and asks nothing from then on.
pub proof fn law_choice_is_kept_as_said(c: RememberChoice)
    ensures
        persisted_mode(c) is None <==> c is JustThisTime,
        persisted_mode(c) == Some(ReportingMode::Always) <==> c is Always,
        persisted_mode(c) == Some(ReportingMode::Off) <==> c is Never,
{
}

/// The answer to "send a crash report?".
#[derive(Clone, Copy, Debug, PartialEq, Eq, Structural)]
pub enum ConsentAnswer {
    /// Send it.
    Send,
    /// Do not.
    DontSend,
}

/// What an answer leads to.
#[derive(Clone, Copy, Debug, PartialEq, Eq, Structural)]
pub struct ConsentOutcome {
    /// The setting for future crashes, where it is to be kept.
    pub keep_mode: Option<ReportingMode>,
    /// The report is sent.
    pub send: bool,
    /// The report is thrown away.
    pub discard: bool,
}

/// Take the answer in the consent window. The choice for future crashes is kept with
/// either answer; nothing is sent without "send", and without an answer nothing
/// happens.
pub fn crash_consent(pending: bool, answer: Option<ConsentAnswer>, remember: Option<RememberChoice>) -> (o:
    ConsentOutcome)
    ensures
        o.send == (pending && answer == Some(ConsentAnswer::Send)),
        o.discard == (pending && answer == Some(ConsentAnswer::DontSend)),
        o.keep_mode == (if pending && answer is Some && remember is Some {
            persisted_mode(remember->0)
        } else {
            None
        }),
{
    if !pending {
        return ConsentOutcome { keep_mode: None, send: false, discard: false };
    }
    match answer {
        None => ConsentOutcome { keep_mode: None, send: false, discard: false },
        Some(a) => {
            let keep_mode = match remember {
                None => None,
                Some(RememberChoice::JustThisTime) => None,
                Some(RememberChoice::Always) => Some(ReportingMode::Always),
                Some(RememberChoice::Never) => Some(ReportingMode::Off),
            };
            ConsentOutcome {
                keep_mode,
                send: a == ConsentAnswer::Send,
                discard: a == ConsentAnswer::DontSend,
            }
        },
    }
}

/// What an issue report is about.
#[derive(Clone, Copy, Debug, PartialEq, Eq, Structural)]
pub enum IssueKind {
    /// Something is broken.
    Bug,
    /// Something is wanted.
    Feature,
    /// Something else.
    Other,
}

/// What came of an issue report.
#[derive(Clone, Copy, Debug, PartialEq, Eq, Structural)]
pub enum IntakeOutcome {
    /// The browser shows a prefilled issue.
    OpenedDeepLink,
    /// The report is on the clipboard.
    CopiedToClipboard,
    /// The mail client shows it.
    OpenedMailto,
    /// It failed.
    Failed,
}

/// What was clicked in the report window.
#[derive(Clone, Copy, Debug, PartialEq, Eq, Structural)]
pub enum IntakeClick {
    /// "Open on GitHub".
    Submit,
    /// "Email instead".
    Email,
    /// "Cancel".
    Cancel,
}

/// How the report leaves the window.
#[derive(Clone, Copy, Debug, PartialEq, Eq, Structural)]
pub enum IntakeSend {
    /// By the browser or the clipboard.
    Issue,
    /// By mail.
    Mail,
}

/// The report window.
pub struct IssueIntake {
    /// It is shown.
    pub open: bool,
    /// What the report is about.
    pub kind: IssueKind,
    /// What the user wrote.
    pub description: String,
    /// Facts about the application are added.
    pub include_diagnostics: bool,
    /// What came of the last report.
    pub last_outcome: Option<IntakeOutcome>,
}

/// What an [`IssueIntake`] holds.
#[verifier::ext_equal]
pub struct IntakeModel {
    pub open: bool,
    pub kind: IssueKind,
    pub description: Seq<char>,
    pub include_diagnostics: bool,
    pub last_outcome: Option<IntakeOutcome>,
}

impl IntakeModel {
    /// The window for a new report: about a bug, empty, without diagnostics.
    pub open spec fn fresh(open: bool) -> IntakeModel {
        IntakeModel {
            open,
            kind: IssueKind::Bug,
            description: Seq::empty(),
            include_diagnostics: false,
            last_outcome: None,
        }
    }
}

/// A new report is about a bug, is empty, and adds no facts about the application unless it is
/// asked to.
pub proof fn law_new_report_is_empty(open: bool)
    ensures
        IntakeModel::fresh(open).open == open,
        IntakeModel::fresh(open).kind is Bug,
        IntakeModel::fresh(open).description.len() == 0,
        !IntakeModel::fresh(open).include_diagnostics,
        IntakeModel::fresh(open).last_outcome is None,
{
}

impl View for IssueIntake {
    type V = IntakeModel;

    open spec fn view(&self) -> IntakeModel {
        IntakeModel {
            open: self.open,
            kind: self.kind,
            description: self.description@,
            include_diagnostics: self.include_diagnostics,
            last_outcome: self.last_outcome,
        }
    }
}

impl IssueIntake {
    /// The window, closed.
    pub fn new() -> (s: IssueIntake)
        ensures
            s@ == IntakeModel::fresh(false),
    {
        IssueIntake {
            open: false,
            kind: IssueKind::Bug,
            description: String::new(),
            include_diagnostics: false,
            last_outcome: None,
        }
    }

    /// Show the window for a new report: about a bug, empty, without diagnostics.
    pub fn open_fresh(&mut self)
        ensures
            final(self)@ == IntakeModel::fresh(true),
    {
        self.open = true;
        self.kind = IssueKind::Bug;
        self.description = String::new();
        self.include_diagnostics = false;
        self.last_outcome = None;
    }

    /// Exactly what would be sent: the description and, when they are asked for, the
    /// diagnostics.
    pub fn preview_body(&self, diagnostics: &str) -> (s: String)
        ensures
            s@ == (if self.include_diagnostics {
                self.description@ + "\n\n"@ + diagnostics@
            } else {
                self.description@
            }),
    {
        let mut s = self.description.clone();
        if self.include_diagnostics {
            s.append("\n\n");
            s.append(diagnostics);
        }
        s
    }

    /// Take what was clicked. A button closes the window, and so does Escape; "Email
    /// instead" needs an address. Gives how the report is sent, if it is.
    pub fn click(&mut self, clicked: Option<IntakeClick>, has_alias: bool, escape: bool) -> (send:
        Option<IntakeSend>)
        ensures
            send == (if !old(self).open {
                None
            } else {
                match clicked {
                    Some(IntakeClick::Submit) => Some(IntakeSend::Issue),
                    Some(IntakeClick::Email) => if has_alias {
                        Some(IntakeSend::Mail)
                    } else {
                        None
                    },
                    _ => None,
                }
            }),
            final(self)@ == (IntakeModel {
                open: old(self).open && send is None && clicked != Some(IntakeClick::Cancel) && !(
                escape && (clicked is None || clicked == Some(IntakeClick::Email))),
                ..old(self)@
            }),
    {
        if !self.open {
            return None;
        }
        let mut send: Option<IntakeSend> = None;
        let mut button: bool = false;
        match clicked {
            Some(IntakeClick::Submit) => {
                send = Some(IntakeSend::Issue);
                button = true;
            },
            Some(IntakeClick::Email) => {
                if has_alias {
                    send = Some(IntakeSend::Mail);
                    button = true;
                }
            },
            Some(IntakeClick::Cancel) => {
                button = true;
            },
            None => {},
        }
        if button || escape {
            self.open = false;
        }
        send
    }

    /// Remember what came of a report.
    pub fn sent(&mut self, outcome: IntakeOutcome)
        ensures
            final(self)@ == (IntakeModel { last_outcome: Some(outcome), ..old(self)@ }),
    {
        self.last_outcome = Some(outcome);
    }

    /// What the window says of the last report.
    pub fn outcome_text(&self) -> (s: Option<String>)
        ensures
            match (self.last_outcome, s) {
                (None, None) => true,
                (Some(o), Some(x)) => x@ == (match o {
                    IntakeOutcome::OpenedDeepLink => "Opened a prefilled issue in your browser."@,
                    IntakeOutcome::CopiedToClipboard =>
                        "The report was copied to your clipboard — paste it into a new GitHub issue."@,
                    IntakeOutcome::OpenedMailto => "Opened your mail client."@,
                    IntakeOutcome::Failed =>
                        "Could not complete the action — please try Email instead."@,
                }),
                _ => false,
            },
    {
        match self.last_outcome {
            None => None,
            Some(IntakeOutcome::OpenedDeepLink) => Some(
                "Opened a prefilled issue in your browser.".to_string(),
            ),
            Some(IntakeOutcome::CopiedToClipboard) => Some(
                "The report was copied to your clipboard — paste it into a new GitHub issue.".to_string(),
            ),
            Some(IntakeOutcome::OpenedMailto) => Some("Opened your mail client.".to_string()),
            Some(IntakeOutcome::Failed) => Some(
                "Could not complete the action — please try Email instead.".to_string(),
            ),
        }
    }
}

} // verus!
