//! Update checks at launch and the update prompt.
use vstd::prelude::*;
use vstd::string::*;
use crate::find;
use crate::tab;

verus! {

/// How the user wants to hear of updates.
#[derive(Clone, Copy, Debug, PartialEq, Eq, Structural)]
pub enum UpdateMode {
    /// Not at all.
    Off,
    /// Only when asked.
    Manual,
    /// By a banner at launch.
    Notify,
    /// By a download in the background.
    Auto,
}

/// What a check at launch is for.
#[derive(Clone, Copy, Debug, PartialEq, Eq, Structural)]
pub enum LaunchKind {
    /// To show a banner.
    Notify,
    /// To offer the download.
    Auto,
}

/// The check that a launch makes, if any.
pub open spec fn launch_kind(mode: UpdateMode, check_due: bool) -> Option<LaunchKind> {
    match mode {
        UpdateMode::Off => None,
        UpdateMode::Manual => None,
        UpdateMode::Notify => if check_due {
            Some(LaunchKind::Notify)
        } else {
            None
        },
        UpdateMode::Auto => if check_due {
            Some(LaunchKind::Auto)
        } else {
            None
        },
    }
}

/// Decide on the check that a launch makes. Off and manual never use the network by
/// themselves; the other two make one check when the interval has passed (`check_due`).
pub fn update_launch_action(mode: UpdateMode, check_due: bool) -> (k: Option<LaunchKind>)
    ensures
        k == launch_kind(mode, check_due),
{
    match mode {
        UpdateMode::Off => None,
        UpdateMode::Manual => None,
        UpdateMode::Notify => {
            if check_due {
                Some(LaunchKind::Notify)
            } else {
                None
            }
        },
        UpdateMode::Auto => {
            if check_due {
                Some(LaunchKind::Auto)
            } else {
                None
            }
        },
    }
}

/// A launch makes a check exactly when the user wants to hear of updates by themselves,
/// by a banner or by a download, and one is due: off and manual never make one.
pub proof fn law_no_silent_checks(mode: UpdateMode, check_due: bool)
    ensures
        launch_kind(mode, check_due) is Some <==> check_due && (mode is Notify || mode is Auto),
        launch_kind(mode, check_due) matches Some(k) ==> (k is Notify <==> mode is Notify),
{
}

/// The clock's reading: seconds since the epoch, or zero before it.
pub fn unix_or_zero(since_epoch: Option<u64>) -> (t: u64)
    ensures
        t == (match since_epoch {
            Some(s) => s,
            None => 0,
        }),
{
    match since_epoch {
        Some(s) => s,
        None => 0,
    }
}

/// `SystemTime::now`: the seconds that the system clock counts since the epoch, or
/// `None` while it stands before the epoch. Nothing is claimed of the reading.
#[verifier::external_body]
fn clock_since_epoch() -> (r: Option<u64>) {
    std::time::SystemTime::now().duration_since(std::time::UNIX_EPOCH).ok().map(|d| d.as_secs())
}

/// Current wall-clock time in seconds since the epoch; zero when the clock stands
/// before it. The reading is the machine's: no clause says what it is.
pub fn now_unix() -> (t: u64) {
    unix_or_zero(clock_since_epoch())
}

/// When the launch check runs.
pub struct UpdateSchedule {
    /// It ran in this launch.
    pub did_check: bool,
    /// How the user wants to hear of updates.
    pub mode: UpdateMode,
    /// When a check was last made.
    pub last_check_unix: Option<u64>,
}

impl UpdateSchedule {
    /// Decide, once per launch, on the check to make. The time of a check is recorded, and
    /// is to be saved: the interval counts from it, in later sessions too.
    pub fn maybe_remind_update(&mut self, check_due: bool, now: u64) -> (k: Option<LaunchKind>)
        ensures
            final(self).did_check,
            final(self).mode == old(self).mode,
            k == (if old(self).did_check {
                None
            } else {
                launch_kind(old(self).mode, check_due)
            }),
            final(self).last_check_unix == (if k is Some {
                Some(now)
            } else {
                old(self).last_check_unix
            }),
    {
        if self.did_check {
            return None;
        }
        self.did_check = true;
        let k = update_launch_action(self.mode, check_due);
        if k.is_some() {
            self.last_check_unix = Some(now);
        }
        k
    }
}

/// How an update stands.
pub enum UpdateState {
    /// Nothing was done.
    Idle,
    /// A check is under way.
    Checking,
    /// There is none.
    UpToDate,
    /// There is none for this platform.
    NoAssetForPlatform,
    /// This version can be had.
    Available(String),
    /// It is being downloaded and verified.
    Downloading,
    /// This version is ready: a restart finishes it.
    ReadyToApply(String),
    /// This version is ready: its installer finishes it.
    ReadyToRunInstaller(String),
    /// This version is in place.
    Applied(String),
    /// It failed, for this reason.
    Failed(String),
}

/// A button of the update prompt.
#[derive(Clone, Copy, Debug, PartialEq, Eq, Structural)]
pub enum PromptButton {
    /// Go on: download, restart or install.
    Proceed,
    /// Not now.
    Later,
    /// Away with it.
    Close,
}

/// What the prompt asks to be done.
#[derive(Clone, Copy, Debug, PartialEq, Eq, Structural)]
pub enum PromptAct {
    /// Download the version on offer.
    Download,
    /// Restart into the new version.
    Apply,
    /// Run the installer.
    RunInstaller,
    /// Do not offer this version again in this session.
    Skip,
    /// Close the prompt.
    Close,
}

/// What a click on the prompt, or its mere display, asks for.
pub open spec fn prompt_act(state: UpdateState, clicked: Option<PromptButton>) -> Option<PromptAct> {
    match state {
        UpdateState::Available(_) => match clicked {
            Some(PromptButton::Proceed) => Some(PromptAct::Download),
            Some(PromptButton::Later) => Some(PromptAct::Skip),
            _ => None,
        },
        UpdateState::Downloading => None,
        UpdateState::ReadyToApply(_) => match clicked {
            Some(PromptButton::Proceed) => Some(PromptAct::Apply),
            Some(PromptButton::Later) => Some(PromptAct::Close),
            _ => None,
        },
        UpdateState::ReadyToRunInstaller(_) => match clicked {
            Some(PromptButton::Proceed) => Some(PromptAct::RunInstaller),
            Some(PromptButton::Later) => Some(PromptAct::Close),
            _ => None,
        },
        UpdateState::Applied(_) => None,
        UpdateState::Failed(_) => match clicked {
            Some(PromptButton::Close) => Some(PromptAct::Close),
            _ => None,
        },
        _ => Some(PromptAct::Close),
    }
}

/// What the prompt says.
pub open spec fn prompt_text(state: UpdateState, current: Seq<char>) -> Seq<char> {
    match state {
        UpdateState::Available(v) => "SCR1B3 v"@ + v@ + " is available (you have v"@ + current
            + "). Update now?"@,
        UpdateState::Downloading => "Downloading and verifying…"@,
        UpdateState::ReadyToApply(v) => "v"@ + v@ + " downloaded and verified."@,
        UpdateState::ReadyToRunInstaller(v) => "v"@ + v@ + " downloaded and verified."@,
        UpdateState::Applied(v) => "Updated to v"@ + v@ + " — restarting…"@,
        UpdateState::Failed(e) => "Update failed: "@ + e@,
        _ => Seq::empty(),
    }
}

/// The update prompt and what was skipped.
pub struct UpdatePrompt {
    /// It is shown.
    pub show_prompt: bool,
    /// How the update stands.
    pub state: UpdateState,
    /// The version that is not offered again in this session.
    pub skipped_version: Option<String>,
}

impl UpdatePrompt {
    /// What the prompt says. `current` is the version that runs.
    pub fn text(&self, current: &str) -> (s: String)
        ensures
            s@ == prompt_text(self.state, current@),
    {
        match &self.state {
            UpdateState::Available(v) => {
                let mut s = "SCR1B3 v".to_string();
                s.append(v.as_str());
                s.append(" is available (you have v");
                s.append(current);
                s.append("). Update now?");
                s
            },
            UpdateState::Downloading => "Downloading and verifying…".to_string(),
            UpdateState::ReadyToApply(v) => {
                let mut s = "v".to_string();
                s.append(v.as_str());
                s.append(" downloaded and verified.");
                s
            },
            UpdateState::ReadyToRunInstaller(v) => {
                let mut s = "v".to_string();
                s.append(v.as_str());
                s.append(" downloaded and verified.");
                s
            },
            UpdateState::Applied(v) => {
                let mut s = "Updated to v".to_string();
                s.append(v.as_str());
                s.append(" — restarting…");
                s
            },
            UpdateState::Failed(e) => {
                let mut s = "Update failed: ".to_string();
                s.append(e.as_str());
                s
            },
            _ => String::new(),
        }
    }

    /// Take what was clicked on the prompt. "Later" on an offer skips that version; a
    /// prompt with nothing to say closes. Gives what the updater is asked to do.
    pub fn render_update_prompt(&mut self, clicked: Option<PromptButton>) -> (act: Option<PromptAct>)
        ensures
            final(self).state == old(self).state,
            act == (if old(self).show_prompt {
                prompt_act(old(self).state, clicked)
            } else {
                None
            }),
            final(self).show_prompt == (old(self).show_prompt && act != Some(PromptAct::Skip)
                && act != Some(PromptAct::Close)),
            tab::opt_view(final(self).skipped_version) == (if act == Some(PromptAct::Skip) {
                Some(old(self).state->Available_0@)
            } else {
                tab::opt_view(old(self).skipped_version)
            }),
    {
        if !self.show_prompt {
            return None;
        }
        let mut skipped: Option<String> = None;
        let act = match &self.state {
            UpdateState::Available(v) => match clicked {
                Some(PromptButton::Proceed) => Some(PromptAct::Download),
                Some(PromptButton::Later) => {
                    skipped = Some(v.clone());
                    Some(PromptAct::Skip)
                },
                _ => None,
            },
            UpdateState::Downloading => None,
            UpdateState::ReadyToApply(_) => match clicked {
                Some(PromptButton::Proceed) => Some(PromptAct::Apply),
                Some(PromptButton::Later) => Some(PromptAct::Close),
                _ => None,
            },
            UpdateState::ReadyToRunInstaller(_) => match clicked {
                Some(PromptButton::Proceed) => Some(PromptAct::RunInstaller),
                Some(PromptButton::Later) => Some(PromptAct::Close),
                _ => None,
            },
            UpdateState::Applied(_) => None,
            UpdateState::Failed(_) => match clicked {
                Some(PromptButton::Close) => Some(PromptAct::Close),
                _ => None,
            },
            _ => Some(PromptAct::Close),
        };
        match act {
            Some(PromptAct::Skip) => {
                self.skipped_version = skipped;
                self.show_prompt = false;
            },
            Some(PromptAct::Close) => {
                self.show_prompt = false;
            },
            _ => {},
        }
        act
    }
}

/// Nothing is downloaded, applied or installed without a click on "go on".
pub proof fn law_update_needs_a_click(state: UpdateState, clicked: Option<PromptButton>)
    requires
        clicked != Some(PromptButton::Proceed),
    ensures
        prompt_act(state, clicked) != Some(PromptAct::Download),
        prompt_act(state, clicked) != Some(PromptAct::Apply),
        prompt_act(state, clicked) != Some(PromptAct::RunInstaller),
{
}

/// "Go on" does the next thing: it downloads what is on offer, restarts into what is ready, and
/// runs the installer of what needs one. "Later" skips an offer, and only puts away what is ready.
/// A download in progress and a finished update take no click, and a prompt with nothing to say
/// goes away.
pub proof fn law_prompt_does_the_next_thing(v: String, clicked: Option<PromptButton>)
    ensures
        prompt_act(UpdateState::Available(v), Some(PromptButton::Proceed)) == Some(
            PromptAct::Download,
        ),
        prompt_act(UpdateState::ReadyToApply(v), Some(PromptButton::Proceed)) == Some(
            PromptAct::Apply,
        ),
        prompt_act(UpdateState::ReadyToRunInstaller(v), Some(PromptButton::Proceed)) == Some(
            PromptAct::RunInstaller,
        ),
        prompt_act(UpdateState::Available(v), Some(PromptButton::Later)) == Some(PromptAct::Skip),
        prompt_act(UpdateState::ReadyToApply(v), Some(PromptButton::Later)) == Some(
            PromptAct::Close,
        ),
        prompt_act(UpdateState::ReadyToRunInstaller(v), Some(PromptButton::Later)) == Some(
            PromptAct::Close,
        ),
        prompt_act(UpdateState::Failed(v), Some(PromptButton::Close)) == Some(PromptAct::Close),
        prompt_act(UpdateState::Downloading, clicked) is None,
        prompt_act(UpdateState::Applied(v), clicked) is None,
        prompt_act(UpdateState::Idle, clicked) == Some(PromptAct::Close),
        prompt_act(UpdateState::Checking, clicked) == Some(PromptAct::Close),
        prompt_act(UpdateState::UpToDate, clicked) == Some(PromptAct::Close),
        prompt_act(UpdateState::NoAssetForPlatform, clicked) == Some(PromptAct::Close),
        prompt_act(UpdateState::Available(v), None) is None,
        prompt_act(UpdateState::ReadyToApply(v), None) is None,
        prompt_act(UpdateState::ReadyToRunInstaller(v), None) is None,
        prompt_act(UpdateState::Failed(v), None) is None,
{
}

/// Only an offer can be skipped, and only by "later".
pub proof fn law_only_an_offer_is_skipped(state: UpdateState, clicked: Option<PromptButton>)
    ensures
        prompt_act(state, clicked) == Some(PromptAct::Skip) <==> state is Available && clicked
            == Some(PromptButton::Later),
{
}

/// The prompt names the version it speaks of, and an offer the one that runs; a failure is told
/// with its reason.
pub proof fn law_prompt_names_the_version(v: String, current: Seq<char>)
    ensures
        find::contains(prompt_text(UpdateState::Available(v), current), v@),
        find::contains(prompt_text(UpdateState::Available(v), current), current),
        find::contains(prompt_text(UpdateState::ReadyToApply(v), current), v@),
        find::contains(prompt_text(UpdateState::ReadyToRunInstaller(v), current), v@),
        find::contains(prompt_text(UpdateState::Applied(v), current), v@),
        find::contains(prompt_text(UpdateState::Failed(v), current), v@),
{
    let e = Seq::<char>::empty();
    let rest = " is available (you have v"@ + current + "). Update now?"@;
    find::lemma_stands_between("SCR1B3 v"@, v@, rest);
    assert(prompt_text(UpdateState::Available(v), current) =~= "SCR1B3 v"@ + v@ + rest);
    let front = "SCR1B3 v"@ + v@ + " is available (you have v"@;
    find::lemma_stands_between(front, current, "). Update now?"@);
    find::lemma_stands_between("v"@, v@, " downloaded and verified."@);
    find::lemma_stands_between("Updated to v"@, v@, " — restarting…"@);
    find::lemma_stands_between("Update failed: "@, v@, e);
    assert("Update failed: "@ + v@ =~= "Update failed: "@ + v@ + e);
}

/// What the update banner says.
pub fn notice_text(version: &str, current: &str) -> (s: String)
    ensures
        s@ == "SCR1B3 v"@ + version@ + " is available — you have v"@ + current@ + "."@,
{
    let mut s = "SCR1B3 v".to_string();
    s.append(version);
    s.append(" is available — you have v");
    s.append(current);
    s.append(".");
    s
}

} // verus!
