//! A launch: what was found on the command line, in the last session and in the settings,
//! made the state that the editor starts with.
use vstd::prelude::*;
use vstd::string::*;
use crate::app::{AppModel, QueriesModel, Requests, ScribeApp, Toggles};
use crate::find;
use crate::plugins::PluginManager;
use crate::reporting::IntakeModel;
use crate::restore;
use crate::restore::{
    config_error_toast, launch, launch_source, open_cli_files, open_listed_files,
    restore_tabs_from_manifest, welcome_on_launch, CliFile, LaunchSource, ListedFile, RestoreEntry,
};
use crate::shortcuts::Surfaces;
use crate::tab;
use crate::tab::EditorTab;
use crate::tabs;

verus! {

/// The settings that a launch goes by.
pub struct LaunchSettings {
    /// The chosen theme.
    pub theme: String,
    /// The settings that commands turn over.
    pub toggles: Toggles,
    /// Unsaved content is backed up and comes back.
    pub session_backup: bool,
    /// The files of the last session are opened again.
    pub restore_session: bool,
    /// The welcome window was answered.
    pub first_run_completed: bool,
    /// How many files are remembered as recent.
    pub recent_files: usize,
    /// The name of the program.
    pub product: String,
    /// What stands behind the name.
    pub tagline: String,
}

/// What a launch finds.
pub struct Found {
    /// The files named on the command line.
    pub cli: Vec<CliFile>,
    /// The session manifest: its tabs and which of them was in front.
    pub manifest: Option<(Vec<RestoreEntry>, usize)>,
    /// The files of the paths-only session list.
    pub listed: Vec<ListedFile>,
}

/// The tabs that the manifest restores to, and the one in front.
pub open spec fn manifest_tabs(
    manifest: Option<(Vec<RestoreEntry>, usize)>,
    restore_session: bool,
) -> (Seq<tab::TabModel>, int) {
    match manifest {
        Some((entries, active)) => {
            let m = restore::restored(entries@, restore_session);
            (m.tabs, restore::restored_active(m, active as int))
        },
        None => (Seq::empty(), 0),
    }
}

/// The tabs at a launch: those of the command line; else, in a real launch with backups on,
/// those of the manifest; else, with "restore session" on, those of the list; else a new,
/// empty one.
pub open spec fn launched(s: LaunchSettings, f: Found, with_past: bool) -> tabs::TabsModel {
    let cli = restore::cli_tabs(f.cli@, f.cli@.len() as int);
    let (kept, front) = manifest_tabs(f.manifest, s.restore_session);
    let listed = restore::listed_tabs(f.listed@, f.listed@.len() as int);
    if cli.len() > 0 {
        restore::launch_tabs(cli, 0)
    } else if with_past && s.session_backup && kept.len() > 0 {
        restore::launch_tabs(kept, front)
    } else if s.restore_session && listed.len() > 0 {
        restore::launch_tabs(listed, 0)
    } else {
        restore::launch_tabs(Seq::empty(), 0)
    }
}

/// The notice at a launch: of the last named file that could not be read, or else of a
/// configuration that could not be.
pub open spec fn launch_toast(f: Found, config_error: Option<Seq<char>>) -> Option<Seq<char>> {
    restore::cli_toast(
        f.cli@,
        match config_error {
            Some(e) => Some("config: "@ + e + " (using defaults)"@),
            None => None,
        },
        f.cli@.len() as int,
    )
}

/// The state that a launch starts with.
pub open spec fn started(
    s: LaunchSettings,
    f: Found,
    config_error: Option<Seq<char>>,
    with_past: bool,
) -> AppModel {
    AppModel {
        open: launched(s, f, with_past),
        surfaces: Surfaces {
            welcome_open: !s.first_run_completed && f.cli@.len() == 0 && s.recent_files == 0,
            ..Surfaces::spec_closed()
        },
        queries: QueriesModel {
            palette: Seq::empty(),
            goto: Seq::empty(),
            goto_symbol: Seq::empty(),
            fuzzy: Seq::empty(),
            fuzzy_selected: 0,
        },
        toggles: s.toggles,
        theme: s.theme@,
        folds: Set::empty(),
        plugin_manager: PluginManager::spec_closed(),
        issue_intake: IntakeModel::fresh(false),
        requests: Requests {
            jump_bracket: false,
            insert_datetime: false,
            dup_selection: false,
            editor_action: None,
        },
        status: s.product@ + " — "@ + s.tagline@,
        toast: launch_toast(f, config_error),
    }
}

fn restore_manifest(manifest: Option<(Vec<RestoreEntry>, usize)>, restore_session: bool) -> (r: (
    Vec<EditorTab>,
    usize,
))
    ensures
        tabs::models(r.0@) == manifest_tabs(manifest, restore_session).0,
        r.0@.len() > 0 ==> r.1 == manifest_tabs(manifest, restore_session).1,
{
    match manifest {
        Some((entries, active)) => match restore_tabs_from_manifest(
            entries,
            active,
            restore_session,
        ) {
            Some(r) => r,
            None => {
                let none: Vec<EditorTab> = Vec::new();
                assert(tabs::models(none@) =~= Seq::<tab::TabModel>::empty());
                assert(restore::restored(entries@, restore_session).tabs =~= Seq::<
                    tab::TabModel,
                >::empty());
                (none, 0)
            },
        },
        None => {
            let none: Vec<EditorTab> = Vec::new();
            assert(tabs::models(none@) =~= Seq::<tab::TabModel>::empty());
            (none, 0)
        },
    }
}

impl ScribeApp {
    /// Start with what was found.
    fn build(s: LaunchSettings, config_error: Option<String>, found: Found, with_past: bool) -> (a:
        ScribeApp)
        ensures
            a.wf(),
            a@ == started(s, found, tab::opt_view(config_error), with_past),
    {
        let ghost f = found;
        let welcome: bool = welcome_on_launch(
            s.first_run_completed,
            found.cli.len(),
            s.recent_files,
        );
        let Found { cli, manifest, listed } = found;
        let (cli_tabs, toast) = open_cli_files(cli, config_error_toast(&config_error));
        let (kept, front) = restore_manifest(manifest, s.restore_session);
        let old_files = open_listed_files(listed);
        let source = launch_source(
            cli_tabs.len(),
            with_past,
            s.session_backup,
            kept.len(),
            s.restore_session,
            old_files.len(),
        );
        let open = match source {
            LaunchSource::CommandLine => launch(cli_tabs, 0),
            LaunchSource::Manifest => launch(kept, front),
            LaunchSource::List => launch(old_files, 0),
            LaunchSource::Scratch => {
                let none: Vec<EditorTab> = Vec::new();
                assert(tabs::models(none@) =~= Seq::<tab::TabModel>::empty());
                launch(none, 0)
            },
        };
        let mut status = s.product;
        status.append(" — ");
        status.append(s.tagline.as_str());
        ScribeApp::with_tabs(open, s.theme, s.toggles, welcome, status, toast)
    }

    /// Start the editor: with the files named on the command line, or else with what the
    /// last session left. `config_error` says why the settings could not be read.
    pub fn new(s: LaunchSettings, config_error: Option<String>, found: Found) -> (a: ScribeApp)
        ensures
            a.wf(),
            a@ == started(s, found, tab::opt_view(config_error), true),
    {
        ScribeApp::build(s, config_error, found, true)
    }

    /// Start without a past: nothing of the last session comes back, and one empty tab is
    /// open.
    pub fn new_test(s: LaunchSettings) -> (a: ScribeApp)
        ensures
            a.wf(),
            a@ == (AppModel {
                open: tabs::TabsModel {
                    tabs: seq![tab::scratch_tab()],
                    active: 0,
                    closed: Seq::empty(),
                },
                surfaces: Surfaces {
                    welcome_open: !s.first_run_completed && s.recent_files == 0,
                    ..Surfaces::spec_closed()
                },
                queries: QueriesModel {
                    palette: Seq::empty(),
                    goto: Seq::empty(),
                    goto_symbol: Seq::empty(),
                    fuzzy: Seq::empty(),
                    fuzzy_selected: 0,
                },
                toggles: s.toggles,
                theme: s.theme@,
                folds: Set::empty(),
                plugin_manager: PluginManager::spec_closed(),
                issue_intake: IntakeModel::fresh(false),
                requests: Requests {
                    jump_bracket: false,
                    insert_datetime: false,
                    dup_selection: false,
                    editor_action: None,
                },
                status: s.product@ + " — "@ + s.tagline@,
                toast: None,
            }),
    {
        let found = Found { cli: Vec::new(), manifest: None, listed: Vec::new() };
        ScribeApp::build(LaunchSettings { restore_session: false, ..s }, None, found, false)
    }
}

/// The entries of the session manifest.
pub open spec fn manifest_entries(f: Found) -> Seq<RestoreEntry> {
    match f.manifest {
        Some((entries, _)) => entries@,
        None => Seq::empty(),
    }
}

/// A file named on the command line comes before the last session: nothing of the session is
/// opened beside it.
pub proof fn law_command_line_comes_first(s: LaunchSettings, f: Found, with_past: bool)
    requires
        restore::cli_tabs(f.cli@, f.cli@.len() as int).len() > 0,
    ensures
        launched(s, f, with_past).tabs == restore::cli_tabs(f.cli@, f.cli@.len() as int),
        launched(s, f, with_past).active == 0,
{
}

/// A bare launch brings the unsaved content of the last session back even with "restore
/// session" off, as long as backups are on.
pub proof fn law_unsaved_content_comes_back(s: LaunchSettings, f: Found, k: int)
    requires
        f.cli@.len() == 0,
        s.session_backup,
        0 <= k < manifest_entries(f).len(),
        manifest_entries(f)[k].backup is Content,
    ensures
        ({
            let r = restore::restored(manifest_entries(f), s.restore_session);
            &&& launched(s, f, true).tabs == r.tabs
            &&& r.placed[k] matches Some(j) && 0 <= j < r.tabs.len()
        }),
{
    restore::lemma_content_is_placed(manifest_entries(f), s.restore_session, k);
}

/// A bare launch of a real editor with backups on opens what the manifest restores, with the tab
/// in front that was in front where that tab comes back.
pub proof fn law_manifest_comes_back(s: LaunchSettings, f: Found)
    requires
        f.cli@.len() == 0,
        s.session_backup,
        f.manifest is Some,
        restore::restored(manifest_entries(f), s.restore_session).tabs.len() > 0,
    ensures
        ({
            let (entries, front) = f.manifest->0;
            let r = restore::restored(entries@, s.restore_session);
            let m = launched(s, f, true);
            &&& m.tabs == r.tabs
            &&& front < entries@.len() && restore::candidate(
                entries@[front as int],
                s.restore_session,
            ) is Some ==> r.placed[front as int] == Some(m.active)
            &&& m.closed.len() == 0
        }),
{
    let (entries, front) = f.manifest->0;
    restore::law_restore_brings_back_the_front(entries@, s.restore_session, front as int);
    assert(restore::cli_tabs(f.cli@, 0).len() == 0);
}

/// Without backups, or where the manifest restores nothing, the list is opened, and only with
/// "restore session" on; its first file is in front.
pub proof fn law_list_comes_after_the_manifest(s: LaunchSettings, f: Found, with_past: bool)
    requires
        f.cli@.len() == 0,
        !with_past || !s.session_backup || f.manifest is None,
    ensures
        ({
            let t = restore::listed_tabs(f.listed@, f.listed@.len() as int);
            let m = launched(s, f, with_past);
            &&& s.restore_session && t.len() > 0 ==> m.tabs == t && m.active == 0
            &&& !s.restore_session || t.len() == 0 ==> m.tabs.len() == 1 && m.active == 0
                && m.tabs[0].text.len() == 0 && m.tabs[0].doc.path is None
        }),
{
}

/// The welcome window opens at the first launch alone: not once it was answered, not for a file
/// named on the command line, not with recent files. Nothing else is open, and nothing waits.
pub proof fn law_welcome_at_the_first_launch(
    s: LaunchSettings,
    f: Found,
    config_error: Option<Seq<char>>,
    with_past: bool,
)
    ensures
        ({
            let m = started(s, f, config_error, with_past);
            &&& m.surfaces.welcome_open <==> !s.first_run_completed && f.cli@.len() == 0
                && s.recent_files == 0
            &&& !m.surfaces.palette_open && !m.surfaces.find_open && !m.surfaces.fold_view
            &&& m.toggles == s.toggles
            &&& m.theme == s.theme@
            &&& m.requests.editor_action is None && !m.requests.jump_bracket
                && !m.requests.insert_datetime && !m.requests.dup_selection
            &&& find::contains(m.status, s.product@) && find::contains(m.status, s.tagline@)
        }),
{
    let st = s.product@ + " — "@ + s.tagline@;
    find::lemma_stands_between(Seq::empty(), s.product@, " — "@ + s.tagline@);
    find::lemma_stands_between(s.product@ + " — "@, s.tagline@, Seq::empty());
    assert(Seq::<char>::empty() + s.product@ + (" — "@ + s.tagline@) =~= st);
    assert(s.product@ + " — "@ + s.tagline@ + Seq::<char>::empty() =~= st);
}

/// A configuration that could not be read is named in the notice, unless a file of the command
/// line could not be read either; without an error there is no notice.
pub proof fn law_launch_names_the_config_error(f: Found, config_error: Option<Seq<char>>)
    requires
        forall|i: int| 0 <= i < f.cli@.len() ==> (#[trigger] f.cli@[i]).loaded is Ok,
    ensures
        config_error is None ==> launch_toast(f, config_error) is None,
        config_error matches Some(e) ==> launch_toast(f, config_error) is Some && find::contains(
            launch_toast(f, config_error)->0,
            e,
        ),
{
    let n = f.cli@.len() as int;
    let before = match config_error {
        Some(e) => Some("config: "@ + e + " (using defaults)"@),
        None => None,
    };
    if n > 0 {
        restore::law_cli_notice_is_of_the_last_failure(f.cli@, before, n, 0);
    }
    if let Some(e) = config_error {
        find::lemma_stands_between("config: "@, e, " (using defaults)"@);
    }
}

} // verus!
