//! Starting a language server for the tab in front.
use vstd::prelude::*;
use vstd::string::*;
use crate::app::{AppModel, ScribeApp};
use crate::tab;
use crate::text::str_eq;
use crate::theme;
use crate::theme::path_to_uri;

verus! {

/// What is known about language servers.
pub struct Servers {
    /// The language of the server that runs.
    pub running: Option<String>,
    /// The command of the server that is configured for the language of the tab in front.
    pub command: Option<String>,
    /// The folder that is shown in the tree, or else the folder of the file.
    pub root: Option<String>,
}

/// A server to start.
pub struct ServerStart {
    /// The URI of the folder; empty where there is none.
    pub root_uri: String,
    /// The URI of the file.
    pub file_uri: String,
    /// Its language.
    pub language: String,
}

/// Why no server is started.
pub enum NoStart {
    /// The language of the file is not known.
    NoLanguage,
    /// The tab has no file.
    NoFile,
    /// The server runs already.
    Running,
    /// There is no server for the language.
    NotConfigured,
}

/// Why no server is started for a tab, if none is.
pub open spec fn refusal(t: tab::TabModel, s: Servers) -> Option<NoStart> {
    if t.doc.language is None {
        Some(NoStart::NoLanguage)
    } else if t.doc.path is None {
        Some(NoStart::NoFile)
    } else if tab::opt_view(s.running) == t.doc.language {
        Some(NoStart::Running)
    } else if s.command is None {
        Some(NoStart::NotConfigured)
    } else {
        None
    }
}

/// A server is started exactly for a file whose language is known, has a server and is not
/// served already; of the reasons against it the language comes first, the file next.
pub proof fn law_when_a_server_starts(t: tab::TabModel, s: Servers)
    ensures
        refusal(t, s) is None <==> t.doc.language is Some && t.doc.path is Some && tab::opt_view(
            s.running,
        ) != t.doc.language && s.command is Some,
        t.doc.language is None <==> refusal(t, s) == Some(NoStart::NoLanguage),
        t.doc.language is Some ==> (t.doc.path is None <==> refusal(t, s) == Some(NoStart::NoFile)),
        refusal(t, s) == Some(NoStart::Running) ==> s.running is Some && tab::opt_view(s.running)
            == t.doc.language,
        refusal(t, s) == Some(NoStart::NotConfigured) ==> s.command is None,
{
}

/// A refusal is said, and changes nothing else: no tab, and not what is open.
pub proof fn law_refusal_is_said(m: AppModel, why: NoStart)
    ensures
        refused(m, why).open == m.open,
        refused(m, why).surfaces == m.surfaces,
        why is Running ==> refused(m, why).toast == m.toast,
        !(why is Running) ==> refused(m, why).toast is Some && refused(m, why).status == m.status,
{
}

/// The state after a server was not started.
pub open spec fn refused(m: AppModel, why: NoStart) -> AppModel {
    match why {
        NoStart::NoLanguage => m.noted("no language detected for this file"@),
        NoStart::NoFile => m.noted("save the file before starting a language server"@),
        NoStart::Running => m.said("language server already running"@),
        NoStart::NotConfigured => m.noted(
            "no language server configured for ."@ + m.front().doc.language->Some_0,
        ),
    }
}

impl ScribeApp {
    /// See whether a language server can be started for the tab in front.
    pub fn start_lsp_for_active(&mut self, s: &Servers) -> (r: Option<ServerStart>)
        requires
            old(self).wf(),
        ensures
            final(self).wf(),
            match refusal(old(self)@.front(), *s) {
                Some(why) => r is None && final(self)@ == refused(old(self)@, why),
                None => final(self)@ == old(self)@ && match r {
                    Some(start) => {
                        &&& start.language@ == old(self)@.front().doc.language->Some_0
                        &&& start.file_uri@ == theme::uri_of(old(self)@.front().doc.path->Some_0)
                        &&& start.root_uri@ == match s.root {
                            Some(p) => theme::uri_of(p@),
                            None => Seq::empty(),
                        }
                    },
                    None => false,
                },
            },
    {
        let active: usize = self.open.active;
        assert(self@.front() == self.open.tabs@[active as int]@);
        let language = match &self.open.tabs[active].doc.language {
            Some(l) => l.clone(),
            None => {
                self.note("no language detected for this file".to_string());
                return None;
            },
        };
        let file_uri = match &self.open.tabs[active].doc.path {
            Some(p) => path_to_uri(p.as_str()),
            None => {
                self.note("save the file before starting a language server".to_string());
                return None;
            },
        };
        let running: bool = match &s.running {
            Some(l) => str_eq(l.as_str(), language.as_str()),
            None => false,
        };
        if running {
            self.say("language server already running".to_string());
            return None;
        }
        if s.command.is_none() {
            let mut m = "no language server configured for .".to_string();
            m.append(language.as_str());
            self.note(m);
            return None;
        }
        let root_uri = match &s.root {
            Some(p) => path_to_uri(p.as_str()),
            None => String::new(),
        };
        Some(ServerStart { root_uri, file_uri, language })
    }

    /// Say that the server was started, or why it could not be.
    pub fn lsp_started(&mut self, command: &str, started: Result<(), String>)
        ensures
            final(self)@ == match started {
                Ok(_) => old(self)@.said("language server started: "@ + command@),
                Err(e) => old(self)@.noted("could not start "@ + command@ + ": "@ + e@),
            },
    {
        match started {
            Ok(_) => {
                let mut s = "language server started: ".to_string();
                s.append(command);
                self.say(s);
            },
            Err(e) => {
                let mut s = "could not start ".to_string();
                s.append(command);
                s.append(": ");
                s.append(e.as_str());
                self.note(s);
            },
        }
    }
}

} // verus!
