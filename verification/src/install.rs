//! The steps of installing one compiler version, and what is reported of
//! them.

use vstd::prelude::*;
use crate::compile::{Solc, SolcView};
use crate::version::{written, Version, VersionView};

verus! {

/// How far an installation has come.
#[derive(Debug, Clone, Copy, PartialEq, Eq, Structural)]
pub enum InstallPhase {
    /// Nothing was done yet.
    Requested,
    /// The start was reported and the download runs.
    Downloading,
    /// The version is installed, and that was reported.
    Installed,
    /// The download failed, and that was reported.
    Failed,
}

/// What happened to an installation.
#[derive(Debug, PartialEq, Eq)]
pub enum InstallEvent {
    /// The caller wants the installation to begin.
    Begin,
    /// The download ended; the binary lies at this path.
    Downloaded(String),
    /// The download failed, for this reason.
    DownloadFailed(String),
}

/// What the caller has to do next.
#[derive(Debug, PartialEq, Eq)]
pub enum InstallAction {
    /// Report that the installation of the version starts, then download
    /// it.
    Download { version: Version },
    /// Report that the version is installed; this is the handle on it.
    Succeed { version: Version, solc: Solc },
    /// Report that the installation of the version failed, with this
    /// message; the installation is over.
    Fail { version: Version, message: String },
    /// The event does not belong here: report nothing, do nothing.
    Ignore,
}

/// What an [`InstallEvent`] stands for.
pub enum InstallEventView {
    Begin,
    Downloaded(Seq<char>),
    DownloadFailed(Seq<char>),
}

/// What an [`InstallAction`] stands for.
pub enum InstallActionView {
    Download { version: VersionView },
    Succeed { version: VersionView, solc: SolcView },
    Fail { version: VersionView, message: Seq<char> },
    Ignore,
}

impl View for InstallEvent {
    type V = InstallEventView;

    open spec fn view(&self) -> InstallEventView {
        match self {
            InstallEvent::Begin => InstallEventView::Begin,
            InstallEvent::Downloaded(path) => InstallEventView::Downloaded(path@),
            InstallEvent::DownloadFailed(message) => InstallEventView::DownloadFailed(message@),
        }
    }
}

impl View for InstallAction {
    type V = InstallActionView;

    open spec fn view(&self) -> InstallActionView {
        match self {
            InstallAction::Download { version } => InstallActionView::Download {
                version: version@,
            },
            InstallAction::Succeed { version, solc } => InstallActionView::Succeed {
                version: version@,
                solc: solc@,
            },
            InstallAction::Fail { version, message } => InstallActionView::Fail {
                version: version@,
                message: message@,
            },
            InstallAction::Ignore => InstallActionView::Ignore,
        }
    }
}

/// What is reported of an installation.
pub enum Report {
    Start(VersionView),
    Success(VersionView),
    Error(VersionView, Seq<char>),
}

/// The installation of one version.
#[derive(Debug)]
pub struct Installation {
    version: Version,
    phase: InstallPhase,
}

/// The handle on a binary of `version` that was installed at `path`.
pub open spec fn installed_at(path: Seq<char>, version: VersionView) -> SolcView {
    SolcView {
        solc: path,
        version,
        base_path: None,
        allow_paths: Seq::empty(),
        include_paths: Seq::empty(),
    }
}

/// The phase that follows `phase` on `event`, and what is to be done.
pub open spec fn transition(version: VersionView, phase: InstallPhase, event: InstallEventView) -> (
    InstallPhase,
    InstallActionView,
) {
    match (phase, event) {
        (InstallPhase::Requested, InstallEventView::Begin) => (
            InstallPhase::Downloading,
            InstallActionView::Download { version },
        ),
        (InstallPhase::Downloading, InstallEventView::Downloaded(path)) => (
            InstallPhase::Installed,
            InstallActionView::Succeed { version, solc: installed_at(path, version) },
        ),
        (InstallPhase::Downloading, InstallEventView::DownloadFailed(message)) => (
            InstallPhase::Failed,
            InstallActionView::Fail { version, message },
        ),
        _ => (phase, InstallActionView::Ignore),
    }
}

/// What is reported when `action` is done.
pub open spec fn report_of(action: InstallActionView) -> Seq<Report> {
    match action {
        InstallActionView::Download { version } => seq![Report::Start(version)],
        InstallActionView::Succeed { version, solc } => seq![Report::Success(version)],
        InstallActionView::Fail { version, message } => seq![Report::Error(version, message)],
        InstallActionView::Ignore => Seq::empty(),
    }
}

/// All that is reported while the events happen one after the other to an
/// installation of `version` that is in `phase`.
pub open spec fn reports(version: VersionView, phase: InstallPhase, events: Seq<InstallEventView>) -> Seq<
    Report,
>
    decreases events.len(),
{
    if events.len() == 0 {
        Seq::empty()
    } else {
        let (next, action) = transition(version, phase, events[0]);
        report_of(action) + reports(version, next, events.drop_first())
    }
}

/// Whether the reports are those of one attempt, as far as it has come:
/// nothing; the start; or the start and then either the success or the
/// failure.
pub open spec fn one_attempt(version: VersionView, reports: Seq<Report>) -> bool {
    ||| reports.len() == 0
    ||| reports.len() == 1 && reports[0] == Report::Start(version)
    ||| reports.len() == 2 && reports[0] == Report::Start(version) && (reports[1]
        == Report::Success(version) || exists|message: Seq<char>|
        reports[1] == Report::Error(version, message))
}

impl Installation {
    /// The version that is installed.
    pub closed spec fn version(&self) -> VersionView {
        self.version@
    }

    /// How far the installation has come.
    pub closed spec fn phase(&self) -> InstallPhase {
        self.phase
    }

    /// An installation of `version` of which nothing was done yet.
    pub fn new(version: &Version) -> (r: Installation)
        ensures
            r.version() == version@,
            r.phase() == InstallPhase::Requested,
    {
        Installation { version: version.clone(), phase: InstallPhase::Requested }
    }

    /// How far the installation has come.
    pub fn current_phase(&self) -> (r: InstallPhase)
        ensures
            r == self.phase(),
    {
        self.phase
    }

    /// Takes note of what happened and says what to do next. The start is
    /// reported when the installation begins, the success or the failure
    /// when the download has ended; an event out of turn changes nothing
    /// and has nothing reported.
    pub fn step(&mut self, event: InstallEvent) -> (action: InstallAction)
        ensures
            final(self).version() == old(self).version(),
            (final(self).phase(), action@) == transition(
                old(self).version(),
                old(self).phase(),
                event@,
            ),
    {
        match (self.phase, event) {
            (InstallPhase::Requested, InstallEvent::Begin) => {
                self.phase = InstallPhase::Downloading;
                InstallAction::Download { version: self.version.clone() }
            },
            (InstallPhase::Downloading, InstallEvent::Downloaded(path)) => {
                self.phase = InstallPhase::Installed;
                InstallAction::Succeed {
                    version: self.version.clone(),
                    solc: Solc::new_with_version(path, self.version.clone()),
                }
            },
            (InstallPhase::Downloading, InstallEvent::DownloadFailed(message)) => {
                self.phase = InstallPhase::Failed;
                InstallAction::Fail { version: self.version.clone(), message }
            },
            _ => InstallAction::Ignore,
        }
    }
}

/// Where the binary of `version` lies under the root of all
/// installations: in the directory named as the version is written, in the
/// file `solc-` and the version.
pub fn installed_binary(version: &Version) -> (r: (String, String))
    ensures
        r.0@ == written(version@),
        r.1@ == "solc-"@ + written(version@),
{
    let directory = version.to_string();
    let mut file = "solc-".to_owned();
    file.append(directory.as_str());
    (directory, file)
}

impl Solc {
    /// Begins the installation of `version`: nothing is done yet, and the
    /// first step is to hand it the event that it may begin.
    pub fn install(version: &Version) -> (r: Installation)
        ensures
            r.version() == version@,
            r.phase() == InstallPhase::Requested,
    {
        Installation::new(version)
    }
}

/// Once an installation has ended, nothing more is reported.
pub proof fn lemma_ended_reports_nothing(
    version: VersionView,
    phase: InstallPhase,
    events: Seq<InstallEventView>,
)
    requires
        phase == InstallPhase::Installed || phase == InstallPhase::Failed,
    ensures
        reports(version, phase, events).len() == 0,
    decreases events.len(),
{
    if events.len() > 0 {
        lemma_ended_reports_nothing(version, phase, events.drop_first());
    }
}

/// While the download runs, at most its end is reported, and only once.
pub proof fn lemma_download_reports_its_end(version: VersionView, events: Seq<InstallEventView>)
    ensures
        ({
            let r = reports(version, InstallPhase::Downloading, events);
            r.len() == 0 || (r.len() == 1 && (r[0] == Report::Success(version) || exists|
                message: Seq<char>,
            |
                r[0] == Report::Error(version, message)))
        }),
    decreases events.len(),
{
    if events.len() > 0 {
        let (next, action) = transition(version, InstallPhase::Downloading, events[0]);
        let rest = reports(version, next, events.drop_first());
        match events[0] {
            InstallEventView::Begin => {
                lemma_download_reports_its_end(version, events.drop_first());
                assert(reports(version, InstallPhase::Downloading, events) =~= rest);
            },
            InstallEventView::Downloaded(path) => {
                lemma_ended_reports_nothing(version, next, events.drop_first());
                assert(reports(version, InstallPhase::Downloading, events) =~= seq![
                    Report::Success(version),
                ]);
            },
            InstallEventView::DownloadFailed(message) => {
                lemma_ended_reports_nothing(version, next, events.drop_first());
                assert(reports(version, InstallPhase::Downloading, events) =~= seq![
                    Report::Error(version, message),
                ]);
                assert(reports(version, InstallPhase::Downloading, events)[0] == Report::Error(
                    version,
                    message,
                ));
            },
        }
    }
}

/// Whatever events happen to a new installation, and in whatever order,
/// the start is reported at most once, the end at most once and only
/// behind the start, and a success never together with a failure.
pub proof fn lemma_reports_one_attempt(version: VersionView, events: Seq<InstallEventView>)
    ensures
        one_attempt(version, reports(version, InstallPhase::Requested, events)),
    decreases events.len(),
{
    if events.len() > 0 {
        let (next, action) = transition(version, InstallPhase::Requested, events[0]);
        let rest = reports(version, next, events.drop_first());
        match events[0] {
            InstallEventView::Begin => {
                lemma_download_reports_its_end(version, events.drop_first());
                let all = reports(version, InstallPhase::Requested, events);
                assert(all =~= seq![Report::Start(version)] + rest);
                if rest.len() == 1 {
                    assert(all[1] == rest[0]);
                }
            },
            _ => {
                lemma_reports_one_attempt(version, events.drop_first());
                assert(reports(version, InstallPhase::Requested, events) =~= rest);
            },
        }
    }
}

} // verus!
