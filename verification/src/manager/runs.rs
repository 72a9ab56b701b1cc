//! The install, removal and clean-up procedures, one package at a time.
//! Each procedure is a state machine: the manager decides, step by step,
//! what outside work comes next (fetch the versions of a project, remove a
//! file, download a file, report a package's outcome), and the caller does
//! that work and hands back what came of it.
use crate::manager::models::{opt_text, InstallRef, InstalledDependency};
use crate::manager::{
    same_settings, texts_set, DownloadPlan, InstallError, InstallPlan, InstallResult, Leftover, Manager,
    UninstallError, UninstallTarget, VersionQuery,
};
use crate::modrinth::models::Version;
use vstd::prelude::*;

verus! {

/// Where an install run stands with the current package.
pub enum InstallPhase {
    /// Ready to take up the next package.
    Ready,
    /// Waiting for the versions of the current package.
    AwaitVersions,
    /// Waiting for the previously installed file to be removed.
    AwaitRemoval(DownloadPlan),
    /// Waiting for the chosen file to be downloaded.
    AwaitDownload(DownloadPlan),
}

/// What the caller of an install run hands back.
#[derive(Debug, PartialEq, Eq)]
pub enum InstallEvent {
    /// Go on (at the start, and after a report).
    Continue,
    /// The versions of the current package, or why they could not be fetched.
    Fetched(Result<Vec<Version>, String>),
    /// Whether the previously installed file was removed.
    FileRemoved(Result<(), String>),
    /// Whether the chosen file was downloaded.
    Downloaded(Result<(), String>),
}

/// What an install run asks of its caller.
#[derive(Debug, PartialEq, Eq)]
pub enum InstallAction {
    /// Fetch the versions that answer this query.
    FetchVersions(VersionQuery),
    /// Remove this file from the artifacts directory.
    RemoveFile(String),
    /// Download `url` into the artifacts directory as `file_name`.
    Download { url: String, file_name: String },
    /// Show what became of the package at position `index`.
    Report { index: usize, outcome: Result<InstallResult, InstallError> },
    /// The run is over; whether some package failed.
    Finished(bool),
}

/// The state of an install run, as a value.
pub struct InstallRunView {
    pub packages: Seq<InstallRef>,
    pub force: bool,
    pub next: int,
    pub is_err: bool,
    /// For each package reported so far, whether it failed.
    pub failed: Seq<bool>,
    pub phase: InstallPhase,
}

impl InstallRunView {
    /// The run's bookkeeping is consistent: it has reported exactly the
    /// packages before `next`, and it is in error exactly when one of them
    /// failed.
    pub open spec fn wf(self) -> bool {
        &&& 0 <= self.next <= self.packages.len()
        &&& !(self.phase is Ready) ==> self.next < self.packages.len()
        &&& tally_ok(self.next, self.is_err, self.failed)
    }

    /// Whether `event` answers what the run is waiting for.
    pub open spec fn awaits(self, event: InstallEvent) -> bool {
        match self.phase {
            InstallPhase::Ready => event is Continue,
            InstallPhase::AwaitVersions => event is Fetched,
            InstallPhase::AwaitRemoval(_) => event is FileRemoved,
            InstallPhase::AwaitDownload(_) => event is Downloaded,
        }
    }

    /// The run after the current package was reported.
    pub open spec fn advanced(self, failed: bool) -> InstallRunView {
        InstallRunView {
            next: self.next + 1,
            is_err: self.is_err || failed,
            failed: self.failed.push(failed),
            phase: InstallPhase::Ready,
            ..self
        }
    }

    /// The run, now in `phase`.
    pub open spec fn in_phase(self, phase: InstallPhase) -> InstallRunView {
        InstallRunView { phase, ..self }
    }
}

/// A run of installs over a list of packages.
pub struct InstallRun {
    packages: Vec<InstallRef>,
    force: bool,
    next: usize,
    is_err: bool,
    failed: Ghost<Seq<bool>>,
    phase: InstallPhase,
}

impl View for InstallRun {
    type V = InstallRunView;

    closed spec fn view(&self) -> InstallRunView {
        InstallRunView {
            packages: self.packages@,
            force: self.force,
            next: self.next as int,
            is_err: self.is_err,
            failed: self.failed@,
            phase: self.phase,
        }
    }
}

/// A download is what the action asks for.
pub open spec fn download_of(p: DownloadPlan) -> InstallAction {
    InstallAction::Download { url: p.url, file_name: p.file_name }
}

/// What a completed download reports.
pub open spec fn installed_result(p: DownloadPlan) -> InstallResult {
    match p.replaced {
        Some(d) => InstallResult::Updated(d.version_name, p.version_number),
        None => InstallResult::New(p.version_number),
    }
}

/// `q` asks for the versions of `slug` that fit the project of `m`.
pub open spec fn is_query_for(q: VersionQuery, m: Manager, slug: Seq<char>) -> bool {
    &&& q.id_or_slug@ == slug
    &&& q.loaders@ == seq![m.project.loader]
    &&& q.game_versions@ == m.project.game_version.spec_list()
}

/// The project file and the install state are as they were.
pub open spec fn unchanged(a: Manager, b: Manager) -> bool {
    &&& a.installed() == b.installed()
    &&& a.wanted() == b.wanted()
    &&& same_settings(a.project, b.project)
}

/// One step of an install run, as `Manager::install_packages` takes it:
/// from manager `m0` and run `r0`, on `event`, to manager `m1` and run `r1`,
/// asking for `action`.
pub open spec fn install_step(
    m0: Manager,
    r0: InstallRunView,
    event: InstallEvent,
    m1: Manager,
    r1: InstallRunView,
    action: InstallAction,
) -> bool {
    let r = r0;
    let pkg = r.packages[r.next];
    let slug = pkg.id_or_slug@;
    let want = opt_text(pkg.version);
    match r.phase {
        InstallPhase::Ready => if r.next == r.packages.len() {
            &&& action == InstallAction::Finished(r.is_err)
            &&& r1 == r
            &&& unchanged(m1, m0)
        } else {
            match m0.kept_version(slug, want, r.force) {
                Some(n) => {
                    &&& action == (InstallAction::Report {
                        index: r.next as usize,
                        outcome: Ok(InstallResult::Skipped(n)),
                    })
                    &&& r1 == r.advanced(false)
                    &&& unchanged(m1, m0)
                },
                None => {
                    &&& action matches InstallAction::FetchVersions(q) && is_query_for(q, m0, slug)
                    &&& r1 == r.in_phase(InstallPhase::AwaitVersions)
                    &&& unchanged(m1, m0)
                },
            }
        },
        InstallPhase::AwaitVersions => match event {
            InstallEvent::Fetched(Err(e)) => {
                &&& action == (InstallAction::Report {
                    index: r.next as usize,
                    outcome: Err(InstallError::Fetch(e)),
                })
                &&& r1 == r.advanced(true)
                &&& unchanged(m1, m0)
            },
            InstallEvent::Fetched(Ok(vs)) => {
                &&& unchanged(m1, m0)
                &&& match m0.install_plan(slug, want, vs@) {
                    Err(e) => {
                        &&& action == (InstallAction::Report { index: r.next as usize, outcome: Err(e) })
                        &&& r1 == r.advanced(true)
                    },
                    Ok(InstallPlan::Skip(n)) => {
                        &&& action == (InstallAction::Report {
                            index: r.next as usize,
                            outcome: Ok(InstallResult::Skipped(n)),
                        })
                        &&& r1 == r.advanced(false)
                    },
                    Ok(InstallPlan::Download(p)) => match p.replaced {
                        Some(d) => {
                            &&& action == InstallAction::RemoveFile(d.file_name)
                            &&& r1 == r.in_phase(InstallPhase::AwaitRemoval(p))
                        },
                        None => {
                            &&& action == download_of(p)
                            &&& r1 == r.in_phase(InstallPhase::AwaitDownload(p))
                        },
                    },
                }
            },
            _ => false,
        },
        InstallPhase::AwaitRemoval(p) => match event {
            InstallEvent::FileRemoved(Err(e)) => {
                &&& action == (InstallAction::Report {
                    index: r.next as usize,
                    outcome: Err(InstallError::Remove(e)),
                })
                &&& r1 == r.advanced(true)
                &&& unchanged(m1, m0)
            },
            InstallEvent::FileRemoved(Ok(())) => {
                &&& action == download_of(p)
                &&& r1 == r.in_phase(InstallPhase::AwaitDownload(p))
                &&& unchanged(m1, m0)
            },
            _ => false,
        },
        InstallPhase::AwaitDownload(p) => match event {
            InstallEvent::Downloaded(Err(e)) => {
                &&& action == (InstallAction::Report {
                    index: r.next as usize,
                    outcome: Err(InstallError::Download(e)),
                })
                &&& r1 == r.advanced(true)
                &&& unchanged(m1, m0)
            },
            InstallEvent::Downloaded(Ok(())) => {
                &&& action == (InstallAction::Report {
                    index: r.next as usize,
                    outcome: Ok(installed_result(p)),
                })
                &&& r1 == r.advanced(false)
                &&& m1.installed() == m0.installed().insert(
                    slug,
                    InstalledDependency {
                        version_name: p.version_number,
                        version_id: p.version_id,
                        file_name: p.file_name,
                    },
                )
                &&& m1.wanted() == m0.wanted().insert(slug, p.version_number)
                &&& same_settings(m1.project, m0.project)
            },
            _ => false,
        },
    }
}

impl InstallRun {
    /// A run that installs `packages` in order; with `force`, a package is
    /// fetched again even if it is installed.
    pub fn new(packages: Vec<InstallRef>, force: bool) -> (res: InstallRun)
        ensures
            res@ == (InstallRunView {
                packages: packages@,
                force,
                next: 0,
                is_err: false,
                failed: Seq::empty(),
                phase: InstallPhase::Ready,
            }),
            res@.wf(),
    {
        InstallRun { packages, force, next: 0, is_err: false, failed: Ghost(Seq::empty()), phase: InstallPhase::Ready }
    }

    /// The package at position `i`.
    pub fn package(&self, i: usize) -> (res: &InstallRef)
        requires
            i < self@.packages.len(),
        ensures
            *res == self@.packages[i as int],
    {
        &self.packages[i]
    }

    /// Whether `event` answers what the run is waiting for.
    pub fn awaits(&self, event: &InstallEvent) -> (res: bool)
        ensures
            res == self@.awaits(*event),
    {
        match (&self.phase, event) {
            (InstallPhase::Ready, InstallEvent::Continue) => true,
            (InstallPhase::AwaitVersions, InstallEvent::Fetched(_)) => true,
            (InstallPhase::AwaitRemoval(_), InstallEvent::FileRemoved(_)) => true,
            (InstallPhase::AwaitDownload(_), InstallEvent::Downloaded(_)) => true,
            _ => false,
        }
    }

    /// Closes the current package with a report.
    fn report(&mut self, outcome: Result<InstallResult, InstallError>) -> (res: InstallAction)
        requires
            old(self)@.wf(),
            old(self)@.next < old(self)@.packages.len(),
        ensures
            final(self)@ == old(self)@.advanced(outcome is Err),
            final(self)@.wf(),
            res == (InstallAction::Report { index: old(self)@.next as usize, outcome }),
    {
        let index = self.next;
        let count = self.packages.len();
        assert(index < count);
        let failed = outcome.is_err();
        self.next = self.next + 1;
        self.is_err = self.is_err || failed;
        self.failed = Ghost(self.failed@.push(failed));
        self.phase = InstallPhase::Ready;
        proof {
            lemma_tally_push(old(self).next as int, old(self).is_err, old(self).failed@, failed);
        }
        InstallAction::Report { index, outcome }
    }
}

impl Manager {
    /// One step of an install run over the packages of `run`.
    ///
    /// For each package in order: a package that is installed, not forced,
    /// and asked for without a version or with the installed one is reported
    /// as skipped; otherwise its versions are fetched and the version to
    /// install chosen (`install_plan`); if that version is already installed
    /// the package is skipped, else the previously installed file is removed,
    /// the chosen file downloaded, and both the install state and the project
    /// file record the new version. Any failure is reported for that package
    /// alone and marks the run as failed. When all packages are done the run
    /// finishes, telling whether some package failed.
    pub fn install_packages(&mut self, run: &mut InstallRun, event: InstallEvent) -> (action: InstallAction)
        requires
            old(run)@.wf(),
            old(run)@.awaits(event),
        ensures
            final(run)@.wf(),
            final(run)@.packages == old(run)@.packages,
            final(run)@.force == old(run)@.force,
            install_step(*old(self), old(run)@, event, *final(self), final(run)@, action),
            old(self).records_agree() ==> final(self).records_agree(),
    {
        let mut phase = InstallPhase::Ready;
        std::mem::swap(&mut phase, &mut run.phase);
        match phase {
            InstallPhase::Ready => {
                if run.next == run.packages.len() {
                    return InstallAction::Finished(run.is_err);
                }
                let pkg = &run.packages[run.next];
                let version = match &pkg.version {
                    Some(v) => Some(v.as_str()),
                    None => None,
                };
                match self.skip_installed(pkg.id_or_slug.as_str(), version, run.force) {
                    Some(n) => run.report(Ok(InstallResult::Skipped(n))),
                    None => {
                        let q = self.version_query(pkg.id_or_slug.as_str());
                        run.phase = InstallPhase::AwaitVersions;
                        InstallAction::FetchVersions(q)
                    },
                }
            },
            InstallPhase::AwaitVersions => {
                match event {
                    InstallEvent::Fetched(Err(e)) => run.report(Err(InstallError::Fetch(e))),
                    InstallEvent::Fetched(Ok(vs)) => {
                        let pkg = &run.packages[run.next];
                        let version = match &pkg.version {
                            Some(v) => Some(v.as_str()),
                            None => None,
                        };
                        match self.plan_install(pkg.id_or_slug.as_str(), version, &vs) {
                            Err(e) => run.report(Err(e)),
                            Ok(InstallPlan::Skip(n)) => run.report(Ok(InstallResult::Skipped(n))),
                            Ok(InstallPlan::Download(p)) => {
                                match &p.replaced {
                                    Some(d) => {
                                        let f = d.file_name.clone();
                                        run.phase = InstallPhase::AwaitRemoval(p);
                                        InstallAction::RemoveFile(f)
                                    },
                                    None => {
                                        let url = p.url.clone();
                                        let file_name = p.file_name.clone();
                                        run.phase = InstallPhase::AwaitDownload(p);
                                        InstallAction::Download { url, file_name }
                                    },
                                }
                            },
                        }
                    },
                    _ => InstallAction::Finished(run.is_err),
                }
            },
            InstallPhase::AwaitRemoval(p) => {
                match event {
                    InstallEvent::FileRemoved(Err(e)) => run.report(Err(InstallError::Remove(e))),
                    InstallEvent::FileRemoved(Ok(())) => {
                        let url = p.url.clone();
                        let file_name = p.file_name.clone();
                        run.phase = InstallPhase::AwaitDownload(p);
                        InstallAction::Download { url, file_name }
                    },
                    _ => InstallAction::Finished(run.is_err),
                }
            },
            InstallPhase::AwaitDownload(p) => {
                match event {
                    InstallEvent::Downloaded(Err(e)) => run.report(Err(InstallError::Download(e))),
                    InstallEvent::Downloaded(Ok(())) => {
                        let slug = run.packages[run.next].id_or_slug.as_str();
                        let result = self.commit_install(slug, p);
                        run.report(Ok(result))
                    },
                    _ => InstallAction::Finished(run.is_err),
                }
            },
        }
    }
}

/// The facts kept about reported packages: how many, and whether any failed.
pub open spec fn tally_ok(next: int, is_err: bool, failed: Seq<bool>) -> bool {
    &&& failed.len() == next
    &&& is_err == failed.contains(true)
}

/// Appending an outcome keeps the tally.
proof fn lemma_tally_push(next: int, is_err: bool, failed: Seq<bool>, f: bool)
    requires
        tally_ok(next, is_err, failed),
    ensures
        tally_ok(next + 1, is_err || f, failed.push(f)),
{
    let g = failed.push(f);
    if g.contains(true) {
        let j = choose|j: int| 0 <= j < g.len() && g[j] == true;
        if j < g.len() - 1 {
            assert(failed[j] == true);
        }
    }
    if failed.contains(true) {
        let j = choose|j: int| 0 <= j < failed.len() && failed[j] == true;
        assert(g[j] == true);
    }
    if f {
        assert(g[g.len() - 1] == true);
    }
}

/// Where a removal run stands with the current package.
pub enum UninstallPhase {
    /// Ready to take up the next package.
    Ready,
    /// Waiting for the installed file to be removed; the version it held.
    AwaitRemoval(String),
}

/// What the caller of a removal or clean-up run hands back.
#[derive(Debug, PartialEq, Eq)]
pub enum UninstallEvent {
    /// Go on (at the start, and after a report).
    Continue,
    /// Whether the file was removed.
    FileRemoved(Result<(), String>),
}

/// What a removal run asks of its caller.
#[derive(Debug, PartialEq, Eq)]
pub enum UninstallAction {
    /// Remove this file from the artifacts directory.
    RemoveFile(String),
    /// Show what became of the package at position `index`: the version
    /// removed, or why it was not.
    Report { index: usize, outcome: Result<String, UninstallError> },
    /// The run is over; whether some package failed.
    Finished(bool),
}

/// The state of a removal run, as a value.
pub struct UninstallRunView {
    pub packages: Seq<String>,
    pub next: int,
    pub is_err: bool,
    pub failed: Seq<bool>,
    pub phase: UninstallPhase,
}

impl UninstallRunView {
    /// The run's bookkeeping is consistent.
    pub open spec fn wf(self) -> bool {
        &&& 0 <= self.next <= self.packages.len()
        &&& !(self.phase is Ready) ==> self.next < self.packages.len()
        &&& tally_ok(self.next, self.is_err, self.failed)
    }

    /// Whether `event` answers what the run is waiting for.
    pub open spec fn awaits(self, event: UninstallEvent) -> bool {
        match self.phase {
            UninstallPhase::Ready => event is Continue,
            UninstallPhase::AwaitRemoval(_) => event is FileRemoved,
        }
    }

    /// The run after the current package was reported.
    pub open spec fn advanced(self, failed: bool) -> UninstallRunView {
        UninstallRunView {
            next: self.next + 1,
            is_err: self.is_err || failed,
            failed: self.failed.push(failed),
            phase: UninstallPhase::Ready,
            ..self
        }
    }
}

/// A run of removals over a list of package names.
pub struct UninstallRun {
    packages: Vec<String>,
    next: usize,
    is_err: bool,
    failed: Ghost<Seq<bool>>,
    phase: UninstallPhase,
}

impl View for UninstallRun {
    type V = UninstallRunView;

    closed spec fn view(&self) -> UninstallRunView {
        UninstallRunView {
            packages: self.packages@,
            next: self.next as int,
            is_err: self.is_err,
            failed: self.failed@,
            phase: self.phase,
        }
    }
}

impl UninstallRun {
    /// A run that removes `packages` in order.
    pub fn new(packages: Vec<String>) -> (res: UninstallRun)
        ensures
            res@ == (UninstallRunView {
                packages: packages@,
                next: 0,
                is_err: false,
                failed: Seq::empty(),
                phase: UninstallPhase::Ready,
            }),
            res@.wf(),
    {
        UninstallRun { packages, next: 0, is_err: false, failed: Ghost(Seq::empty()), phase: UninstallPhase::Ready }
    }

    /// The package name at position `i`.
    pub fn package(&self, i: usize) -> (res: &String)
        requires
            i < self@.packages.len(),
        ensures
            *res == self@.packages[i as int],
    {
        &self.packages[i]
    }

    /// Whether `event` answers what the run is waiting for.
    pub fn awaits(&self, event: &UninstallEvent) -> (res: bool)
        ensures
            res == self@.awaits(*event),
    {
        match (&self.phase, event) {
            (UninstallPhase::Ready, UninstallEvent::Continue) => true,
            (UninstallPhase::AwaitRemoval(_), UninstallEvent::FileRemoved(_)) => true,
            _ => false,
        }
    }

    /// Closes the current package with a report.
    fn report(&mut self, outcome: Result<String, UninstallError>) -> (res: UninstallAction)
        requires
            old(self)@.wf(),
            old(self)@.next < old(self)@.packages.len(),
        ensures
            final(self)@ == old(self)@.advanced(outcome is Err),
            final(self)@.wf(),
            res == (UninstallAction::Report { index: old(self)@.next as usize, outcome }),
    {
        let index = self.next;
        let count = self.packages.len();
        assert(index < count);
        let failed = outcome.is_err();
        proof {
            lemma_tally_push(self.next as int, self.is_err, self.failed@, failed);
        }
        self.next = self.next + 1;
        self.is_err = self.is_err || failed;
        self.failed = Ghost(self.failed@.push(failed));
        self.phase = UninstallPhase::Ready;
        UninstallAction::Report { index, outcome }
    }
}

impl Manager {
    /// One step of a removal run over the package names of `run`.
    ///
    /// For each name in order: an installed package has its file removed
    /// first; once that succeeded, or right away for a package only listed
    /// in the project file, the package is forgotten by the install state
    /// and the project file, and the removed version reported. A package
    /// neither installed nor listed, or whose file could not be removed, is
    /// reported as failed and left as it was. When all names are done the run
    /// finishes, telling whether some package failed.
    pub fn uninstall_packages(&mut self, run: &mut UninstallRun, event: UninstallEvent) -> (action: UninstallAction)
        requires
            old(run)@.wf(),
            old(run)@.awaits(event),
        ensures
            final(run)@.wf(),
            final(run)@.packages == old(run)@.packages,
            ({
                let r = old(run)@;
                let key = r.packages[r.next]@;
                match r.phase {
                    UninstallPhase::Ready => if r.next == r.packages.len() {
                        &&& action == UninstallAction::Finished(r.is_err)
                        &&& final(run)@ == r
                        &&& unchanged(*final(self), *old(self))
                    } else if old(self).installed().contains_key(key) {
                        &&& action == UninstallAction::RemoveFile(old(self).installed()[key].file_name)
                        &&& final(run)@ == (UninstallRunView {
                            phase: UninstallPhase::AwaitRemoval(old(self).installed()[key].version_name),
                            ..r
                        })
                        &&& unchanged(*final(self), *old(self))
                    } else if old(self).wanted().contains_key(key) {
                        &&& action == (UninstallAction::Report { index: r.next as usize, outcome: Ok(old(self).wanted()[key]) })
                        &&& final(run)@ == r.advanced(false)
                        &&& final(self).installed() == old(self).installed().remove(key)
                        &&& final(self).wanted() == old(self).wanted().remove(key)
                        &&& same_settings(final(self).project, old(self).project)
                    } else {
                        &&& action matches UninstallAction::Report { index, outcome: Err(UninstallError::NotInstalled(k)) }
                            && index == r.next && k@ == key
                        &&& final(run)@ == r.advanced(true)
                        &&& unchanged(*final(self), *old(self))
                    },
                    UninstallPhase::AwaitRemoval(version) => match event {
                        UninstallEvent::FileRemoved(Err(e)) => {
                            &&& action == (UninstallAction::Report {
                                index: r.next as usize,
                                outcome: Err(UninstallError::Remove(e)),
                            })
                            &&& final(run)@ == r.advanced(true)
                            &&& unchanged(*final(self), *old(self))
                        },
                        UninstallEvent::FileRemoved(Ok(())) => {
                            &&& action == (UninstallAction::Report { index: r.next as usize, outcome: Ok(version) })
                            &&& final(run)@ == r.advanced(false)
                            &&& final(self).installed() == old(self).installed().remove(key)
                            &&& final(self).wanted() == old(self).wanted().remove(key)
                            &&& same_settings(final(self).project, old(self).project)
                        },
                        _ => false,
                    },
                }
            }),
            old(self).records_agree() ==> final(self).records_agree(),
    {
        let mut phase = UninstallPhase::Ready;
        std::mem::swap(&mut phase, &mut run.phase);
        match phase {
            UninstallPhase::Ready => {
                if run.next == run.packages.len() {
                    return UninstallAction::Finished(run.is_err);
                }
                let key = run.packages[run.next].as_str();
                match self.uninstall_target(key) {
                    UninstallTarget::RemoveFile { file_name, version } => {
                        run.phase = UninstallPhase::AwaitRemoval(version);
                        UninstallAction::RemoveFile(file_name)
                    },
                    UninstallTarget::Forget(version) => {
                        self.commit_uninstall(key);
                        run.report(Ok(version))
                    },
                    UninstallTarget::NotInstalled => {
                        let k = run.packages[run.next].clone();
                        run.report(Err(UninstallError::NotInstalled(k)))
                    },
                }
            },
            UninstallPhase::AwaitRemoval(version) => {
                match event {
                    UninstallEvent::FileRemoved(Err(e)) => run.report(Err(UninstallError::Remove(e))),
                    UninstallEvent::FileRemoved(Ok(())) => {
                        let key = run.packages[run.next].as_str();
                        self.commit_uninstall(key);
                        run.report(Ok(version))
                    },
                    _ => UninstallAction::Finished(run.is_err),
                }
            },
        }
    }
}

/// Where a clean-up run stands.
pub enum CleanupPhase {
    /// Ready to take up the next leftover.
    Ready,
    /// Waiting for the current leftover's file to be removed.
    AwaitRemoval,
}

/// The state of a clean-up run, as a value.
pub struct CleanupRunView {
    /// The installed packages no longer listed, when the run began.
    pub pending: Seq<Leftover>,
    pub next: int,
    pub is_err: bool,
    pub failed: Seq<bool>,
    /// The names of the leftovers whose files were removed.
    pub deleted: Seq<String>,
    pub phase: CleanupPhase,
}

/// The names of the leftovers among the first `n` whose removal succeeded.
pub open spec fn removed_names(pending: Seq<Leftover>, failed: Seq<bool>, n: int) -> Seq<Seq<char>>
    decreases n,
{
    if n <= 0 {
        Seq::empty()
    } else if failed[n - 1] {
        removed_names(pending, failed, n - 1)
    } else {
        removed_names(pending, failed, n - 1).push(pending[n - 1].key@)
    }
}

/// Outcomes appended later do not change the names among the first `n`.
proof fn lemma_removed_names_push(pending: Seq<Leftover>, failed: Seq<bool>, f: bool, n: int)
    requires
        n <= failed.len(),
    ensures
        removed_names(pending, failed.push(f), n) == removed_names(pending, failed, n),
    decreases n,
{
    if n > 0 {
        lemma_removed_names_push(pending, failed, f, n - 1);
        assert(failed.push(f)[n - 1] == failed[n - 1]);
    }
}

impl CleanupRunView {
    /// The run's bookkeeping is consistent: the deleted names are those of
    /// the leftovers reported without failure.
    pub open spec fn wf(self) -> bool {
        &&& 0 <= self.next <= self.pending.len()
        &&& self.phase is AwaitRemoval ==> self.next < self.pending.len()
        &&& tally_ok(self.next, self.is_err, self.failed)
        &&& self.deleted.map_values(|s: String| s@) == removed_names(self.pending, self.failed, self.next)
    }

    /// Whether `event` answers what the run is waiting for.
    pub open spec fn awaits(self, event: UninstallEvent) -> bool {
        match self.phase {
            CleanupPhase::Ready => event is Continue,
            CleanupPhase::AwaitRemoval => event is FileRemoved,
        }
    }
}

/// A run that removes the installed packages the project file no longer lists.
pub struct CleanupRun {
    pending: Vec<Leftover>,
    next: usize,
    is_err: bool,
    failed: Ghost<Seq<bool>>,
    deleted: Vec<String>,
    phase: CleanupPhase,
}

impl View for CleanupRun {
    type V = CleanupRunView;

    closed spec fn view(&self) -> CleanupRunView {
        CleanupRunView {
            pending: self.pending@,
            next: self.next as int,
            is_err: self.is_err,
            failed: self.failed@,
            deleted: self.deleted@,
            phase: self.phase,
        }
    }
}

impl CleanupRun {
    /// A run over the leftovers of `manager`: its installed packages that
    /// its project file does not list (see `Manager::leftovers`).
    pub fn new(manager: &Manager) -> (res: CleanupRun)
        ensures
            res@.next == 0,
            !res@.is_err,
            res@.phase is Ready,
            res@.wf(),
            forall|i: int| 0 <= i < res@.pending.len() ==> {
                let e = #[trigger] res@.pending[i];
                &&& manager.installed().contains_key(e.key@)
                &&& !manager.wanted().contains_key(e.key@)
                &&& e.version_name == manager.installed()[e.key@].version_name
                &&& e.file_name == manager.installed()[e.key@].file_name
            },
            forall|k: Seq<char>| #[trigger] manager.installed().contains_key(k) && !manager.wanted().contains_key(k)
                ==> exists|i: int| 0 <= i < res@.pending.len() && #[trigger] res@.pending[i].key@ == k,
            forall|i: int, j: int| 0 <= i < j < res@.pending.len() ==> res@.pending[i].key@ != res@.pending[j].key@,
    {
        let res = CleanupRun {
            pending: manager.leftovers(),
            next: 0,
            is_err: false,
            failed: Ghost(Seq::empty()),
            deleted: Vec::new(),
            phase: CleanupPhase::Ready,
        };
        assert(res@.deleted.map_values(|s: String| s@) =~= Seq::<Seq<char>>::empty());
        res
    }

    /// The leftover at position `i`.
    pub fn leftover(&self, i: usize) -> (res: &Leftover)
        requires
            i < self@.pending.len(),
        ensures
            *res == self@.pending[i as int],
    {
        &self.pending[i]
    }

    /// Whether `event` answers what the run is waiting for.
    pub fn awaits(&self, event: &UninstallEvent) -> (res: bool)
        ensures
            res == self@.awaits(*event),
    {
        match (&self.phase, event) {
            (CleanupPhase::Ready, UninstallEvent::Continue) => true,
            (CleanupPhase::AwaitRemoval, UninstallEvent::FileRemoved(_)) => true,
            _ => false,
        }
    }
}

impl Manager {
    /// One step of a clean-up run.
    ///
    /// For each leftover in turn its file is removed; the leftover is
    /// reported with its version, or, if the file could not be removed, as
    /// failed. When all are done, the install state forgets every leftover
    /// whose file was removed, and the run finishes, telling whether some
    /// removal failed.
    pub fn uninstall_removed_packages(&mut self, run: &mut CleanupRun, event: UninstallEvent) -> (action: UninstallAction)
        requires
            old(run)@.wf(),
            old(run)@.awaits(event),
        ensures
            final(run)@.wf(),
            final(run)@.pending == old(run)@.pending,
            ({
                let r = old(run)@;
                match r.phase {
                    CleanupPhase::Ready => if r.next == r.pending.len() {
                        &&& action == UninstallAction::Finished(r.is_err)
                        &&& final(run)@ == r
                        &&& final(self).installed() == old(self).installed().remove_keys(texts_set(r.deleted))
                        &&& final(self).project == old(self).project
                    } else {
                        &&& action == UninstallAction::RemoveFile(r.pending[r.next].file_name)
                        &&& final(run)@ == (CleanupRunView { phase: CleanupPhase::AwaitRemoval, ..r })
                        &&& unchanged(*final(self), *old(self))
                    },
                    CleanupPhase::AwaitRemoval => match event {
                        UninstallEvent::FileRemoved(Err(e)) => {
                            &&& action == (UninstallAction::Report {
                                index: r.next as usize,
                                outcome: Err(UninstallError::Remove(e)),
                            })
                            &&& final(run)@.next == r.next + 1
                            &&& final(run)@.is_err
                            &&& final(run)@.failed == r.failed.push(true)
                            &&& final(run)@.deleted == r.deleted
                            &&& final(run)@.phase is Ready
                            &&& unchanged(*final(self), *old(self))
                        },
                        UninstallEvent::FileRemoved(Ok(())) => {
                            &&& action == (UninstallAction::Report {
                                index: r.next as usize,
                                outcome: Ok(r.pending[r.next].version_name),
                            })
                            &&& final(run)@.next == r.next + 1
                            &&& final(run)@.is_err == r.is_err
                            &&& final(run)@.failed == r.failed.push(false)
                            &&& final(run)@.deleted == r.deleted.push(r.pending[r.next].key)
                            &&& final(run)@.phase is Ready
                            &&& unchanged(*final(self), *old(self))
                        },
                        _ => false,
                    },
                }
            }),
            old(self).records_agree() ==> final(self).records_agree(),
    {
        let mut phase = CleanupPhase::Ready;
        std::mem::swap(&mut phase, &mut run.phase);
        match phase {
            CleanupPhase::Ready => {
                if run.next == run.pending.len() {
                    self.forget_installed(&run.deleted);
                    return UninstallAction::Finished(run.is_err);
                }
                run.phase = CleanupPhase::AwaitRemoval;
                UninstallAction::RemoveFile(run.pending[run.next].file_name.clone())
            },
            CleanupPhase::AwaitRemoval => {
                let count = run.pending.len();
                let index = run.next;
                assert(index < count);
                match event {
                    UninstallEvent::FileRemoved(Err(e)) => {
                        proof {
                            lemma_tally_push(run.next as int, run.is_err, run.failed@, true);
                            lemma_removed_names_push(run.pending@, run.failed@, true, run.next as int);
                        }
                        run.next = run.next + 1;
                        run.is_err = true;
                        run.failed = Ghost(run.failed@.push(true));
                        UninstallAction::Report { index, outcome: Err(UninstallError::Remove(e)) }
                    },
                    UninstallEvent::FileRemoved(Ok(())) => {
                        proof {
                            lemma_tally_push(run.next as int, run.is_err, run.failed@, false);
                            lemma_removed_names_push(run.pending@, run.failed@, false, run.next as int);
                        }
                        let ghost before = run.deleted@;
                        run.deleted.push(run.pending[index].key.clone());
                        run.next = run.next + 1;
                        run.failed = Ghost(run.failed@.push(false));
                        proof {
                            assert(run.deleted@.map_values(|s: String| s@) =~= before.map_values(|s: String| s@).push(
                                run.pending@[index as int].key@,
                            ));
                        }
                        UninstallAction::Report { index, outcome: Ok(run.pending[index].version_name.clone()) }
                    },
                    _ => UninstallAction::Finished(run.is_err),
                }
            },
        }
    }
}

} // verus!
