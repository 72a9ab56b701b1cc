//! The package manager: project file and install state together, and the
//! install and removal procedures that keep them in step.
pub mod models;
pub mod select;

use crate::manager::models::{minimum_of, InstallState, InstalledDependency, Project};
use crate::manager::select::{best_match, choose_version, find_primary, first_primary};
use crate::modrinth::models::{Loader, Version};
use crate::text::owned;
use vstd::prelude::*;

verus! {

/// What became of one package that was asked for.
#[derive(Debug, PartialEq, Eq)]
pub enum InstallResult {
    /// Nothing was done; the installed version is kept.
    Skipped(String),
    /// The version was installed where none was before.
    New(String),
    /// The previous version was replaced by the second.
    Updated(String, String),
}

/// Why a package could not be installed.
#[derive(Debug, PartialEq, Eq)]
pub enum InstallError {
    /// The versions of the project could not be fetched.
    Fetch(String),
    /// No version answers the request.
    NoSuitableVersion,
    /// The chosen version, named here, has no primary file.
    NoPrimaryFile(String),
    /// The previously installed file could not be removed.
    Remove(String),
    /// The new file could not be downloaded.
    Download(String),
}

impl InstallError {
    /// The text shown for the error.
    pub fn message(&self) -> (res: String)
        ensures
            res@ == match self {
                InstallError::Fetch(e) => e@,
                InstallError::NoSuitableVersion => "no suitable version found"@,
                InstallError::NoPrimaryFile(v) => "no file found for version "@ + v@,
                InstallError::Remove(e) => e@,
                InstallError::Download(e) => e@,
            },
    {
        match self {
            InstallError::Fetch(e) => e.clone(),
            InstallError::NoSuitableVersion => owned("no suitable version found"),
            InstallError::NoPrimaryFile(v) => {
                let mut s = owned("no file found for version ");
                s.append(v.as_str());
                s
            },
            InstallError::Remove(e) => e.clone(),
            InstallError::Download(e) => e.clone(),
        }
    }
}

/// The query for the versions of a project that fit the managed project:
/// its loader and its game versions.
#[derive(Debug, PartialEq, Eq)]
pub struct VersionQuery {
    pub id_or_slug: String,
    pub loaders: Vec<Loader>,
    pub game_versions: Vec<String>,
}

/// The download chosen for a package.
#[derive(Debug, PartialEq, Eq)]
pub struct DownloadPlan {
    pub version_number: String,
    pub version_id: String,
    pub url: String,
    pub file_name: String,
    /// What was installed before, to be removed first.
    pub replaced: Option<InstalledDependency>,
}

/// The decision taken once the versions of a package are known.
#[derive(Debug, PartialEq, Eq)]
pub enum InstallPlan {
    /// The chosen version is already installed, named here.
    Skip(String),
    Download(DownloadPlan),
}

/// What removing one package amounts to.
#[derive(Debug, PartialEq, Eq)]
pub enum UninstallTarget {
    /// Its installed file must go first; the version is reported afterwards.
    RemoveFile { file_name: String, version: String },
    /// It is only listed in the project file, with this version.
    Forget(String),
    /// It is neither installed nor listed.
    NotInstalled,
}

/// Why a package could not be removed.
#[derive(Debug, PartialEq, Eq)]
pub enum UninstallError {
    /// The package, named here, is neither installed nor listed.
    NotInstalled(String),
    /// Its installed file could not be removed.
    Remove(String),
}

impl UninstallError {
    /// The text shown for the error.
    pub fn message(&self) -> (res: String)
        ensures
            res@ == match self {
                UninstallError::NotInstalled(k) => "package "@ + k@ + " is not installed"@,
                UninstallError::Remove(e) => e@,
            },
    {
        match self {
            UninstallError::NotInstalled(k) => {
                let mut s = owned("package ");
                s.append(k.as_str());
                s.append(" is not installed");
                s
            },
            UninstallError::Remove(e) => e.clone(),
        }
    }
}

/// An installed package that the project file no longer lists.
#[derive(Debug, PartialEq, Eq)]
pub struct Leftover {
    pub key: String,
    pub version_name: String,
    pub file_name: String,
}

/// The project file and the install state of one directory.
pub struct Manager {
    pub project: Project,
    pub state: InstallState,
}

/// The view of an optional borrowed text.
pub open spec fn opt_str(o: Option<&str>) -> Option<Seq<char>> {
    match o {
        Some(s) => Some(s@),
        None => None,
    }
}

/// Two projects agree on everything but their dependencies.
pub open spec fn same_settings(a: Project, b: Project) -> bool {
    &&& a.game_version == b.game_version
    &&& a.loader == b.loader
    &&& a.artifacts_dir == b.artifacts_dir
    &&& a.minimum_version_type == b.minimum_version_type
}

impl Manager {
    /// What is installed, by package name.
    pub open spec fn installed(&self) -> Map<Seq<char>, InstalledDependency> {
        self.state.installed_dependencies@
    }

    /// What the project file lists, by package name.
    pub open spec fn wanted(&self) -> Map<Seq<char>, String> {
        self.project.dependencies@
    }

    /// Every installed package is listed in the project file with the
    /// version that is installed.
    pub open spec fn records_agree(&self) -> bool {
        forall|k: Seq<char>| #[trigger] self.installed().contains_key(k) ==> self.wanted().contains_key(k)
            && self.wanted()[k]@ == self.installed()[k].version_name@
    }

    /// A manager over a loaded project file and install state.
    pub fn new(project: Project, state: InstallState) -> (res: Manager)
        ensures
            res.project == project,
            res.state == state,
    {
        Manager { project, state }
    }

    /// The version that stays installed without fetching anything: a
    /// package already installed, not forced, and asked for without a
    /// version or with the installed one.
    pub open spec fn kept_version(&self, slug: Seq<char>, want: Option<Seq<char>>, force: bool) -> Option<String> {
        if self.installed().contains_key(slug) && !force && (want is None || want->0
            == self.installed()[slug].version_name@) {
            Some(self.installed()[slug].version_name)
        } else {
            None
        }
    }

    /// Decides whether a package can be skipped before its versions are fetched.
    pub fn skip_installed(&self, slug: &str, version: Option<&str>, force: bool) -> (res: Option<String>)
        ensures
            res == self.kept_version(slug@, opt_str(version), force),
    {
        match self.state.installed_dependencies.get(slug) {
            Some(d) => {
                if !force {
                    let same = match version {
                        Some(v) => crate::text::str_equal(v, d.version_name.as_str()),
                        None => true,
                    };
                    if same {
                        return Some(d.version_name.clone());
                    }
                }
                None
            },
            None => None,
        }
    }

    /// The query for the versions of `slug` that fit this project.
    pub fn version_query(&self, slug: &str) -> (res: VersionQuery)
        ensures
            res.id_or_slug@ == slug@,
            res.loaders@ == seq![self.project.loader],
            res.game_versions@ == self.project.game_version.spec_list(),
    {
        let list = self.project.game_version.as_list();
        let mut game_versions: Vec<String> = Vec::new();
        let mut i: usize = 0;
        while i < list.len()
            invariant
                list@ == self.project.game_version.spec_list(),
                i <= list@.len(),
                game_versions@ == list@.take(i as int),
            decreases list@.len() - i,
        {
            game_versions.push(list[i].clone());
            assert(game_versions@ =~= list@.take(i + 1));
            i = i + 1;
        }
        assert(list@.take(list@.len() as int) =~= list@);
        let mut loaders = Vec::new();
        loaders.push(self.project.loader);
        assert(loaders@ =~= seq![self.project.loader]);
        VersionQuery { id_or_slug: owned(slug), loaders, game_versions }
    }

    /// What is installed under `slug`, if anything.
    pub open spec fn installed_under(&self, slug: Seq<char>) -> Option<InstalledDependency> {
        if self.installed().contains_key(slug) {
            Some(self.installed()[slug])
        } else {
            None
        }
    }

    /// The decision for `slug` once its versions `vs` are known: the chosen
    /// version (see `best_match`) is skipped when it is the installed one,
    /// refused when it has no primary file, and otherwise its first primary
    /// file is to be downloaded in place of what was installed.
    pub open spec fn install_plan(&self, slug: Seq<char>, want: Option<Seq<char>>, vs: Seq<Version>) -> Result<InstallPlan, InstallError> {
        match best_match(vs, want, minimum_of(self.project.minimum_version_type)) {
            None => Err(InstallError::NoSuitableVersion),
            Some(i) => {
                let t = vs[i];
                if self.installed().contains_key(slug) && self.installed()[slug].version_id@ == t.id@ {
                    Ok(InstallPlan::Skip(self.installed()[slug].version_name))
                } else {
                    match first_primary(t.files@) {
                        None => Err(InstallError::NoPrimaryFile(t.version_number)),
                        Some(f) => Ok(
                            InstallPlan::Download(
                                DownloadPlan {
                                    version_number: t.version_number,
                                    version_id: t.id,
                                    url: t.files@[f].url,
                                    file_name: t.files@[f].filename,
                                    replaced: self.installed_under(slug),
                                },
                            ),
                        ),
                    }
                }
            },
        }
    }

    /// Decides what to do for `slug` given its fetched versions.
    pub fn plan_install(&self, slug: &str, version: Option<&str>, versions: &Vec<Version>) -> (res: Result<
        InstallPlan,
        InstallError,
    >)
        ensures
            res == self.install_plan(slug@, opt_str(version), versions@),
    {
        let minimum = self.project.minimum_version_type();
        let chosen = choose_version(versions, version, minimum);
        match chosen {
            None => Err(InstallError::NoSuitableVersion),
            Some(i) => {
                let t = &versions[i];
                let installed = self.state.installed_dependencies.get(slug);
                if let Some(d) = installed {
                    if crate::text::str_equal(d.version_id.as_str(), t.id.as_str()) {
                        return Ok(InstallPlan::Skip(d.version_name.clone()));
                    }
                }
                match find_primary(&t.files) {
                    None => Err(InstallError::NoPrimaryFile(t.version_number.clone())),
                    Some(f) => {
                        let file = &t.files[f];
                        let replaced = match installed {
                            Some(d) => Some(d.duplicate()),
                            None => None,
                        };
                        Ok(
                            InstallPlan::Download(
                                DownloadPlan {
                                    version_number: t.version_number.clone(),
                                    version_id: t.id.clone(),
                                    url: file.url.clone(),
                                    file_name: file.filename.clone(),
                                    replaced,
                                },
                            ),
                        )
                    },
                }
            },
        }
    }

    /// Records a completed download of `plan` for `slug` in the install state
    /// and the project file.
    pub fn commit_install(&mut self, slug: &str, plan: DownloadPlan) -> (res: InstallResult)
        ensures
            res == match plan.replaced {
                Some(d) => InstallResult::Updated(d.version_name, plan.version_number),
                None => InstallResult::New(plan.version_number),
            },
            final(self).installed() == old(self).installed().insert(
                slug@,
                InstalledDependency {
                    version_name: plan.version_number,
                    version_id: plan.version_id,
                    file_name: plan.file_name,
                },
            ),
            final(self).wanted() == old(self).wanted().insert(slug@, plan.version_number),
            same_settings(final(self).project, old(self).project),
            old(self).records_agree() ==> final(self).records_agree(),
    {
        let result = match &plan.replaced {
            Some(d) => InstallResult::Updated(d.version_name.clone(), plan.version_number.clone()),
            None => InstallResult::New(plan.version_number.clone()),
        };
        let number = plan.version_number.clone();
        self.state.installed_dependencies.insert(
            owned(slug),
            InstalledDependency {
                version_name: plan.version_number,
                version_id: plan.version_id,
                file_name: plan.file_name,
            },
        );
        self.project.dependencies.insert(owned(slug), number);
        proof {
            if old(self).records_agree() {
                assert forall|k: Seq<char>| #[trigger] self.installed().contains_key(k) implies self.wanted().contains_key(k)
                    && self.wanted()[k]@ == self.installed()[k].version_name@ by {
                    if k != slug@ {
                        assert(old(self).installed().contains_key(k));
                    }
                }
            }
        }
        result
    }

    /// What removing `key` takes.
    pub fn uninstall_target(&self, key: &str) -> (res: UninstallTarget)
        ensures
            res == if self.installed().contains_key(key@) {
                UninstallTarget::RemoveFile {
                    file_name: self.installed()[key@].file_name,
                    version: self.installed()[key@].version_name,
                }
            } else if self.wanted().contains_key(key@) {
                UninstallTarget::Forget(self.wanted()[key@])
            } else {
                UninstallTarget::NotInstalled
            },
    {
        match self.state.installed_dependencies.get(key) {
            Some(d) => UninstallTarget::RemoveFile {
                file_name: d.file_name.clone(),
                version: d.version_name.clone(),
            },
            None => match self.project.dependencies.get(key) {
                Some(v) => UninstallTarget::Forget(v.clone()),
                None => UninstallTarget::NotInstalled,
            },
        }
    }

    /// Forgets `key` in the install state and the project file.
    pub fn commit_uninstall(&mut self, key: &str)
        ensures
            final(self).installed() == old(self).installed().remove(key@),
            final(self).wanted() == old(self).wanted().remove(key@),
            same_settings(final(self).project, old(self).project),
            old(self).records_agree() ==> final(self).records_agree(),
    {
        self.state.installed_dependencies.remove(key);
        self.project.dependencies.remove(key);
        proof {
            if old(self).records_agree() {
                assert forall|k: Seq<char>| #[trigger] self.installed().contains_key(k) implies self.wanted().contains_key(k)
                    && self.wanted()[k]@ == self.installed()[k].version_name@ by {
                    assert(old(self).installed().contains_key(k));
                }
            }
        }
    }

    /// The installed packages that the project file no longer lists, each
    /// once.
    pub fn leftovers(&self) -> (res: Vec<Leftover>)
        ensures
            forall|i: int| 0 <= i < res@.len() ==> {
                let e = #[trigger] res@[i];
                &&& self.installed().contains_key(e.key@)
                &&& !self.wanted().contains_key(e.key@)
                &&& e.version_name == self.installed()[e.key@].version_name
                &&& e.file_name == self.installed()[e.key@].file_name
            },
            forall|k: Seq<char>| #[trigger] self.installed().contains_key(k) && !self.wanted().contains_key(k)
                ==> exists|i: int| 0 <= i < res@.len() && #[trigger] res@[i].key@ == k,
            forall|i: int, j: int| 0 <= i < j < res@.len() ==> res@[i].key@ != res@[j].key@,
    {
        let keys = self.state.installed_dependencies.keys();
        let mut res: Vec<Leftover> = Vec::new();
        let ghost mut taken: Seq<int> = Seq::empty();
        let mut i: usize = 0;
        while i < keys.len()
            invariant
                i <= keys@.len(),
                forall|a: int| 0 <= a < keys@.len() ==> self.installed().contains_key(#[trigger] keys@[a]@),
                forall|k: Seq<char>| #[trigger] self.installed().contains_key(k) ==> exists|a: int|
                    0 <= a < keys@.len() && #[trigger] keys@[a]@ == k,
                forall|a: int, b: int| 0 <= a < b < keys@.len() ==> keys@[a]@ != keys@[b]@,
                taken.len() == res@.len(),
                forall|r: int| 0 <= r < res@.len() ==> 0 <= #[trigger] taken[r] < i && res@[r].key@ == keys@[taken[r]]@,
                forall|r: int, q: int| 0 <= r < q < res@.len() ==> taken[r] < taken[q],
                forall|r: int| 0 <= r < res@.len() ==> {
                    let e = #[trigger] res@[r];
                    &&& self.installed().contains_key(e.key@)
                    &&& !self.wanted().contains_key(e.key@)
                    &&& e.version_name == self.installed()[e.key@].version_name
                    &&& e.file_name == self.installed()[e.key@].file_name
                },
                forall|a: int| 0 <= a < i && !self.wanted().contains_key(#[trigger] keys@[a]@) ==> exists|r: int|
                    0 <= r < res@.len() && #[trigger] res@[r].key@ == keys@[a]@,
            decreases keys@.len() - i,
        {
            let k = &keys[i];
            let ghost before = res@;
            if !self.project.dependencies.contains_key(k.as_str()) {
                let d = self.state.installed_dependencies.get(k.as_str()).unwrap();
                res.push(Leftover { key: k.clone(), version_name: d.version_name.clone(), file_name: d.file_name.clone() });
                proof {
                    taken = taken.push(i as int);
                    assert(res@[res@.len() - 1].key@ == keys@[i as int]@);
                }
            }
            proof {
                assert forall|a: int| 0 <= a < i + 1 && !self.wanted().contains_key(#[trigger] keys@[a]@) implies exists|r: int|
                    0 <= r < res@.len() && #[trigger] res@[r].key@ == keys@[a]@ by {
                    if a == i {
                        assert(res@[res@.len() - 1].key@ == keys@[a]@);
                    } else {
                        let r = choose|r: int| 0 <= r < before.len() && #[trigger] before[r].key@ == keys@[a]@;
                        assert(res@[r] == before[r]);
                    }
                }
            }
            i = i + 1;
        }
        proof {
            assert forall|k: Seq<char>| #[trigger] self.installed().contains_key(k) && !self.wanted().contains_key(k)
                implies exists|r: int| 0 <= r < res@.len() && #[trigger] res@[r].key@ == k by {
                let a = choose|a: int| 0 <= a < keys@.len() && #[trigger] keys@[a]@ == k;
                assert(!self.wanted().contains_key(keys@[a]@));
            }
            assert forall|r: int, q: int| 0 <= r < q < res@.len() implies res@[r].key@ != res@[q].key@ by {
                assert(taken[r] < taken[q]);
                assert(keys@[taken[r]]@ != keys@[taken[q]]@);
            }
        }
        res
    }

    /// Forgets the installed packages named in `keys` in the install state.
    pub fn forget_installed(&mut self, keys: &Vec<String>)
        ensures
            final(self).installed() == old(self).installed().remove_keys(texts_set(keys@)),
            final(self).project == old(self).project,
            old(self).records_agree() ==> final(self).records_agree(),
    {
        let ghost start = self.installed();
        let mut i: usize = 0;
        while i < keys.len()
            invariant
                i <= keys@.len(),
                self.installed() == start.remove_keys(texts_set(keys@.take(i as int))),
                self.project == old(self).project,
                start == old(self).installed(),
            decreases keys@.len() - i,
        {
            self.state.installed_dependencies.remove(keys[i].as_str());
            proof {
                let s1 = keys@.take(i + 1);
                let s0 = keys@.take(i as int);
                assert forall|k: Seq<char>| texts_set(s1).contains(k) <==> texts_set(s0).insert(keys@[i as int]@).contains(k) by {
                    if texts_set(s1).contains(k) {
                        let j = choose|j: int| 0 <= j < s1.len() && #[trigger] s1[j]@ == k;
                        if j < i {
                            assert(s0[j]@ == k);
                        }
                    }
                    if texts_set(s0).contains(k) {
                        let j = choose|j: int| 0 <= j < s0.len() && #[trigger] s0[j]@ == k;
                        assert(s1[j]@ == k);
                    }
                    if k == keys@[i as int]@ {
                        assert(s1[i as int]@ == k);
                    }
                }
                assert(texts_set(s1) =~= texts_set(s0).insert(keys@[i as int]@));
                assert(start.remove_keys(texts_set(keys@.take(i + 1))) =~= start.remove_keys(
                    texts_set(keys@.take(i as int)),
                ).remove(keys@[i as int]@));
            }
            i = i + 1;
        }
        assert(keys@.take(keys@.len() as int) =~= keys@);
    }
}

/// The set of texts of a list of owned texts.
pub open spec fn texts_set(v: Seq<String>) -> Set<Seq<char>> {
    Set::new(|k: Seq<char>| exists|i: int| 0 <= i < v.len() && #[trigger] v[i]@ == k)
}

} // verus!
pub mod runs;
