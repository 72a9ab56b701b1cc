//! What a project directory records: the project file (game version, loader,
//! artifacts directory, wanted packages) and the install state (which file of
//! which version is installed for each package), and the package references
//! given on the command line.
use crate::dep_map::DepMap;
use crate::modrinth::models::{Loader, VersionType};
use crate::text::{find_char, first_index_of, lowercase, owned, to_lowercase};
use vstd::prelude::*;

verus! {

/// The Minecraft version or versions a project targets.
#[derive(Debug, PartialEq, Eq)]
pub enum GameVersion {
    Single(String),
    Multiple(Vec<String>),
}

/// Calls `std::slice::from_ref`. Trusted: the result is the one-element
/// slice holding the referenced value.
#[verifier::external_body]
fn slice_of_one<T>(x: &T) -> (res: &[T])
    ensures
        res@ == seq![*x],
{
    std::slice::from_ref(x)
}

impl GameVersion {
    /// The targeted versions as a list.
    pub open spec fn spec_list(&self) -> Seq<String> {
        match self {
            GameVersion::Single(s) => seq![*s],
            GameVersion::Multiple(v) => v@,
        }
    }

    /// The targeted versions as a list: the single version alone, or all of them.
    pub fn as_list(&self) -> (res: &[String])
        ensures
            res@ == self.spec_list(),
    {
        match self {
            GameVersion::Single(s) => slice_of_one(s),
            GameVersion::Multiple(v) => v.as_slice(),
        }
    }
}

/// The project file of a directory.
pub struct Project {
    pub game_version: GameVersion,
    pub loader: Loader,
    pub artifacts_dir: String,
    /// The least stable release channel that may be installed when no
    /// version is asked for; releases only when absent.
    pub minimum_version_type: Option<VersionType>,
    /// Wanted packages: name to installed version number.
    pub dependencies: DepMap<String>,
}

/// The least stable release channel a project accepts.
pub open spec fn minimum_of(m: Option<VersionType>) -> VersionType {
    match m {
        Some(t) => t,
        None => VersionType::Release,
    }
}

impl Project {
    /// A freshly initialised project, with no dependencies.
    pub fn new(
        game_version: GameVersion,
        loader: Loader,
        artifacts_dir: String,
        minimum_version_type: Option<VersionType>,
    ) -> (res: Project)
        ensures
            res.game_version == game_version,
            res.loader == loader,
            res.artifacts_dir == artifacts_dir,
            res.minimum_version_type == minimum_version_type,
            res.dependencies@ == Map::<Seq<char>, String>::empty(),
    {
        Project { game_version, loader, artifacts_dir, minimum_version_type, dependencies: DepMap::new() }
    }

    /// The release channel that bounds automatic version choice.
    pub fn minimum_version_type(&self) -> (res: VersionType)
        ensures
            res == minimum_of(self.minimum_version_type),
    {
        match self.minimum_version_type {
            Some(t) => t,
            None => VersionType::default(),
        }
    }
}

/// What is installed for one package.
#[derive(Debug, PartialEq, Eq)]
pub struct InstalledDependency {
    pub version_name: String,
    pub version_id: String,
    pub file_name: String,
}

impl InstalledDependency {
    /// A field-by-field copy.
    pub fn duplicate(&self) -> (res: InstalledDependency)
        ensures
            res == *self,
    {
        InstalledDependency {
            version_name: self.version_name.clone(),
            version_id: self.version_id.clone(),
            file_name: self.file_name.clone(),
        }
    }
}

/// The install state kept beside the artifacts.
pub struct InstallState {
    pub installed_dependencies: DepMap<InstalledDependency>,
}

impl InstallState {
    /// The state of a directory where nothing is installed yet.
    pub fn new() -> (res: InstallState)
        ensures
            res.installed_dependencies@ == Map::<Seq<char>, InstalledDependency>::empty(),
    {
        InstallState { installed_dependencies: DepMap::new() }
    }
}

/// A package named on the command line, optionally pinned to a version:
/// `<id or slug>` or `<id or slug>@<version>`.
#[derive(Debug, PartialEq, Eq, Clone)]
pub struct InstallRef {
    pub id_or_slug: String,
    pub version: Option<String>,
}

/// Refusal of a reference with nothing before the `@`.
pub const MISSING_ID: &'static str = "package id or slug must be defined before @";

/// Refusal of a reference with nothing after the `@`.
pub const MISSING_VERSION: &'static str = "package version must be defined after @";

/// What a reference text reads as: the lowercased name and the pinned
/// version, split at the first `@`; or the refusal message.
pub open spec fn parsed_ref(s: Seq<char>) -> Result<(Seq<char>, Option<Seq<char>>), Seq<char>> {
    match first_index_of(s, '@') {
        Some(i) => if i == 0 {
            Err(MISSING_ID@)
        } else if i + 1 == s.len() {
            Err(MISSING_VERSION@)
        } else {
            Ok((lowercase(s.take(i)), Some(s.skip(i + 1))))
        },
        None => Ok((lowercase(s), None)),
    }
}

/// The text of a reference: the name, then `@` and the version if pinned.
pub open spec fn ref_text(id: Seq<char>, version: Option<Seq<char>>) -> Seq<char> {
    match version {
        Some(v) => id + seq!['@'] + v,
        None => id,
    }
}

/// The view of an optional text.
pub open spec fn opt_text(o: Option<String>) -> Option<Seq<char>> {
    match o {
        Some(s) => Some(s@),
        None => None,
    }
}

impl InstallRef {
    /// The reference's name and version as texts.
    pub open spec fn spec_parts(&self) -> (Seq<char>, Option<Seq<char>>) {
        (self.id_or_slug@, opt_text(self.version))
    }

    /// Reads a reference.
    pub fn parse(s: &str) -> (res: Result<InstallRef, &'static str>)
        ensures
            match (res, parsed_ref(s@)) {
                (Ok(r), Ok(p)) => r.spec_parts() == p,
                (Err(e), Err(m)) => e@ == m,
                _ => false,
            },
    {
        match find_char(s, '@') {
            Some(i) => {
                let n = s.unicode_len();
                if i == 0 {
                    return Err(MISSING_ID);
                }
                if i + 1 == n {
                    return Err(MISSING_VERSION);
                }
                let id = s.substring_char(0, i);
                let version = s.substring_char(i + 1, n);
                proof {
                    assert(s@.subrange(0, i as int) =~= s@.take(i as int));
                    assert(s@.subrange(i + 1, n as int) =~= s@.skip(i + 1));
                }
                Ok(InstallRef { id_or_slug: to_lowercase(id), version: Some(owned(version)) })
            },
            None => Ok(InstallRef { id_or_slug: to_lowercase(s), version: None }),
        }
    }

    /// The reference as written: `name` or `name@version`.
    pub fn to_display_string(&self) -> (res: String)
        ensures
            res@ == ref_text(self.id_or_slug@, opt_text(self.version)),
    {
        let mut res = self.id_or_slug.clone();
        match &self.version {
            Some(v) => {
                res.append("@");
                res.append(v.as_str());
                proof {
                    reveal_strlit("@");
                }
            },
            None => {},
        }
        res
    }

    /// A reference pinned to `version`.
    pub fn from_pair(id: String, version: String) -> (res: InstallRef)
        ensures
            res.id_or_slug == id,
            res.version == Some(version),
    {
        InstallRef { id_or_slug: id, version: Some(version) }
    }

    /// A field-by-field copy.
    pub fn duplicate(&self) -> (res: InstallRef)
        ensures
            res == *self,
    {
        InstallRef {
            id_or_slug: self.id_or_slug.clone(),
            version: match &self.version {
                Some(v) => Some(v.clone()),
                None => None,
            },
        }
    }
}

impl core::str::FromStr for InstallRef {
    type Err = &'static str;

    /// Reads a reference, as `InstallRef::parse` does.
    fn from_str(s: &str) -> (res: Result<InstallRef, &'static str>)
        ensures
            match (res, parsed_ref(s@)) {
                (Ok(r), Ok(p)) => r.spec_parts() == p,
                (Err(e), Err(m)) => e@ == m,
                _ => false,
            },
    {
        InstallRef::parse(s)
    }
}

} // verus!
