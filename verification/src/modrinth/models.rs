//! The data the Modrinth API hands out, held as plain values: projects,
//! search results, versions and their files, and the enumerations that name
//! loaders, version channels and statuses.
use crate::text::str_equal;
use vstd::prelude::*;

verus! {

/// Whether a project runs on the client or the server side.
#[derive(Debug, Clone, Copy, PartialEq, Eq, Structural)]
pub enum Requirement {
    Required,
    Optional,
    Unsupported,
}

/// Review status of a project.
#[derive(Debug, Clone, Copy, PartialEq, Eq, Structural)]
pub enum Status {
    Approved,
    Archived,
    Unlisted,
    Private,
    Draft,
}

/// Kind of a Modrinth project.
#[derive(Debug, Clone, Copy, PartialEq, Eq, Structural)]
pub enum ProjectType {
    Mod,
    Modpack,
    Resourcepack,
    Shader,
}

/// A mod or plugin loader.
#[derive(Debug, Clone, Copy, PartialEq, Eq, Structural)]
pub enum Loader {
    Bukkit,
    Bungeecord,
    Canvas,
    Fabric,
    Folia,
    Forge,
    Liteloader,
    Neoforge,
    Paper,
    Purpur,
    Quilt,
    Rift,
    Spigot,
    Sponge,
    Velocity,
    Waterfall,
}

/// The message given for a text that names no loader.
pub const LOADER_PARSE_ERROR: &'static str = "invalid value for Loader; valid values are: \n  - bukkit\n  - bungeecord\n  - canvas\n  - fabric\n  - folia\n  - forge\n  - liteloader\n  - neoforge\n  - paper\n  - purpur\n  - quilt\n  - rift\n  - spigot\n  - sponge\n  - velocity\n  - waterfall";

/// The name under which a loader is written in project files, on the
/// command line and in API queries.
pub open spec fn loader_name(l: Loader) -> Seq<char> {
    match l {
        Loader::Bukkit => "bukkit"@,
        Loader::Bungeecord => "bungeecord"@,
        Loader::Canvas => "canvas"@,
        Loader::Fabric => "fabric"@,
        Loader::Folia => "folia"@,
        Loader::Forge => "forge"@,
        Loader::Liteloader => "liteloader"@,
        Loader::Neoforge => "neoforge"@,
        Loader::Paper => "paper"@,
        Loader::Purpur => "purpur"@,
        Loader::Quilt => "quilt"@,
        Loader::Rift => "rift"@,
        Loader::Spigot => "spigot"@,
        Loader::Sponge => "sponge"@,
        Loader::Velocity => "velocity"@,
        Loader::Waterfall => "waterfall"@,
    }
}

/// Every loader, in declaration order.
pub open spec fn all_loaders() -> Seq<Loader> {
    seq![
        Loader::Bukkit,
        Loader::Bungeecord,
        Loader::Canvas,
        Loader::Fabric,
        Loader::Folia,
        Loader::Forge,
        Loader::Liteloader,
        Loader::Neoforge,
        Loader::Paper,
        Loader::Purpur,
        Loader::Quilt,
        Loader::Rift,
        Loader::Spigot,
        Loader::Sponge,
        Loader::Velocity,
        Loader::Waterfall,
    ]
}

/// Every loader occurs in `all_loaders`.
pub proof fn lemma_all_loaders_complete(l: Loader)
    ensures
        all_loaders().contains(l),
{
    let s = all_loaders();
    match l {
        Loader::Bukkit => assert(s[0] == l),
        Loader::Bungeecord => assert(s[1] == l),
        Loader::Canvas => assert(s[2] == l),
        Loader::Fabric => assert(s[3] == l),
        Loader::Folia => assert(s[4] == l),
        Loader::Forge => assert(s[5] == l),
        Loader::Liteloader => assert(s[6] == l),
        Loader::Neoforge => assert(s[7] == l),
        Loader::Paper => assert(s[8] == l),
        Loader::Purpur => assert(s[9] == l),
        Loader::Quilt => assert(s[10] == l),
        Loader::Rift => assert(s[11] == l),
        Loader::Spigot => assert(s[12] == l),
        Loader::Sponge => assert(s[13] == l),
        Loader::Velocity => assert(s[14] == l),
        Loader::Waterfall => assert(s[15] == l),
    }
}

/// Distinct loaders have distinct names.
pub proof fn lemma_loader_name_injective(a: Loader, b: Loader)
    requires
        loader_name(a) == loader_name(b),
    ensures
        a == b,
{
    reveal_strlit("bukkit");
    reveal_strlit("bungeecord");
    reveal_strlit("canvas");
    reveal_strlit("fabric");
    reveal_strlit("folia");
    reveal_strlit("forge");
    reveal_strlit("liteloader");
    reveal_strlit("neoforge");
    reveal_strlit("paper");
    reveal_strlit("purpur");
    reveal_strlit("quilt");
    reveal_strlit("rift");
    reveal_strlit("spigot");
    reveal_strlit("sponge");
    reveal_strlit("velocity");
    reveal_strlit("waterfall");
    if a != b {
        let x = loader_name(a);
        let y = loader_name(b);
        assert(x.len() != y.len() || x[0] != y[0] || x[1] != y[1] || x[2] != y[2] || x[3] != y[3]);
    }
}

impl Loader {
    /// The loader's name.
    pub fn as_str(&self) -> (res: &'static str)
        ensures
            res@ == loader_name(*self),
    {
        match self {
            Loader::Bukkit => "bukkit",
            Loader::Bungeecord => "bungeecord",
            Loader::Canvas => "canvas",
            Loader::Fabric => "fabric",
            Loader::Folia => "folia",
            Loader::Forge => "forge",
            Loader::Liteloader => "liteloader",
            Loader::Neoforge => "neoforge",
            Loader::Paper => "paper",
            Loader::Purpur => "purpur",
            Loader::Quilt => "quilt",
            Loader::Rift => "rift",
            Loader::Spigot => "spigot",
            Loader::Sponge => "sponge",
            Loader::Velocity => "velocity",
            Loader::Waterfall => "waterfall",
        }
    }

    /// All loaders, in declaration order.
    pub fn as_vec() -> (res: Vec<Loader>)
        ensures
            res@ == all_loaders(),
    {
        let res = vec![
            Loader::Bukkit,
            Loader::Bungeecord,
            Loader::Canvas,
            Loader::Fabric,
            Loader::Folia,
            Loader::Forge,
            Loader::Liteloader,
            Loader::Neoforge,
            Loader::Paper,
            Loader::Purpur,
            Loader::Quilt,
            Loader::Rift,
            Loader::Spigot,
            Loader::Sponge,
            Loader::Velocity,
            Loader::Waterfall,
        ];
        assert(res@ =~= all_loaders());
        res
    }

    /// Reads a loader from its name; any other text is refused with
    /// `LOADER_PARSE_ERROR`.
    pub fn parse(s: &str) -> (res: Result<Loader, &'static str>)
        ensures
            match res {
                Ok(l) => loader_name(l) == s@,
                Err(e) => e@ == LOADER_PARSE_ERROR@ && forall|l: Loader| loader_name(l) != s@,
            },
    {
        let all = Loader::as_vec();
        let mut i: usize = 0;
        while i < all.len()
            invariant
                all@ == all_loaders(),
                i <= all.len(),
                forall|j: int| 0 <= j < i ==> loader_name(#[trigger] all@[j]) != s@,
            decreases all.len() - i,
        {
            let l = all[i];
            if str_equal(l.as_str(), s) {
                return Ok(l);
            }
            i = i + 1;
        }
        assert forall|l: Loader| loader_name(l) != s@ by {
            lemma_all_loaders_complete(l);
            let k = choose|k: int| 0 <= k < all_loaders().len() && all_loaders()[k] == l;
            assert(loader_name(all@[k]) != s@);
        }
        Err(LOADER_PARSE_ERROR)
    }
}

impl core::str::FromStr for Loader {
    type Err = &'static str;

    /// Reads a loader from its name, as `Loader::parse` does.
    fn from_str(s: &str) -> (res: Result<Loader, &'static str>)
        ensures
            match res {
                Ok(l) => loader_name(l) == s@,
                Err(e) => e@ == LOADER_PARSE_ERROR@ && forall|l: Loader| loader_name(l) != s@,
            },
    {
        Loader::parse(s)
    }
}

/// The release channel of a version.
#[derive(Debug, Clone, Copy, PartialEq, Eq, Structural)]
pub enum VersionType {
    Release,
    Snapshot,
    Beta,
    Alpha,
}

/// How stable a release channel is: releases rank highest, then snapshots,
/// betas and alphas. A minimum version type admits every channel whose rank
/// is at least its own.
pub open spec fn stability(t: VersionType) -> int {
    match t {
        VersionType::Release => 3,
        VersionType::Snapshot => 2,
        VersionType::Beta => 1,
        VersionType::Alpha => 0,
    }
}

/// The name under which a release channel is written.
pub open spec fn version_type_name(t: VersionType) -> Seq<char> {
    match t {
        VersionType::Release => "release"@,
        VersionType::Snapshot => "snapshot"@,
        VersionType::Beta => "beta"@,
        VersionType::Alpha => "alpha"@,
    }
}

/// The message given for a text that names no release channel.
pub const VERSION_TYPE_PARSE_ERROR: &'static str = "invalid value for VersionType; valid values are: \n  - release\n  - snapshot\n  - beta\n  - alpha";

impl VersionType {
    /// The channel's rank in stability order.
    pub fn stability(&self) -> (res: u8)
        ensures
            res as int == stability(*self),
    {
        match self {
            VersionType::Release => 3,
            VersionType::Snapshot => 2,
            VersionType::Beta => 1,
            VersionType::Alpha => 0,
        }
    }

    /// Whether this channel is at least as stable as `minimum`.
    pub fn at_least(&self, minimum: &VersionType) -> (res: bool)
        ensures
            res == (stability(*self) >= stability(*minimum)),
    {
        self.stability() >= minimum.stability()
    }

    /// The channel's name.
    pub fn as_str(&self) -> (res: &'static str)
        ensures
            res@ == version_type_name(*self),
    {
        match self {
            VersionType::Release => "release",
            VersionType::Snapshot => "snapshot",
            VersionType::Beta => "beta",
            VersionType::Alpha => "alpha",
        }
    }

    /// Reads a release channel from its name.
    pub fn parse(s: &str) -> (res: Result<VersionType, &'static str>)
        ensures
            match res {
                Ok(t) => version_type_name(t) == s@,
                Err(e) => e@ == VERSION_TYPE_PARSE_ERROR@ && forall|t: VersionType|
                    version_type_name(t) != s@,
            },
    {
        if str_equal("release", s) {
            Ok(VersionType::Release)
        } else if str_equal("snapshot", s) {
            Ok(VersionType::Snapshot)
        } else if str_equal("beta", s) {
            Ok(VersionType::Beta)
        } else if str_equal("alpha", s) {
            Ok(VersionType::Alpha)
        } else {
            assert forall|t: VersionType| version_type_name(t) != s@ by {
                match t {
                    VersionType::Release => {},
                    VersionType::Snapshot => {},
                    VersionType::Beta => {},
                    VersionType::Alpha => {},
                }
            }
            Err(VERSION_TYPE_PARSE_ERROR)
        }
    }
}

impl core::str::FromStr for VersionType {
    type Err = &'static str;

    /// Reads a release channel from its name, as `VersionType::parse` does.
    fn from_str(s: &str) -> (res: Result<VersionType, &'static str>)
        ensures
            match res {
                Ok(t) => version_type_name(t) == s@,
                Err(e) => e@ == VERSION_TYPE_PARSE_ERROR@ && forall|t: VersionType|
                    version_type_name(t) != s@,
            },
    {
        VersionType::parse(s)
    }
}

impl Default for VersionType {
    /// Without a configured minimum, only releases are installed.
    fn default() -> (res: VersionType)
        ensures
            res == VersionType::Release,
    {
        VersionType::Release
    }
}

/// Kind of a dependency between versions.
#[derive(Debug, Clone, Copy, PartialEq, Eq, Structural)]
pub enum DependencyType {
    Required,
    Optional,
    Incompatible,
    Embedded,
}

/// Publication status of a version.
#[derive(Debug, Clone, Copy, PartialEq, Eq, Structural)]
pub enum VersionStatus {
    Listed,
    Archived,
    Draft,
    Unlisted,
    Scheduled,
    Unknown,
}

/// A donation link of a project.
#[derive(Debug, PartialEq, Eq)]
pub struct DontationUrl {
    pub id: String,
    pub platform: String,
    pub url: String,
}

/// The license of a project.
#[derive(Debug, PartialEq, Eq)]
pub struct License {
    pub id: String,
    pub name: String,
    pub url: String,
}

/// A Modrinth project.
#[derive(Debug, PartialEq, Eq)]
pub struct Project {
    pub slug: String,
    pub title: String,
    pub description: String,
    pub categories: Vec<String>,
    pub client_side: Requirement,
    pub server_side: Requirement,
    pub body: String,
    pub project_type: ProjectType,
    pub downloads: usize,
    pub icon_url: Option<String>,
    pub color: Option<usize>,
    pub status: Status,
    pub license: Option<License>,
    pub requested_status: Option<Status>,
    pub additional_categories: Option<Vec<String>>,
    pub issues_url: Option<String>,
    pub source_url: Option<String>,
    pub wiki_url: Option<String>,
    pub discord_url: Option<String>,
    pub donation_urls: Option<Vec<DontationUrl>>,
    pub versions: Vec<String>,
    pub game_versions: Vec<String>,
    pub loaders: Vec<Loader>,
}

/// One entry of a project search.
#[derive(Debug, PartialEq, Eq)]
pub struct SearchHit {
    pub slug: String,
    pub title: String,
    pub description: String,
    pub categories: Vec<String>,
    pub client_side: Requirement,
    pub server_side: Requirement,
    pub project_type: ProjectType,
    pub downloads: usize,
    pub icon_url: Option<String>,
    pub color: Option<usize>,
    pub project_id: String,
    pub author: String,
    pub versions: Vec<String>,
    pub license: Option<String>,
    pub display_categories: Option<Vec<String>>,
    pub latest_version: String,
}

/// A page of search results.
#[derive(Debug, PartialEq, Eq)]
pub struct SearchResults {
    pub hits: Vec<SearchHit>,
    pub offset: usize,
    pub limit: usize,
    pub total_hits: usize,
}

/// A dependency of a version.
#[derive(Debug, PartialEq, Eq)]
pub struct Dependency {
    pub version_id: Option<String>,
    pub project_id: Option<String>,
    pub file_name: Option<String>,
    pub dependency_type: DependencyType,
}

/// A downloadable file of a version.
#[derive(Debug, PartialEq, Eq)]
pub struct VersionFile {
    pub hashes: Hashes,
    pub url: String,
    pub filename: String,
    pub primary: bool,
    pub size: usize,
    pub file_type: Option<String>,
}

/// Checksums of a file.
#[derive(Debug, PartialEq, Eq)]
pub struct Hashes {
    pub sha512: String,
    pub sha1: String,
}

/// One published version of a project.
#[derive(Debug, PartialEq, Eq)]
pub struct Version {
    pub name: String,
    pub version_number: String,
    pub changelog: Option<String>,
    pub dependencies: Option<Vec<Dependency>>,
    pub game_versions: Option<Vec<String>>,
    pub version_type: VersionType,
    pub loaders: Vec<Loader>,
    pub featured: bool,
    pub status: Option<VersionStatus>,
    pub id: String,
    pub project_id: String,
    pub author_id: String,
    pub downloads: usize,
    pub changelog_url: Option<String>,
    pub files: Vec<VersionFile>,
}

/// A Minecraft release known to Modrinth.
#[derive(Debug, PartialEq, Eq)]
pub struct GameVersion {
    pub version: String,
    pub version_type: VersionType,
    pub date: String,
    pub major: bool,
}

impl GameVersion {
    /// The text shown for a game version: its version string.
    pub fn as_str(&self) -> (res: &str)
        ensures
            res@ == self.version@,
    {
        self.version.as_str()
    }
}

} // verus!
