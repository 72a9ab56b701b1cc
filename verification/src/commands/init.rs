//! Initialising a project: checking the chosen game version, offering the
//! release versions, and the default artifacts directory of each loader.
use crate::modrinth::models::{GameVersion, Loader, VersionType};
use crate::text::str_equal;
use vstd::prelude::*;

verus! {

/// The options of `init`; the ones left out are asked for.
pub struct Init {
    /// Used mod or plugin loader
    pub loader: Option<Loader>,
    /// Used Minecraft game version
    pub version: Option<String>,
    /// Directory where artifacts will be stored relative to the project directory
    pub artifacts_dir: Option<String>,
    /// Least stable release channel installed without an explicit version
    pub minimum_version_type: Option<VersionType>,
}

/// Refusal of a game version that Modrinth does not know.
pub const UNKNOWN_GAME_VERSION: &'static str = "the specified game version does not exist";

/// Whether a loader loads server plugins (as opposed to client mods).
pub open spec fn loads_plugins(loader: Loader) -> bool {
    match loader {
        Loader::Bukkit | Loader::Bungeecord | Loader::Canvas | Loader::Folia | Loader::Paper
        | Loader::Purpur | Loader::Spigot | Loader::Sponge | Loader::Velocity | Loader::Waterfall => true,
        Loader::Fabric | Loader::Forge | Loader::Liteloader | Loader::Neoforge | Loader::Quilt
        | Loader::Rift => false,
    }
}

/// The artifacts directory offered for a loader: `plugins` for plugin
/// loaders, `mods` for mod loaders.
pub fn default_artifacts_dir_for_loader(loader: &Loader) -> (res: &'static str)
    ensures
        res@ == if loads_plugins(*loader) { "plugins"@ } else { "mods"@ },
{
    match loader {
        Loader::Bukkit | Loader::Bungeecord | Loader::Canvas | Loader::Folia | Loader::Paper
        | Loader::Purpur | Loader::Spigot | Loader::Sponge | Loader::Velocity | Loader::Waterfall => "plugins",
        Loader::Fabric | Loader::Forge | Loader::Liteloader | Loader::Neoforge | Loader::Quilt
        | Loader::Rift => "mods",
    }
}

/// Whether `version` is one of the known game versions.
pub open spec fn is_known(version: Seq<char>, known: Seq<GameVersion>) -> bool {
    exists|i: int| 0 <= i < known.len() && #[trigger] known[i].version@ == version
}

impl Init {
    /// Accepts a game version given on the command line only if Modrinth
    /// knows it.
    pub fn check_game_version(version: &String, known: &Vec<GameVersion>) -> (res: Result<String, &'static str>)
        ensures
            match res {
                Ok(v) => v == *version && is_known(version@, known@),
                Err(e) => e@ == UNKNOWN_GAME_VERSION@ && !is_known(version@, known@),
            },
    {
        let mut i: usize = 0;
        while i < known.len()
            invariant
                i <= known@.len(),
                forall|j: int| 0 <= j < i ==> known@[j].version@ != version@,
            decreases known@.len() - i,
        {
            if str_equal(known[i].version.as_str(), version.as_str()) {
                return Ok(version.clone());
            }
            i = i + 1;
        }
        Err(UNKNOWN_GAME_VERSION)
    }

    /// The positions of the release versions among `known`, in order: the
    /// choices offered when no game version is given.
    pub fn release_versions(known: &Vec<GameVersion>) -> (res: Vec<usize>)
        ensures
            res@ == Seq::new(known@.len(), |i: int| i as usize).filter(
                |i: usize| known@[i as int].version_type == VersionType::Release,
            ),
    {
        let ghost all = Seq::new(known@.len(), |i: int| i as usize);
        let ghost keep = |i: usize| known@[i as int].version_type == VersionType::Release;
        let mut res: Vec<usize> = Vec::new();
        let mut i: usize = 0;
        while i < known.len()
            invariant
                i <= known@.len(),
                all == Seq::new(known@.len(), |i: int| i as usize),
                keep == (|i: usize| known@[i as int].version_type == VersionType::Release),
                res@ == all.take(i as int).filter(keep),
            decreases known@.len() - i,
        {
            proof {
                reveal_with_fuel(Seq::<usize>::filter, 1);
                assert(all.take(i + 1).drop_last() =~= all.take(i as int));
            }
            if known[i].version_type == VersionType::Release {
                res.push(i);
            }
            i = i + 1;
        }
        assert(all.take(known@.len() as int) =~= all);
        res
    }
}

} // verus!
