//! How `versions` shows the versions of a project: the color of each
//! release channel and the line of game versions.
use crate::modrinth::models::VersionType;
use crate::text::{join, joined, owned, texts};
use vstd::prelude::*;

verus! {

/// The color a version number is shown in.
#[derive(Debug, Clone, Copy, PartialEq, Eq, Structural)]
pub enum TypeColor {
    Blue,
    Red,
    Yellow,
    Cyan,
}

/// The color of a release channel: snapshots blue, alphas red, betas
/// yellow, releases cyan.
pub fn color_by_type(typ: &VersionType) -> (res: TypeColor)
    ensures
        res == match *typ {
            VersionType::Snapshot => TypeColor::Blue,
            VersionType::Alpha => TypeColor::Red,
            VersionType::Beta => TypeColor::Yellow,
            VersionType::Release => TypeColor::Cyan,
        },
{
    match typ {
        VersionType::Snapshot => TypeColor::Blue,
        VersionType::Alpha => TypeColor::Red,
        VersionType::Beta => TypeColor::Yellow,
        VersionType::Release => TypeColor::Cyan,
    }
}

/// The game versions of a version, separated by `, `, or a note that it
/// names none.
pub fn game_versions_line(game_versions: &Option<Vec<String>>) -> (res: String)
    ensures
        res@ == match *game_versions {
            Some(v) => joined(texts(v@), ", "@),
            None => "no game versions specified"@,
        },
{
    match game_versions {
        Some(v) => join(v, ", "),
        None => owned("no game versions specified"),
    }
}

} // verus!
