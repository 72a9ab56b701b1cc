//! The filters of a search: loader and game versions, from the command line
//! or else from the project file, and the facets they become.
use crate::manager::models::Project;
use crate::modrinth::models::{loader_name, Loader};
use crate::text::{owned, texts};
use vstd::prelude::*;

verus! {

/// The game versions a project targets, copied.
fn project_versions(p: &Project) -> (res: Vec<String>)
    ensures
        res@ == p.game_version.spec_list(),
{
    let list = p.game_version.as_list();
    let mut res: Vec<String> = Vec::new();
    let mut i: usize = 0;
    while i < list.len()
        invariant
            list@ == p.game_version.spec_list(),
            i <= list@.len(),
            res@ == list@.take(i as int),
        decreases list@.len() - i,
    {
        res.push(list[i].clone());
        assert(res@ =~= list@.take(i + 1));
        i = i + 1;
    }
    assert(list@.take(list@.len() as int) =~= list@);
    res
}

/// The loader and game versions a search filters by: each as given on the
/// command line, or else as the project file (if there is one) says.
pub fn search_filters(cli_loader: Option<Loader>, cli_versions: Option<Vec<String>>, project: Option<&Project>) -> (res: (
    Option<Loader>,
    Option<Vec<String>>,
))
    ensures
        res.0 == match cli_loader {
            Some(l) => Some(l),
            None => match project {
                Some(p) => Some(p.loader),
                None => None,
            },
        },
        match cli_versions {
            Some(v) => res.1 == Some(v),
            None => match project {
                Some(p) => res.1 matches Some(w) && w@ == p.game_version.spec_list(),
                None => res.1 is None,
            },
        },
{
    let loader = match cli_loader {
        Some(l) => Some(l),
        None => match project {
            Some(p) => Some(p.loader),
            None => None,
        },
    };
    let versions = match cli_versions {
        Some(v) => Some(v),
        None => match project {
            Some(p) => Some(project_versions(p)),
            None => None,
        },
    };
    (loader, versions)
}

/// The facets of a search, as texts: a `categories:<loader>` group if a
/// loader is given, then a group of `versions:<v>` for the game versions if
/// they are given.
pub open spec fn facets_for(loader: Option<Loader>, versions: Option<Seq<Seq<char>>>) -> Seq<Seq<Seq<char>>> {
    let first: Seq<Seq<Seq<char>>> = match loader {
        Some(l) => seq![seq!["categories:"@ + loader_name(l)]],
        None => Seq::empty(),
    };
    let second: Seq<Seq<Seq<char>>> = match versions {
        Some(vs) => seq![vs.map_values(|v: Seq<char>| "versions:"@ + v)],
        None => Seq::empty(),
    };
    first + second
}

/// The views of a table of owned texts.
pub open spec fn text_table(rows: Seq<Vec<String>>) -> Seq<Seq<Seq<char>>> {
    rows.map_values(|r: Vec<String>| texts(r@))
}

/// The view of optional owned texts.
pub open spec fn opt_texts(v: Option<Vec<String>>) -> Option<Seq<Seq<char>>> {
    match v {
        Some(v) => Some(texts(v@)),
        None => None,
    }
}

/// Builds the facets of a search.
pub fn search_facets(loader: Option<Loader>, versions: &Option<Vec<String>>) -> (res: Vec<Vec<String>>)
    ensures
        text_table(res@) == facets_for(loader, opt_texts(*versions)),
{
    let mut res: Vec<Vec<String>> = Vec::new();
    if let Some(l) = loader {
        let mut c = owned("categories:");
        c.append(l.as_str());
        let mut row = Vec::new();
        row.push(c);
        res.push(row);
        proof {
            assert(texts(res@[0]@) =~= seq!["categories:"@ + loader_name(l)]);
        }
    }
    let ghost head = res@;
    if let Some(vs) = versions {
        let mut row: Vec<String> = Vec::new();
        let mut i: usize = 0;
        while i < vs.len()
            invariant
                i <= vs@.len(),
                texts(row@) == texts(vs@).take(i as int).map_values(|v: Seq<char>| "versions:"@ + v),
            decreases vs@.len() - i,
        {
            let mut f = owned("versions:");
            f.append(vs[i].as_str());
            let ghost before = row@;
            row.push(f);
            proof {
                assert(texts(row@) =~= texts(before).push(f@));
                assert(texts(vs@).take(i + 1).map_values(|v: Seq<char>| "versions:"@ + v) =~= texts(vs@).take(
                    i as int,
                ).map_values(|v: Seq<char>| "versions:"@ + v).push("versions:"@ + vs@[i as int]@));
            }
            i = i + 1;
        }
        proof {
            assert(texts(vs@).take(vs@.len() as int) =~= texts(vs@));
        }
        res.push(row);
    }
    proof {
        assert(text_table(res@) =~= facets_for(loader, opt_texts(*versions)));
    }
    res
}

} // verus!
