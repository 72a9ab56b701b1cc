//! Which packages `install` works on, and when it counts as failed.
use crate::manager::models::{InstallRef, Project};
use vstd::prelude::*;

verus! {

/// The packages named on the command line of `install`.
pub struct Install {
    pub packages: Vec<InstallRef>,
}

impl Install {
    /// The packages to install, and whether leftovers are cleaned up after:
    /// the named packages as given; or, when none is named, every package of
    /// the project file pinned to its recorded version, followed by a clean-up.
    pub fn packages_to_install(&self, project: &Project) -> (res: (Vec<InstallRef>, bool))
        ensures
            res.1 == (self.packages@.len() == 0),
            !res.1 ==> res.0@ == self.packages@,
            res.1 ==> {
                &&& forall|i: int| 0 <= i < res.0@.len() ==> {
                    let r = #[trigger] res.0@[i];
                    &&& project.dependencies@.contains_key(r.id_or_slug@)
                    &&& r.version == Some(project.dependencies@[r.id_or_slug@])
                }
                &&& forall|k: Seq<char>| #[trigger] project.dependencies@.contains_key(k) ==> exists|i: int|
                    0 <= i < res.0@.len() && #[trigger] res.0@[i].id_or_slug@ == k
                &&& forall|i: int, j: int| 0 <= i < j < res.0@.len() ==> res.0@[i].id_or_slug@ != res.0@[j].id_or_slug@
            },
    {
        if self.packages.len() == 0 {
            let deps = &project.dependencies;
            let keys = deps.keys();
            let mut res: Vec<InstallRef> = Vec::new();
            let mut i: usize = 0;
            while i < keys.len()
                invariant
                    i <= keys@.len(),
                    res@.len() == i,
                    forall|a: int| 0 <= a < keys@.len() ==> deps@.contains_key(#[trigger] keys@[a]@),
                    forall|a: int| 0 <= a < i ==> (#[trigger] res@[a]).id_or_slug@ == keys@[a]@ && res@[a].version == Some(deps@[keys@[a]@]),
                decreases keys@.len() - i,
            {
                let v = deps.get(keys[i].as_str()).unwrap();
                res.push(InstallRef::from_pair(keys[i].clone(), v.clone()));
                i = i + 1;
            }
            proof {
                assert forall|k: Seq<char>| #[trigger] deps@.contains_key(k) implies exists|a: int|
                    0 <= a < res@.len() && #[trigger] res@[a].id_or_slug@ == k by {
                    let a = choose|a: int| 0 <= a < keys@.len() && #[trigger] keys@[a]@ == k;
                    assert(res@[a].id_or_slug@ == k);
                }
                assert forall|a: int, b: int| 0 <= a < b < res@.len() implies res@[a].id_or_slug@ != res@[b].id_or_slug@ by {
                    assert(keys@[a]@ != keys@[b]@);
                }
            }
            (res, true)
        } else {
            let mut res: Vec<InstallRef> = Vec::new();
            let mut i: usize = 0;
            while i < self.packages.len()
                invariant
                    i <= self.packages@.len(),
                    res@ == self.packages@.take(i as int),
                decreases self.packages@.len() - i,
            {
                res.push(self.packages[i].duplicate());
                assert(res@ =~= self.packages@.take(i + 1));
                i = i + 1;
            }
            assert(self.packages@.take(self.packages@.len() as int) =~= self.packages@);
            (res, false)
        }
    }
}

/// Whether `install` or `update` ends in failure, given whether the install
/// run failed and, when a clean-up ran, whether it failed: with a clean-up,
/// only when both failed.
pub fn command_failed(install_failed: bool, cleanup_failed: Option<bool>) -> (res: bool)
    ensures
        res == match cleanup_failed {
            Some(c) => install_failed && c,
            None => install_failed,
        },
{
    match cleanup_failed {
        Some(c) => install_failed && c,
        None => install_failed,
    }
}

} // verus!
