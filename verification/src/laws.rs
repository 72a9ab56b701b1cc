//! Properties of the library as a whole, relating its operations.
use crate::manager::models::{opt_text, parsed_ref, ref_text, InstallRef, InstalledDependency};
use crate::manager::runs::{
    install_step, unchanged, CleanupRunView, InstallAction, InstallEvent, InstallPhase, InstallRunView,
};
use crate::manager::{DownloadPlan, InstallResult};
use crate::manager::select::{
    admits, best_match, is_best_match, is_newest_first, key_less, lemma_best_match_unique, lemma_key_less_total,
    lemma_key_less_transitive, lemma_text_less_irreflexive, lemma_text_less_transitive, listed_before, text_less,
    version_key,
};
use crate::commands::init::loads_plugins;
use crate::commands::search::facets_for;
use crate::manager::models::minimum_of;
use crate::manager::{texts_set, InstallPlan, Manager};
use crate::modrinth::models::{loader_name, stability, version_type_name, Loader, Version, VersionType};
use crate::modrinth::{index_name, Index};
use crate::text::{first_index_of, lemma_first_index_of, lowercase};
use vstd::prelude::*;

verus! {

/// Writing a reference and reading it back gives the same name and version,
/// for a reference as reading produces it: a lowercase name without `@`,
/// not empty, and, if pinned, a version that is not empty.
pub proof fn law_reference_round_trip(id: Seq<char>, version: Option<Seq<char>>)
    requires
        id.len() > 0,
        lowercase(id) == id,
        !id.contains('@'),
        version matches Some(v) ==> v.len() > 0,
    ensures
        parsed_ref(ref_text(id, version)) == Ok::<(Seq<char>, Option<Seq<char>>), Seq<char>>((id, version)),
{
    let s = ref_text(id, version);
    match version {
        Some(v) => {
            let n = id.len() as int;
            assert(s[n] == '@');
            assert forall|j: int| 0 <= j < n implies s[j] != '@' by {
                assert(s[j] == id[j]);
            }
            lemma_first_index_of(s, '@', n);
            assert(s.take(n) =~= id);
            assert(s.skip(n + 1) =~= v);
        },
        None => {
            assert(first_index_of(s, '@') is None) by {
                if exists|i: int| 0 <= i < s.len() && s[i] == '@' {
                    let i = choose|i: int| 0 <= i < s.len() && s[i] == '@';
                    assert(id.contains(id[i]));
                }
            }
        },
    }
}

/// Different release channels have different names, so reading a channel's
/// name gives back that channel.
pub proof fn law_version_type_names_distinct(a: VersionType, b: VersionType)
    requires
        version_type_name(a) == version_type_name(b),
    ensures
        a == b,
{
    reveal_strlit("release");
    reveal_strlit("snapshot");
    reveal_strlit("beta");
    reveal_strlit("alpha");
    if a != b {
        let x = version_type_name(a);
        let y = version_type_name(b);
        assert(x.len() != y.len() || x[0] != y[0]);
    }
}

/// Different search orders have different names, so reading an order's
/// name gives back that order.
pub proof fn law_index_names_distinct(a: Index, b: Index)
    requires
        index_name(a) == index_name(b),
    ensures
        a == b,
{
    reveal_strlit("relevance");
    reveal_strlit("downloads");
    reveal_strlit("follows");
    reveal_strlit("newest");
    reveal_strlit("updated");
    if a != b {
        let x = index_name(a);
        let y = index_name(b);
        assert(x.len() != y.len() || x[0] != y[0]);
    }
}

/// A package that is installed, asked for again without a version and
/// without force, is kept as it is: nothing is fetched.
pub proof fn law_installed_package_is_kept(m: Manager, slug: Seq<char>)
    requires
        m.installed().contains_key(slug),
    ensures
        m.kept_version(slug, None, false) == Some(m.installed()[slug].version_name),
{
}

/// A download planned for a pinned version is of exactly that version.
pub proof fn law_pinned_version_is_installed(m: Manager, slug: Seq<char>, want: Seq<char>, vs: Seq<Version>)
    requires
        m.install_plan(slug, Some(want), vs) matches Ok(InstallPlan::Download(p)),
    ensures
        m.install_plan(slug, Some(want), vs)->Ok_0->Download_0.version_number@ == want,
{
    let min = crate::manager::models::minimum_of(m.project.minimum_version_type);
    let i = best_match(vs, Some(want), min)->0;
    assert(is_best_match(vs, Some(want), min, i));
}

/// Without a pinned version, the version planned for download is on a
/// release channel at least as stable as the project's minimum.
pub proof fn law_unpinned_version_is_stable_enough(m: Manager, slug: Seq<char>, vs: Seq<Version>)
    requires
        m.install_plan(slug, None, vs) matches Ok(InstallPlan::Download(p)),
    ensures
        exists|i: int|
            0 <= i < vs.len() && vs[i].version_number == m.install_plan(slug, None, vs)->Ok_0->Download_0.version_number
                && stability(vs[i].version_type) >= stability(
                crate::manager::models::minimum_of(m.project.minimum_version_type),
            ),
{
    let min = crate::manager::models::minimum_of(m.project.minimum_version_type);
    let i = best_match(vs, None, min)->0;
    assert(is_best_match(vs, None, min, i));
    assert(admits(vs[i], None, min));
}

/// The version chosen for a request does not depend on how it is found:
/// at most one version is listed before all others that answer it.
pub proof fn law_chosen_version_unique(vs: Seq<Version>, want: Option<Seq<char>>, minimum: VersionType, i: int, k: int)
    requires
        is_best_match(vs, want, minimum, i),
        is_best_match(vs, want, minimum, k),
    ensures
        i == k,
{
    lemma_best_match_unique(vs, want, minimum, i, k);
}

/// Removing a package right after installing it leaves both the install
/// state and the project file as they were, apart from that package, which
/// is in neither afterwards.
pub proof fn law_uninstall_undoes_install(
    before: Manager,
    installed: Manager,
    after: Manager,
    slug: Seq<char>,
    dep: InstalledDependency,
    version: String,
)
    requires
        installed.installed() == before.installed().insert(slug, dep),
        installed.wanted() == before.wanted().insert(slug, version),
        after.installed() == installed.installed().remove(slug),
        after.wanted() == installed.wanted().remove(slug),
    ensures
        after.installed() == before.installed().remove(slug),
        after.wanted() == before.wanted().remove(slug),
        !after.installed().contains_key(slug),
        !after.wanted().contains_key(slug),
        !before.installed().contains_key(slug) ==> after.installed() == before.installed(),
        !before.wanted().contains_key(slug) ==> after.wanted() == before.wanted(),
{
    assert(after.installed() =~= before.installed().remove(slug));
    assert(after.wanted() =~= before.wanted().remove(slug));
    if !before.installed().contains_key(slug) {
        assert(after.installed() =~= before.installed());
    }
    if !before.wanted().contains_key(slug) {
        assert(after.wanted() =~= before.wanted());
    }
}

/// An install run fails exactly when one of the packages it reported failed.
pub proof fn law_install_run_fails_iff_a_package_failed(r: InstallRunView)
    requires
        r.wf(),
    ensures
        r.is_err <==> exists|i: int| 0 <= i < r.next && r.failed[i],
{
    if r.is_err {
        let i = choose|i: int| 0 <= i < r.failed.len() && r.failed[i] == true;
        assert(0 <= i < r.next && r.failed[i]);
    }
    if exists|i: int| 0 <= i < r.next && r.failed[i] {
        let i = choose|i: int| 0 <= i < r.next && r.failed[i];
        assert(r.failed[i] == true);
    }
}

/// A clean-up run in which no removal failed, finished on an unchanged
/// project, leaves no installed package that the project file does not list.
pub proof fn law_clean_run_leaves_nothing_unlisted(start: Manager, r: CleanupRunView, end: Manager)
    requires
        r.wf(),
        r.next == r.pending.len(),
        !r.is_err,
        forall|k: Seq<char>| #[trigger] start.installed().contains_key(k) && !start.wanted().contains_key(k)
            ==> exists|i: int| 0 <= i < r.pending.len() && #[trigger] r.pending[i].key@ == k,
        end.installed() == start.installed().remove_keys(texts_set(r.deleted)),
        end.wanted() == start.wanted(),
    ensures
        forall|k: Seq<char>| #[trigger] end.installed().contains_key(k) ==> end.wanted().contains_key(k),
{
    lemma_no_failures(r.failed, r.next);
    lemma_all_removed(r.pending, r.failed, r.next);
    let names = r.deleted.map_values(|s: String| s@);
    assert forall|k: Seq<char>| #[trigger] end.installed().contains_key(k) implies end.wanted().contains_key(k) by {
        if !start.wanted().contains_key(k) {
            let i = choose|i: int| 0 <= i < r.pending.len() && #[trigger] r.pending[i].key@ == k;
            assert(names.contains(k));
            let j = choose|j: int| 0 <= j < names.len() && names[j] == k;
            assert(r.deleted[j]@ == k);
            assert(texts_set(r.deleted).contains(k));
        }
    }
}

/// No outcome among the first `n` failed when the tally shows no error.
proof fn lemma_no_failures(failed: Seq<bool>, n: int)
    requires
        failed.len() == n,
        !failed.contains(true),
    ensures
        forall|i: int| 0 <= i < n ==> !failed[i],
{
    assert forall|i: int| 0 <= i < n implies !failed[i] by {
        if failed[i] {
            assert(failed.contains(true));
        }
    }
}

/// With no failures, every one of the first `n` leftovers is removed.
proof fn lemma_all_removed(pending: Seq<crate::manager::Leftover>, failed: Seq<bool>, n: int)
    requires
        0 <= n <= pending.len(),
        n <= failed.len(),
        forall|i: int| 0 <= i < n ==> !failed[i],
    ensures
        forall|i: int| 0 <= i < n ==> crate::manager::runs::removed_names(pending, failed, n).contains(
            #[trigger] pending[i].key@,
        ),
    decreases n,
{
    if n > 0 {
        lemma_all_removed(pending, failed, n - 1);
        let prev = crate::manager::runs::removed_names(pending, failed, n - 1);
        let cur = crate::manager::runs::removed_names(pending, failed, n);
        assert(cur == prev.push(pending[n - 1].key@));
        assert forall|i: int| 0 <= i < n implies cur.contains(#[trigger] pending[i].key@) by {
            if i == n - 1 {
                assert(cur[cur.len() - 1] == pending[i].key@);
            } else {
                let j = choose|j: int| 0 <= j < prev.len() && prev[j] == pending[i].key@;
                assert(cur[j] == pending[i].key@);
            }
        }
    }
}

/// Step `s` of a recorded install run: from manager `ms[s]` and run `rs[s]`,
/// on `events[s]`, to `ms[s + 1]` and `rs[s + 1]`, asking for `actions[s]`.
pub open spec fn install_step_at(
    ms: Seq<Manager>,
    rs: Seq<InstallRunView>,
    events: Seq<InstallEvent>,
    actions: Seq<InstallAction>,
    s: int,
) -> bool {
    install_step(ms[s], rs[s], events[s], ms[s + 1], rs[s + 1], actions[s])
}

/// The managers, runs, events and actions of consecutive steps of one
/// install run, each step as `Manager::install_packages` takes it.
pub open spec fn install_trace(
    ms: Seq<Manager>,
    rs: Seq<InstallRunView>,
    events: Seq<InstallEvent>,
    actions: Seq<InstallAction>,
) -> bool {
    &&& ms.len() == rs.len()
    &&& rs.len() == events.len() + 1
    &&& actions.len() == events.len()
    &&& forall|s: int| 0 <= s < events.len() ==> #[trigger] install_step_at(ms, rs, events, actions, s)
}

/// A run that has not started yet.
pub open spec fn is_fresh_run(r: InstallRunView) -> bool {
    &&& r.next == 0
    &&& !r.is_err
    &&& r.failed == Seq::<bool>::empty()
    &&& r.phase is Ready
}

/// The name of package `i`.
pub open spec fn ref_slug(ps: Seq<InstallRef>, i: int) -> Seq<char> {
    ps[i].id_or_slug@
}

/// Every package of `ps` stays installed as it is, when asked for again
/// without force.
pub open spec fn all_kept(m: Manager, ps: Seq<InstallRef>) -> bool {
    forall|i: int| 0 <= i < ps.len() ==> (#[trigger] m.kept_version(ref_slug(ps, i), opt_text(ps[i].version), false)) is Some
}

/// Where a run over packages that are all kept stands after `s` steps.
proof fn lemma_kept_run_prefix(
    ms: Seq<Manager>,
    rs: Seq<InstallRunView>,
    events: Seq<InstallEvent>,
    actions: Seq<InstallAction>,
    s: int,
)
    requires
        install_trace(ms, rs, events, actions),
        is_fresh_run(rs[0]),
        !rs[0].force,
        all_kept(ms[0], rs[0].packages),
        0 <= s < rs.len(),
    ensures
        rs[s].packages == rs[0].packages,
        !rs[s].force,
        rs[s].next == if s <= rs[0].packages.len() { s } else { rs[0].packages.len() as int },
        !rs[s].is_err,
        rs[s].phase is Ready,
        unchanged(ms[s], ms[0]),
        s < events.len() ==> (if s < rs[0].packages.len() {
            actions[s] == (InstallAction::Report {
                index: s as usize,
                outcome: Ok(InstallResult::Skipped(ms[0].installed()[ref_slug(rs[0].packages, s)].version_name)),
            })
        } else {
            actions[s] == InstallAction::Finished(false)
        }),
    decreases s,
{
    let ps = rs[0].packages;
    if s > 0 {
        lemma_kept_run_prefix(ms, rs, events, actions, s - 1);
        assert(install_step_at(ms, rs, events, actions, s - 1));
    }
    if s < events.len() {
        assert(install_step_at(ms, rs, events, actions, s));
        if s < ps.len() {
            assert(ms[0].kept_version(ref_slug(ps, s), opt_text(ps[s].version), false) is Some);
        }
    }
}

/// Asking again, without force, for packages that are all installed as
/// asked: the run reports each of them in order as skipped, with the version
/// that is installed, then finishes without failure. It asks for no fetch,
/// no removal and no download, and neither the project file nor the install
/// state changes.
pub proof fn law_install_run_of_kept_packages_skips_all(
    ms: Seq<Manager>,
    rs: Seq<InstallRunView>,
    events: Seq<InstallEvent>,
    actions: Seq<InstallAction>,
)
    requires
        install_trace(ms, rs, events, actions),
        is_fresh_run(rs[0]),
        !rs[0].force,
        all_kept(ms[0], rs[0].packages),
    ensures
        forall|s: int| 0 <= s < actions.len() && s < rs[0].packages.len() ==> #[trigger] actions[s] == (InstallAction::Report {
            index: s as usize,
            outcome: Ok(InstallResult::Skipped(ms[0].installed()[ref_slug(rs[0].packages, s)].version_name)),
        }),
        forall|s: int| 0 <= s < actions.len() && s >= rs[0].packages.len() ==> #[trigger] actions[s] == InstallAction::Finished(false),
        forall|s: int| 0 <= s < ms.len() ==> #[trigger] unchanged(ms[s], ms[0]),
{
    assert forall|s: int| 0 <= s < actions.len() && s < rs[0].packages.len() implies #[trigger] actions[s] == (InstallAction::Report {
        index: s as usize,
        outcome: Ok(InstallResult::Skipped(ms[0].installed()[ref_slug(rs[0].packages, s)].version_name)),
    }) by {
        lemma_kept_run_prefix(ms, rs, events, actions, s);
    }
    assert forall|s: int| 0 <= s < actions.len() && s >= rs[0].packages.len() implies #[trigger] actions[s] == InstallAction::Finished(false) by {
        lemma_kept_run_prefix(ms, rs, events, actions, s);
    }
    assert forall|s: int| 0 <= s < ms.len() implies #[trigger] unchanged(ms[s], ms[0]) by {
        lemma_kept_run_prefix(ms, rs, events, actions, s);
    }
}

/// The names of the packages are pairwise different.
pub open spec fn distinct_slugs(ps: Seq<InstallRef>) -> bool {
    forall|i: int, j: int| 0 <= i < j < ps.len() ==> ref_slug(ps, i) != ref_slug(ps, j)
}

/// At step `s` of a recorded install run, a fetch of versions is answered
/// by the remote: it succeeds, with the versions `remote` lists for the
/// package's name.
pub open spec fn remote_answers_at(
    rs: Seq<InstallRunView>,
    events: Seq<InstallEvent>,
    remote: spec_fn(Seq<char>) -> Seq<Version>,
    s: int,
) -> bool {
    events[s] matches InstallEvent::Fetched(r) ==> (r matches Ok(vs) && vs@ == remote(
        ref_slug(rs[s].packages, rs[s].next),
    ))
}

/// Every fetch of a recorded install run is answered by the same remote.
pub open spec fn answered_by(
    rs: Seq<InstallRunView>,
    events: Seq<InstallEvent>,
    remote: spec_fn(Seq<char>) -> Seq<Version>,
) -> bool {
    forall|t: int| 0 <= t < events.len() ==> #[trigger] remote_answers_at(rs, events, remote, t)
}

/// Package `i` of `ps` is settled: asked for again without force, it is
/// kept as it is, or the versions `remote` lists for it lead to keeping it.
pub open spec fn settled(m: Manager, ps: Seq<InstallRef>, i: int, remote: spec_fn(Seq<char>) -> Seq<Version>) -> bool {
    ||| m.kept_version(ref_slug(ps, i), opt_text(ps[i].version), false) is Some
    ||| m.install_plan(ref_slug(ps, i), opt_text(ps[i].version), remote(ref_slug(ps, i))) matches Ok(
        InstallPlan::Skip(_),
    )
}

/// Every package of `ps` is settled.
pub open spec fn all_settled(m: Manager, ps: Seq<InstallRef>, remote: spec_fn(Seq<char>) -> Seq<Version>) -> bool {
    forall|i: int| 0 <= i < ps.len() ==> #[trigger] settled(m, ps, i, remote)
}

/// A pending download is of the version that `remote` leads to for `pkg`.
pub open spec fn plan_from_remote(
    m: Manager,
    p: DownloadPlan,
    pkg: InstallRef,
    remote: spec_fn(Seq<char>) -> Seq<Version>,
) -> bool {
    let vs = remote(pkg.id_or_slug@);
    &&& best_match(vs, opt_text(pkg.version), minimum_of(m.project.minimum_version_type)) matches Some(i)
    &&& p.version_id@ == vs[best_match(vs, opt_text(pkg.version), minimum_of(m.project.minimum_version_type))->0].id@
}

/// Two managers that hold the same for `slug` and have the same minimum
/// release channel decide the same for `slug`.
proof fn lemma_same_decisions(m0: Manager, m1: Manager, slug: Seq<char>, want: Option<Seq<char>>, vs: Seq<Version>)
    requires
        m0.installed().contains_key(slug) == m1.installed().contains_key(slug),
        m0.installed().contains_key(slug) ==> m0.installed()[slug] == m1.installed()[slug],
        m0.project.minimum_version_type == m1.project.minimum_version_type,
    ensures
        m0.install_plan(slug, want, vs) == m1.install_plan(slug, want, vs),
        m0.kept_version(slug, want, false) == m1.kept_version(slug, want, false),
{
}

/// What holds of a first install run over `ps` at every step: its packages
/// and force stay, a pending download is of the version the remote leads
/// to, and while no package failed, every package reported so far is
/// settled.
pub open spec fn run_settles_reported(
    m: Manager,
    r: InstallRunView,
    ps: Seq<InstallRef>,
    force: bool,
    remote: spec_fn(Seq<char>) -> Seq<Version>,
) -> bool {
    &&& r.packages == ps
    &&& r.force == force
    &&& 0 <= r.next <= ps.len()
    &&& !(r.phase is Ready) ==> r.next < ps.len()
    &&& r.phase matches InstallPhase::AwaitRemoval(p) ==> plan_from_remote(m, p, ps[r.next], remote)
    &&& r.phase matches InstallPhase::AwaitDownload(p) ==> plan_from_remote(m, p, ps[r.next], remote)
    &&& !r.is_err ==> forall|i: int| 0 <= i < r.next ==> #[trigger] settled(m, ps, i, remote)
}

/// One step of an install run keeps `run_settles_reported`, and a run that
/// is not in error after the step was not in error before it.
proof fn lemma_install_step_settles(
    m0: Manager,
    r0: InstallRunView,
    event: InstallEvent,
    m1: Manager,
    r1: InstallRunView,
    action: InstallAction,
    ps: Seq<InstallRef>,
    force: bool,
    remote: spec_fn(Seq<char>) -> Seq<Version>,
)
    requires
        run_settles_reported(m0, r0, ps, force, remote),
        install_step(m0, r0, event, m1, r1, action),
        distinct_slugs(ps),
        event matches InstallEvent::Fetched(r) ==> (r matches Ok(vs) && vs@ == remote(ref_slug(ps, r0.next))),
    ensures
        run_settles_reported(m1, r1, ps, force, remote),
        !r1.is_err ==> !r0.is_err,
{
    let slug = ref_slug(ps, r0.next);
    let want = opt_text(ps[r0.next].version);
    let min = minimum_of(m0.project.minimum_version_type);
    assert(m1.project.minimum_version_type == m0.project.minimum_version_type);
    match r0.phase {
        InstallPhase::Ready => {
            if r0.next < ps.len() && m0.kept_version(slug, want, r0.force) is Some {
                assert(!r0.force);
                assert(settled(m0, ps, r0.next, remote));
            }
        },
        InstallPhase::AwaitVersions => {
            if let InstallEvent::Fetched(Ok(vs)) = event {
                match m0.install_plan(slug, want, vs@) {
                    Ok(InstallPlan::Skip(n)) => {
                        assert(settled(m0, ps, r0.next, remote));
                    },
                    Ok(InstallPlan::Download(p)) => {
                        assert(plan_from_remote(m1, p, ps[r0.next], remote));
                    },
                    Err(_) => {},
                }
            }
        },
        InstallPhase::AwaitRemoval(_) => {},
        InstallPhase::AwaitDownload(p) => {
            if let InstallEvent::Downloaded(Ok(())) = event {
                let vs = remote(slug);
                let i = best_match(vs, want, min)->0;
                assert(m1.installed().contains_key(slug));
                assert(m1.installed()[slug].version_id@ == vs[i].id@);
                assert(m1.install_plan(slug, want, vs) matches Ok(InstallPlan::Skip(_)));
                assert(settled(m1, ps, r0.next, remote));
                if !r1.is_err {
                    assert forall|k: int| 0 <= k < r1.next implies #[trigger] settled(m1, ps, k, remote) by {
                        if k < r0.next {
                            assert(ref_slug(ps, k) != slug);
                            assert(settled(m0, ps, k, remote));
                            lemma_same_decisions(m0, m1, ref_slug(ps, k), opt_text(ps[k].version), remote(ref_slug(ps, k)));
                        }
                    }
                }
            }
        },
    }
    if m1.installed() == m0.installed() && !r1.is_err {
        assert forall|k: int| 0 <= k < r1.next implies #[trigger] settled(m1, ps, k, remote) by {
            let q = if k < r0.next { k } else { r0.next };
            assert(settled(m0, ps, q, remote));
            lemma_same_decisions(m0, m1, ref_slug(ps, k), opt_text(ps[k].version), remote(ref_slug(ps, k)));
        }
    }
}

/// Where a first install run stands after `s` steps, as
/// `run_settles_reported` says.
proof fn lemma_install_trace_settles(
    ms: Seq<Manager>,
    rs: Seq<InstallRunView>,
    events: Seq<InstallEvent>,
    actions: Seq<InstallAction>,
    remote: spec_fn(Seq<char>) -> Seq<Version>,
    s: int,
)
    requires
        install_trace(ms, rs, events, actions),
        is_fresh_run(rs[0]),
        distinct_slugs(rs[0].packages),
        answered_by(rs, events, remote),
        0 <= s < rs.len(),
    ensures
        run_settles_reported(ms[s], rs[s], rs[0].packages, rs[0].force, remote),
    decreases s,
{
    if s > 0 {
        lemma_install_trace_settles(ms, rs, events, actions, remote, s - 1);
        assert(install_step_at(ms, rs, events, actions, s - 1));
        assert(remote_answers_at(rs, events, remote, s - 1));
        lemma_install_step_settles(
            ms[s - 1],
            rs[s - 1],
            events[s - 1],
            ms[s],
            rs[s],
            actions[s - 1],
            rs[0].packages,
            rs[0].force,
            remote,
        );
    }
}

/// An install run over packages with different names, whose fetches the
/// remote answers, and that ends with every package reported and none
/// failed, leaves every package settled.
pub proof fn law_successful_install_run_settles_all(
    ms: Seq<Manager>,
    rs: Seq<InstallRunView>,
    events: Seq<InstallEvent>,
    actions: Seq<InstallAction>,
    remote: spec_fn(Seq<char>) -> Seq<Version>,
)
    requires
        install_trace(ms, rs, events, actions),
        is_fresh_run(rs[0]),
        distinct_slugs(rs[0].packages),
        answered_by(rs, events, remote),
        rs.last().next == rs[0].packages.len(),
        !rs.last().is_err,
    ensures
        all_settled(ms.last(), rs[0].packages, remote),
{
    lemma_install_trace_settles(ms, rs, events, actions, remote, rs.len() - 1);
    assert forall|i: int| 0 <= i < rs[0].packages.len() implies #[trigger] settled(ms.last(), rs[0].packages, i, remote) by {
        assert(0 <= i < rs.last().next);
    }
}

/// What holds at step `s` of a second install run over settled packages.
pub open spec fn settled_run_at(
    ms: Seq<Manager>,
    rs: Seq<InstallRunView>,
    actions: Seq<InstallAction>,
    s: int,
) -> bool {
    let ps = rs[0].packages;
    let r = rs[s];
    &&& r.packages == ps
    &&& !r.force
    &&& !r.is_err
    &&& 0 <= r.next <= ps.len()
    &&& r.phase is Ready || r.phase is AwaitVersions
    &&& r.phase is AwaitVersions ==> r.next < ps.len() && ms[s].kept_version(
        ref_slug(ps, r.next),
        opt_text(ps[r.next].version),
        false,
    ) is None
    &&& unchanged(ms[s], ms[0])
}

/// What step `s` of a second install run over settled packages asks for:
/// a fetch; or a report, for the next package, that it was skipped with its
/// installed version; or, once all are reported, the end without failure.
pub open spec fn settled_step_at(ms: Seq<Manager>, rs: Seq<InstallRunView>, actions: Seq<InstallAction>, s: int) -> bool {
    let ps = rs[0].packages;
    let r = rs[s];
    ||| actions[s] is FetchVersions && rs[s + 1].next == r.next
    ||| r.next < ps.len() && rs[s + 1].next == r.next + 1 && actions[s] == (InstallAction::Report {
        index: r.next as usize,
        outcome: Ok(InstallResult::Skipped(ms[0].installed()[ref_slug(ps, r.next)].version_name)),
    })
    ||| r.next == ps.len() && rs[s + 1].next == r.next && actions[s] == InstallAction::Finished(false)
}

/// One step of a second install run over settled packages.
proof fn lemma_settled_run_step(
    ms: Seq<Manager>,
    rs: Seq<InstallRunView>,
    events: Seq<InstallEvent>,
    actions: Seq<InstallAction>,
    remote: spec_fn(Seq<char>) -> Seq<Version>,
    s: int,
)
    requires
        install_trace(ms, rs, events, actions),
        all_settled(ms[0], rs[0].packages, remote),
        answered_by(rs, events, remote),
        0 <= s < events.len(),
        settled_run_at(ms, rs, actions, s),
    ensures
        settled_step_at(ms, rs, actions, s),
        settled_run_at(ms, rs, actions, s + 1),
{
    let ps = rs[0].packages;
    assert(install_step_at(ms, rs, events, actions, s));
    assert(remote_answers_at(rs, events, remote, s));
    let r = rs[s];
    if r.next < ps.len() {
        let k = r.next;
        assert(settled(ms[0], ps, k, remote));
        assert(ms[s].installed() == ms[0].installed());
        lemma_same_decisions(ms[0], ms[s], ref_slug(ps, k), opt_text(ps[k].version), remote(ref_slug(ps, k)));
        assert(ms[s + 1].installed() == ms[s].installed());
        lemma_same_decisions(ms[s], ms[s + 1], ref_slug(ps, k), opt_text(ps[k].version), remote(ref_slug(ps, k)));
    }
}

/// Where a second install run over settled packages stands after `s` steps.
proof fn lemma_settled_run_prefix(
    ms: Seq<Manager>,
    rs: Seq<InstallRunView>,
    events: Seq<InstallEvent>,
    actions: Seq<InstallAction>,
    remote: spec_fn(Seq<char>) -> Seq<Version>,
    s: int,
)
    requires
        install_trace(ms, rs, events, actions),
        is_fresh_run(rs[0]),
        !rs[0].force,
        all_settled(ms[0], rs[0].packages, remote),
        answered_by(rs, events, remote),
        0 <= s < rs.len(),
    ensures
        settled_run_at(ms, rs, actions, s),
        s < events.len() ==> settled_step_at(ms, rs, actions, s),
    decreases s,
{
    if s > 0 {
        lemma_settled_run_prefix(ms, rs, events, actions, remote, s - 1);
        lemma_settled_run_step(ms, rs, events, actions, remote, s - 1);
    }
    if s < events.len() {
        lemma_settled_run_step(ms, rs, events, actions, remote, s);
    }
}

/// A run without force over settled packages, whose fetches the remote
/// answers, reports the packages in order, each as skipped with the version
/// that is installed, and ends, if it ends, without failure once all are
/// reported. Besides fetching versions it asks for nothing: no removal and
/// no download; and neither the project file nor the install state changes.
pub proof fn law_install_run_of_settled_packages_skips_all(
    ms: Seq<Manager>,
    rs: Seq<InstallRunView>,
    events: Seq<InstallEvent>,
    actions: Seq<InstallAction>,
    remote: spec_fn(Seq<char>) -> Seq<Version>,
)
    requires
        install_trace(ms, rs, events, actions),
        is_fresh_run(rs[0]),
        !rs[0].force,
        all_settled(ms[0], rs[0].packages, remote),
        answered_by(rs, events, remote),
    ensures
        forall|s: int| 0 <= s < actions.len() ==> #[trigger] settled_step_at(ms, rs, actions, s),
        forall|s: int| 0 <= s < ms.len() ==> #[trigger] unchanged(ms[s], ms[0]),
        forall|s: int| 0 <= s < rs.len() ==> !(#[trigger] rs[s]).is_err,
{
    assert forall|s: int| 0 <= s < actions.len() implies #[trigger] settled_step_at(ms, rs, actions, s) by {
        lemma_settled_run_prefix(ms, rs, events, actions, remote, s);
    }
    assert forall|s: int| 0 <= s < ms.len() implies #[trigger] unchanged(ms[s], ms[0]) by {
        lemma_settled_run_prefix(ms, rs, events, actions, remote, s);
    }
    assert forall|s: int| 0 <= s < rs.len() implies !(#[trigger] rs[s]).is_err by {
        lemma_settled_run_prefix(ms, rs, events, actions, remote, s);
    }
}

/// Running the same install again changes nothing, while the remote stays
/// as it was: after a run over packages with different names that finished
/// telling that no package failed, a second run over the same packages
/// without force, on the manager the first left and with every fetch of
/// both runs answered by the same remote, reports the packages in order,
/// each as skipped with its installed version, and ends, if it ends,
/// without failure once all are reported. It asks for no removal and no
/// download, and neither the project file nor the install state changes.
pub proof fn law_repeated_install_run_changes_nothing(
    ms: Seq<Manager>,
    rs: Seq<InstallRunView>,
    events: Seq<InstallEvent>,
    actions: Seq<InstallAction>,
    ms2: Seq<Manager>,
    rs2: Seq<InstallRunView>,
    events2: Seq<InstallEvent>,
    actions2: Seq<InstallAction>,
    remote: spec_fn(Seq<char>) -> Seq<Version>,
)
    requires
        install_trace(ms, rs, events, actions),
        is_fresh_run(rs[0]),
        distinct_slugs(rs[0].packages),
        answered_by(rs, events, remote),
        actions.len() > 0,
        actions.last() == InstallAction::Finished(false),
        install_trace(ms2, rs2, events2, actions2),
        is_fresh_run(rs2[0]),
        rs2[0].packages == rs[0].packages,
        !rs2[0].force,
        ms2[0] == ms.last(),
        answered_by(rs2, events2, remote),
    ensures
        forall|s: int| 0 <= s < actions2.len() ==> #[trigger] settled_step_at(ms2, rs2, actions2, s),
        forall|s: int| 0 <= s < ms2.len() ==> #[trigger] unchanged(ms2[s], ms.last()),
        forall|s: int| 0 <= s < rs2.len() ==> !(#[trigger] rs2[s]).is_err,
{
    let last = actions.len() - 1;
    assert(install_step_at(ms, rs, events, actions, last));
    lemma_install_trace_settles(ms, rs, events, actions, remote, last);
    assert(rs.last() == rs[last + 1]);
    law_successful_install_run_settles_all(ms, rs, events, actions, remote);
    law_install_run_of_settled_packages_skips_all(ms2, rs2, events2, actions2, remote);
}

/// The release channels from most to least stable: release, snapshot,
/// beta, alpha.
pub proof fn law_channel_stability_order()
    ensures
        stability(VersionType::Release) > stability(VersionType::Snapshot),
        stability(VersionType::Snapshot) > stability(VersionType::Beta),
        stability(VersionType::Beta) > stability(VersionType::Alpha),
{
}

/// Version `i` answers the request and, among the first `k` versions, is
/// listed before every other one that does.
spec fn leads_prefix(vs: Seq<Version>, want: Option<Seq<char>>, minimum: VersionType, k: int, i: int) -> bool {
    &&& 0 <= i < k
    &&& admits(vs[i], want, minimum)
    &&& forall|m: int| 0 <= m < k && m != i && #[trigger] admits(vs[m], want, minimum) ==> listed_before(vs, i, m)
}

/// Among the first `k` versions, when one answers the request, one of them
/// is listed before every other that does.
proof fn lemma_best_among_prefix(vs: Seq<Version>, want: Option<Seq<char>>, minimum: VersionType, k: int, j: int) -> (i: int)
    requires
        0 <= j < k <= vs.len(),
        admits(vs[j], want, minimum),
    ensures
        leads_prefix(vs, want, minimum, k, i),
    decreases k,
{
    let last = k - 1;
    if exists|q: int| 0 <= q < last && admits(vs[q], want, minimum) {
        let q = choose|q: int| 0 <= q < last && admits(vs[q], want, minimum);
        let i0 = lemma_best_among_prefix(vs, want, minimum, last, q);
        if !admits(vs[last], want, minimum) || listed_before(vs, i0, last) {
            i0
        } else {
            let ki = version_key(vs[i0]);
            let kl = version_key(vs[last]);
            lemma_key_less_total(ki, kl);
            assert forall|m: int| 0 <= m < k && m != last && #[trigger] admits(vs[m], want, minimum) implies listed_before(
                vs,
                last,
                m,
            ) by {
                if m != i0 {
                    assert(listed_before(vs, i0, m));
                    if key_less(version_key(vs[m]), ki) {
                        lemma_key_less_transitive(version_key(vs[m]), ki, kl);
                    }
                }
            }
            last
        }
    } else {
        assert forall|m: int| 0 <= m < k && m != last && #[trigger] admits(vs[m], want, minimum) implies listed_before(
            vs,
            last,
            m,
        ) by {
            assert(0 <= m < last);
        }
        last
    }
}

/// Without a pinned version, every version on a channel at least as stable
/// as the minimum is a candidate: when there is one, a version is chosen.
pub proof fn law_stable_enough_version_is_candidate(vs: Seq<Version>, minimum: VersionType, j: int)
    requires
        0 <= j < vs.len(),
        stability(vs[j].version_type) >= stability(minimum),
    ensures
        best_match(vs, None, minimum) is Some,
{
    assert(admits(vs[j], None, minimum));
    let i = lemma_best_among_prefix(vs, None, minimum, vs.len() as int, j);
    assert(is_best_match(vs, None, minimum, i));
}

/// Without a pinned version, the chosen version is on a channel at least
/// as stable as the minimum, and it is listed before every other version
/// on such a channel, whatever its channel.
pub proof fn law_unpinned_choice_is_first_stable_enough(vs: Seq<Version>, minimum: VersionType, i: int)
    requires
        best_match(vs, None, minimum) == Some(i),
    ensures
        0 <= i < vs.len(),
        stability(vs[i].version_type) >= stability(minimum),
        forall|j: int|
            0 <= j < vs.len() && j != i && stability(#[trigger] vs[j].version_type) >= stability(minimum)
                ==> listed_before(vs, i, j),
{
    assert(is_best_match(vs, None, minimum, i));
    assert forall|j: int|
        0 <= j < vs.len() && j != i && stability(#[trigger] vs[j].version_type) >= stability(minimum) implies listed_before(
        vs,
        i,
        j,
    ) by {
        assert(admits(vs[j], None, minimum));
    }
}

/// A version is listed by the first game version it names; one that names
/// none is listed by no key.
pub proof fn law_version_listed_by_first_game_version(v: Version)
    ensures
        v.game_versions is Some && v.game_versions->0@.len() > 0 ==> version_key(v) == Some(
            v.game_versions->0@[0]@,
        ),
        v.game_versions is None || v.game_versions->0@.len() == 0 ==> version_key(v) is None,
{
}

/// In a newest-first listing, of two versions that name game versions, the
/// earlier one's first game version does not come before the later one's;
/// a version that names none is followed only by versions that name none.
pub proof fn law_newest_first_by_first_game_version(vs: Seq<Version>, order: Seq<usize>, a: int, b: int)
    requires
        is_newest_first(vs, order),
        0 <= a < b < order.len(),
    ensures
        ({
            let x = vs[order[a] as int].game_versions;
            let y = vs[order[b] as int].game_versions;
            &&& (x is Some && x->0@.len() > 0 && y is Some && y->0@.len() > 0) ==> !text_less(
                x->0@[0]@,
                y->0@[0]@,
            )
            &&& (x is None || x->0@.len() == 0) ==> (y is None || y->0@.len() == 0)
        }),
{
    let i = order[a] as int;
    let j = order[b] as int;
    assert(listed_before(vs, i, j));
    let x = vs[i].game_versions;
    let y = vs[j].game_versions;
    if x is Some && x->0@.len() > 0 && y is Some && y->0@.len() > 0 {
        let p = x->0@[0]@;
        let q = y->0@[0]@;
        assert(version_key(vs[i]) == Some(p));
        assert(version_key(vs[j]) == Some(q));
        lemma_text_less_irreflexive(p);
        if text_less(p, q) && text_less(q, p) {
            lemma_text_less_transitive(p, q, p);
        }
    }
}

/// Each loader's name is its identifier in the Modrinth API.
pub proof fn law_loader_names_are_api_identifiers()
    ensures
        loader_name(Loader::Bukkit) == "bukkit"@,
        loader_name(Loader::Bungeecord) == "bungeecord"@,
        loader_name(Loader::Canvas) == "canvas"@,
        loader_name(Loader::Fabric) == "fabric"@,
        loader_name(Loader::Folia) == "folia"@,
        loader_name(Loader::Forge) == "forge"@,
        loader_name(Loader::Liteloader) == "liteloader"@,
        loader_name(Loader::Neoforge) == "neoforge"@,
        loader_name(Loader::Paper) == "paper"@,
        loader_name(Loader::Purpur) == "purpur"@,
        loader_name(Loader::Quilt) == "quilt"@,
        loader_name(Loader::Rift) == "rift"@,
        loader_name(Loader::Spigot) == "spigot"@,
        loader_name(Loader::Sponge) == "sponge"@,
        loader_name(Loader::Velocity) == "velocity"@,
        loader_name(Loader::Waterfall) == "waterfall"@,
{
}

/// Exactly the server-plugin loaders load plugins; the mod loaders (Fabric,
/// Forge, LiteLoader, NeoForge, Quilt, Rift) load mods.
pub proof fn law_plugin_loaders(l: Loader)
    ensures
        loads_plugins(l) <==> (l == Loader::Bukkit || l == Loader::Bungeecord || l == Loader::Canvas || l
            == Loader::Folia || l == Loader::Paper || l == Loader::Purpur || l == Loader::Spigot || l
            == Loader::Sponge || l == Loader::Velocity || l == Loader::Waterfall),
        !loads_plugins(l) <==> (l == Loader::Fabric || l == Loader::Forge || l == Loader::Liteloader || l
            == Loader::Neoforge || l == Loader::Quilt || l == Loader::Rift),
{
}

/// Game versions given to a search always become a group of
/// `versions:<v>` facets, one per version and in order, after the loader's
/// group if a loader is given; without a loader that group is all there is.
pub proof fn law_search_version_facets(loader: Option<Loader>, versions: Seq<Seq<char>>)
    ensures
        facets_for(loader, Some(versions)).len() == if loader is Some { 2int } else { 1int },
        facets_for(loader, Some(versions)).last().len() == versions.len(),
        forall|k: int| 0 <= k < versions.len() ==> #[trigger] facets_for(loader, Some(versions)).last()[k]
            == "versions:"@ + versions[k],
        facets_for(None, Some(versions)) == seq![facets_for(loader, Some(versions)).last()],
        facets_for(None, None).len() == 0,
        loader matches Some(l) ==> facets_for(loader, Some(versions))[0] == seq!["categories:"@ + loader_name(l)],
{
    assert(facets_for(None, Some(versions)) =~= seq![facets_for(loader, Some(versions)).last()]);
}

} // verus!
