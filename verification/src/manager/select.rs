//! Choosing which version of a project to install: versions are listed
//! newest game version first (a stable order on the first game version each
//! one names), and the first version in that list that the request admits is
//! taken; of that version, the first file marked primary is downloaded.
use crate::modrinth::models::{stability, Version, VersionFile, VersionType};
use crate::text::str_equal;
use vstd::prelude::*;

verus! {

/// Lexicographic order of texts by code point; a proper prefix comes first.
/// On UTF-8 strings this is the order of their bytes.
pub open spec fn text_less(a: Seq<char>, b: Seq<char>) -> bool
    decreases a.len(),
{
    if a.len() == 0 {
        b.len() > 0
    } else if b.len() == 0 {
        false
    } else if a[0] < b[0] {
        true
    } else if a[0] == b[0] {
        text_less(a.drop_first(), b.drop_first())
    } else {
        false
    }
}

/// No text comes before itself.
pub proof fn lemma_text_less_irreflexive(a: Seq<char>)
    ensures
        !text_less(a, a),
    decreases a.len(),
{
    if a.len() > 0 {
        lemma_text_less_irreflexive(a.drop_first());
    }
}

/// The text order is transitive.
pub proof fn lemma_text_less_transitive(a: Seq<char>, b: Seq<char>, c: Seq<char>)
    requires
        text_less(a, b),
        text_less(b, c),
    ensures
        text_less(a, c),
    decreases a.len(),
{
    if a.len() > 0 && b.len() > 0 && c.len() > 0 && a[0] == b[0] && b[0] == c[0] {
        lemma_text_less_transitive(a.drop_first(), b.drop_first(), c.drop_first());
    }
}

/// Of two different texts, one comes before the other.
pub proof fn lemma_text_less_total(a: Seq<char>, b: Seq<char>)
    requires
        a != b,
    ensures
        text_less(a, b) || text_less(b, a),
    decreases a.len(),
{
    if a.len() > 0 && b.len() > 0 && a[0] == b[0] {
        if a.drop_first() == b.drop_first() {
            assert(a =~= seq![a[0]] + a.drop_first());
            assert(b =~= seq![b[0]] + b.drop_first());
        }
        lemma_text_less_total(a.drop_first(), b.drop_first());
    } else if a.len() == 0 && b.len() == 0 {
        assert(a =~= b);
    }
}

/// Compares two texts in `text_less` order.
pub fn text_before(a: &str, b: &str) -> (res: bool)
    ensures
        res == text_less(a@, b@),
{
    let n = a.unicode_len();
    let m = b.unicode_len();
    let mut i: usize = 0;
    assert(a@.skip(0) =~= a@ && b@.skip(0) =~= b@);
    while i < n && i < m
        invariant
            n == a@.len(),
            m == b@.len(),
            i <= n,
            i <= m,
            text_less(a@, b@) == text_less(a@.skip(i as int), b@.skip(i as int)),
        decreases n - i,
    {
        let x = a.get_char(i);
        let y = b.get_char(i);
        assert(a@.skip(i as int)[0] == x && b@.skip(i as int)[0] == y);
        if x < y {
            return true;
        }
        if x != y {
            return false;
        }
        assert(a@.skip(i as int).drop_first() =~= a@.skip(i + 1));
        assert(b@.skip(i as int).drop_first() =~= b@.skip(i + 1));
        i = i + 1;
    }
    i < m
}

/// The order of version keys: no key before any key, then texts.
pub open spec fn key_less(a: Option<Seq<char>>, b: Option<Seq<char>>) -> bool {
    match (a, b) {
        (None, Some(_)) => true,
        (Some(x), Some(y)) => text_less(x, y),
        _ => false,
    }
}

/// No key comes before itself.
pub proof fn lemma_key_less_irreflexive(a: Option<Seq<char>>)
    ensures
        !key_less(a, a),
{
    if let Some(x) = a {
        lemma_text_less_irreflexive(x);
    }
}

/// The key order is transitive.
pub proof fn lemma_key_less_transitive(a: Option<Seq<char>>, b: Option<Seq<char>>, c: Option<Seq<char>>)
    requires
        key_less(a, b),
        key_less(b, c),
    ensures
        key_less(a, c),
{
    if a is Some {
        lemma_text_less_transitive(a->0, b->0, c->0);
    }
}

/// Of two different keys, one comes before the other.
pub proof fn lemma_key_less_total(a: Option<Seq<char>>, b: Option<Seq<char>>)
    requires
        a != b,
    ensures
        key_less(a, b) || key_less(b, a),
{
    if a is Some && b is Some {
        lemma_text_less_total(a->0, b->0);
    }
}

/// The key a version is listed by: the first game version it names, if any.
pub open spec fn version_key(v: Version) -> Option<Seq<char>> {
    match v.game_versions {
        Some(g) => if g@.len() > 0 {
            Some(g@[0]@)
        } else {
            None
        },
        None => None,
    }
}

/// The first game version a version names.
fn first_game_version(v: &Version) -> (res: Option<&String>)
    ensures
        match res {
            Some(s) => version_key(*v) == Some(s@),
            None => version_key(*v) is None,
        },
{
    match &v.game_versions {
        Some(g) => if g.len() > 0 {
            Some(&g[0])
        } else {
            None
        },
        None => None,
    }
}

/// Whether version `j`'s key comes before version `i`'s key.
fn key_before(vs: &Vec<Version>, j: usize, i: usize) -> (res: bool)
    requires
        j < vs@.len(),
        i < vs@.len(),
    ensures
        res == key_less(version_key(vs@[j as int]), version_key(vs@[i as int])),
{
    match (first_game_version(&vs[j]), first_game_version(&vs[i])) {
        (None, Some(_)) => true,
        (Some(x), Some(y)) => text_before(x.as_str(), y.as_str()),
        _ => false,
    }
}

/// Version `i` is listed before version `j`: it has the later key, or the
/// same key and came first.
pub open spec fn listed_before(vs: Seq<Version>, i: int, j: int) -> bool {
    key_less(version_key(vs[j]), version_key(vs[i])) || (version_key(vs[i]) == version_key(vs[j])
        && i < j)
}

/// `order` lists every position of `vs` once, newest game version first,
/// keeping the given order among versions with equal keys.
pub open spec fn is_newest_first(vs: Seq<Version>, order: Seq<usize>) -> bool {
    &&& order.len() == vs.len()
    &&& forall|a: int| 0 <= a < order.len() ==> #[trigger] order[a] < vs.len()
    &&& forall|a: int, b: int|
        0 <= a < b < order.len() ==> listed_before(vs, #[trigger] order[a] as int, #[trigger] order[b] as int)
    &&& forall|i: usize| i < vs.len() ==> #[trigger] order.contains(i)
}

/// Lists the positions of `vs` newest game version first, by insertion.
pub fn newest_first(vs: &Vec<Version>) -> (order: Vec<usize>)
    ensures
        is_newest_first(vs@, order@),
{
    let n = vs.len();
    let mut order: Vec<usize> = Vec::new();
    let mut i: usize = 0;
    while i < n
        invariant
            n == vs@.len(),
            i <= n,
            order@.len() == i,
            forall|a: int| 0 <= a < order@.len() ==> #[trigger] order@[a] < i,
            forall|a: int, b: int|
                0 <= a < b < order@.len() ==> listed_before(vs@, #[trigger] order@[a] as int, #[trigger] order@[b] as int),
            forall|k: usize| k < i ==> #[trigger] order@.contains(k),
        decreases n - i,
    {
        let mut p: usize = 0;
        while p < order.len() && !key_before(vs, order[p], i)
            invariant
                n == vs@.len(),
                i < n,
                p <= order@.len(),
                forall|a: int| 0 <= a < order@.len() ==> #[trigger] order@[a] < i,
                forall|q: int| 0 <= q < p ==> !key_less(version_key(vs@[order@[q] as int]), version_key(vs@[i as int])),
            decreases order@.len() - p,
        {
            p = p + 1;
        }
        let ghost old_order = order@;
        order.insert(p, i);
        proof {
            let ki = version_key(vs@[i as int]);
            assert(order@ =~= old_order.insert(p as int, i));
            assert forall|a: int| 0 <= a < order@.len() implies #[trigger] order@[a] < i + 1 by {
                if a < p {
                    assert(order@[a] == old_order[a]);
                } else if a > p {
                    assert(order@[a] == old_order[a - 1]);
                }
            }
            assert forall|a: int, b: int| 0 <= a < b < order@.len() implies listed_before(
                vs@,
                #[trigger] order@[a] as int,
                #[trigger] order@[b] as int,
            ) by {
                if a < p && b < p {
                    assert(order@[a] == old_order[a] && order@[b] == old_order[b]);
                } else if a < p && b == p {
                    let x = old_order[a] as int;
                    assert(order@[a] as int == x);
                    assert(!key_less(version_key(vs@[x]), ki));
                    if version_key(vs@[x]) != ki {
                        lemma_key_less_total(version_key(vs@[x]), ki);
                    }
                } else if a < p && b > p {
                    assert(order@[a] == old_order[a] && order@[b] == old_order[b - 1]);
                } else if a == p {
                    let y = old_order[b - 1] as int;
                    assert(order@[b] as int == y);
                    let kp = version_key(vs@[old_order[p as int] as int]);
                    assert(key_less(kp, ki));
                    if b - 1 > p {
                        assert(listed_before(vs@, old_order[p as int] as int, old_order[b - 1] as int));
                        if version_key(vs@[y]) != kp {
                            lemma_key_less_transitive(version_key(vs@[y]), kp, ki);
                        }
                    }
                } else {
                    assert(order@[a] == old_order[a - 1] && order@[b] == old_order[b - 1]);
                }
            }
            assert forall|k: usize| k < i + 1 implies #[trigger] order@.contains(k) by {
                if k == i {
                    assert(order@[p as int] == i);
                } else {
                    assert(old_order.contains(k));
                    let q = choose|q: int| 0 <= q < old_order.len() && old_order[q] == k;
                    if q < p {
                        assert(order@[q] == k);
                    } else {
                        assert(order@[q + 1] == k);
                    }
                }
            }
        }
        i = i + 1;
    }
    order
}

/// Whether a version answers a request: the pinned version number, or, when
/// none is pinned, a release channel at least as stable as `minimum`.
pub open spec fn admits(v: Version, want: Option<Seq<char>>, minimum: VersionType) -> bool {
    match want {
        Some(w) => v.version_number@ == w,
        None => stability(v.version_type) >= stability(minimum),
    }
}

/// Version `i` is the one chosen: it answers the request and is listed
/// before every other version that does.
pub open spec fn is_best_match(vs: Seq<Version>, want: Option<Seq<char>>, minimum: VersionType, i: int) -> bool {
    &&& 0 <= i < vs.len()
    &&& admits(vs[i], want, minimum)
    &&& forall|j: int| 0 <= j < vs.len() && j != i && #[trigger] admits(vs[j], want, minimum) ==> listed_before(vs, i, j)
}

/// The version chosen for a request, if any answers it.
pub open spec fn best_match(vs: Seq<Version>, want: Option<Seq<char>>, minimum: VersionType) -> Option<int> {
    if exists|i: int| is_best_match(vs, want, minimum, i) {
        Some(choose|i: int| is_best_match(vs, want, minimum, i))
    } else {
        None
    }
}

/// At most one version is chosen for a request.
pub proof fn lemma_best_match_unique(vs: Seq<Version>, want: Option<Seq<char>>, minimum: VersionType, i: int, k: int)
    requires
        is_best_match(vs, want, minimum, i),
        is_best_match(vs, want, minimum, k),
    ensures
        i == k,
{
    if i != k {
        assert(admits(vs[k], want, minimum));
        assert(admits(vs[i], want, minimum));
        assert(listed_before(vs, i, k));
        assert(listed_before(vs, k, i));
        let a = version_key(vs[i]);
        let b = version_key(vs[k]);
        lemma_key_less_irreflexive(a);
        lemma_key_less_irreflexive(b);
        if key_less(b, a) && key_less(a, b) {
            lemma_key_less_transitive(a, b, a);
        }
    }
}

/// Whether a version answers a request.
pub fn version_admitted(v: &Version, want: Option<&str>, minimum: VersionType) -> (res: bool)
    ensures
        res == admits(*v, match want { Some(w) => Some(w@), None => None }, minimum),
{
    match want {
        Some(w) => str_equal(v.version_number.as_str(), w),
        None => v.version_type.at_least(&minimum),
    }
}

/// In a newest-first listing, the first version that answers a request is
/// the version chosen for it.
pub proof fn lemma_first_admitted_is_chosen(
    vs: Seq<Version>,
    order: Seq<usize>,
    want: Option<Seq<char>>,
    minimum: VersionType,
    p: int,
)
    requires
        vs.len() <= usize::MAX,
        is_newest_first(vs, order),
        0 <= p < order.len(),
        admits(vs[order[p] as int], want, minimum),
        forall|q: int| 0 <= q < p ==> !admits(vs[#[trigger] order[q] as int], want, minimum),
    ensures
        best_match(vs, want, minimum) == Some(order[p] as int),
{
    let i = order[p];
    assert forall|j: int| 0 <= j < vs.len() && j != i && #[trigger] admits(vs[j], want, minimum) implies listed_before(
        vs,
        i as int,
        j,
    ) by {
        assert(order.contains(j as usize));
        let q = choose|q: int| 0 <= q < order.len() && order[q] == j as usize;
        if q < p {
            assert(!admits(vs[order[q] as int], want, minimum));
        }
        assert(q != p);
        assert(listed_before(vs, order[p] as int, order[q] as int));
    }
    assert(is_best_match(vs, want, minimum, i as int));
    let c = choose|c: int| is_best_match(vs, want, minimum, c);
    lemma_best_match_unique(vs, want, minimum, i as int, c);
}

/// Chooses the version to install: the first version, newest game version
/// first, that answers the request.
pub fn choose_version(vs: &Vec<Version>, want: Option<&str>, minimum: VersionType) -> (res: Option<usize>)
    ensures
        match res {
            Some(i) => best_match(vs@, match want { Some(w) => Some(w@), None => None }, minimum) == Some(
                i as int,
            ),
            None => best_match(vs@, match want { Some(w) => Some(w@), None => None }, minimum) is None,
        },
{
    let ghost w = match want { Some(w) => Some(w@), None => None };
    let count = vs.len();
    let order = newest_first(vs);
    let mut p: usize = 0;
    while p < order.len()
        invariant
            w == match want { Some(w) => Some(w@), None => None },
            count == vs@.len(),
            is_newest_first(vs@, order@),
            p <= order@.len(),
            forall|q: int| 0 <= q < p ==> !admits(vs@[#[trigger] order@[q] as int], w, minimum),
        decreases order@.len() - p,
    {
        let i = order[p];
        let ok = version_admitted(&vs[i], want, minimum);
        if ok {
            proof {
                lemma_first_admitted_is_chosen(vs@, order@, w, minimum, p as int);
            }
            return Some(i);
        }
        p = p + 1;
    }
    proof {
        assert forall|i: int| !is_best_match(vs@, w, minimum, i) by {
            if 0 <= i < vs@.len() {
                assert(order@.contains(i as usize));
                let q = choose|q: int| 0 <= q < order@.len() && order@[q] == i as usize;
                assert(!admits(vs@[order@[q] as int], w, minimum));
            }
        }
    }
    None
}

/// The position of the first file marked primary, if any.
pub open spec fn first_primary(files: Seq<VersionFile>) -> Option<int> {
    if exists|i: int| 0 <= i < files.len() && files[i].primary {
        Some(choose|i: int| 0 <= i < files.len() && files[i].primary && forall|j: int| 0 <= j < i ==> !files[j].primary)
    } else {
        None
    }
}

/// Finds the first file marked primary.
pub fn find_primary(files: &Vec<VersionFile>) -> (res: Option<usize>)
    ensures
        match res {
            Some(i) => first_primary(files@) == Some(i as int),
            None => first_primary(files@) is None,
        },
        res matches Some(i) ==> i < files@.len(),
{
    let mut i: usize = 0;
    while i < files.len()
        invariant
            i <= files@.len(),
            forall|j: int| 0 <= j < i ==> !files@[j].primary,
        decreases files@.len() - i,
    {
        if files[i].primary {
            proof {
                let k = choose|k: int| 0 <= k < files@.len() && files@[k].primary && forall|j: int| 0 <= j < k ==> !files@[j].primary;
                assert(0 <= k < files@.len() && files@[k].primary && forall|j: int| 0 <= j < k ==> !files@[j].primary);
                if k < i {
                    assert(!files@[k].primary);
                }
                if i < k {
                    assert(!files@[i as int].primary);
                }
            }
            return Some(i);
        }
        i = i + 1;
    }
    None
}

} // verus!
