//! Sharing of layer algorithm implementations between layers.
//!
//! Every layer of a render names an algorithm kind. Running an algorithm
//! once per distinct kind, rather than once per layer, saves work on every
//! pixel; these functions decide which layers share an implementation.
use vstd::prelude::*;
use vstd::std_specs::cmp::PartialEqSpec;

verus! {

/// `a` and `b` are the same algorithm kind, as `==` on the kind type says.
pub open spec fn same_kind<K: PartialEq>(a: K, b: K) -> bool {
    a.eq_spec(&b)
}

/// The shape common to every sharing: implementation `j` is built from
/// layer `reps[j]`, which uses it; implementations are built in layer order;
/// a layer uses an implementation built from itself or an earlier layer.
pub open spec fn sharing_structure(reps: Seq<usize>, map: Seq<usize>) -> bool {
    &&& forall|j: int| 0 <= j < reps.len() ==> #[trigger] reps[j] < map.len() && map[reps[j] as int] == j
    &&& forall|j1: int, j2: int| 0 <= j1 < j2 < reps.len() ==> #[trigger] reps[j1] < #[trigger] reps[j2]
    &&& forall|i: int| 0 <= i < map.len() ==> #[trigger] map[i] < reps.len() && reps[map[i] as int] <= i
}

/// One layer added to a sharing keeps its shape, whether the layer reuses
/// an implementation built from an earlier layer or builds a new one.
proof fn lemma_structure_step(old_reps: Seq<usize>, old_map: Seq<usize>, reps: Seq<usize>, map: Seq<usize>, i: int)
    requires
        sharing_structure(old_reps, old_map),
        old_map.len() == i,
        forall|j: int| 0 <= j < old_reps.len() ==> #[trigger] old_reps[j] < i,
        map.len() == i + 1,
        map.drop_last() == old_map,
        ({
            ||| reps == old_reps && map.last() < reps.len()
            ||| i <= usize::MAX && reps == old_reps.push(i as usize) && map.last() == old_reps.len()
        }),
    ensures
        sharing_structure(reps, map),
{
    assert forall|k: int| 0 <= k < i implies #[trigger] map[k] == old_map[k] by {
        assert(map.drop_last()[k] == map[k]);
    }
    assert forall|j: int| 0 <= j < reps.len() implies #[trigger] reps[j] < map.len() && map[reps[j] as int] == j by {
        if j < old_reps.len() {
            assert(reps[j] == old_reps[j]);
            assert(map[old_reps[j] as int] == old_map[old_reps[j] as int]);
        } else {
            assert(reps[j] == i);
        }
    }
    assert forall|j1: int, j2: int| 0 <= j1 < j2 < reps.len() implies #[trigger] reps[j1] < #[trigger] reps[j2] by {
        assert(reps[j1] == old_reps[j1]);
        if j2 < old_reps.len() {
            assert(reps[j2] == old_reps[j2]);
        }
    }
    assert forall|k: int| 0 <= k < map.len() implies #[trigger] map[k] < reps.len() && reps[map[k] as int] <= k by {
        if k < i {
            assert(reps[map[k] as int] == old_reps[old_map[k] as int]);
        } else {
            if reps == old_reps {
                assert(reps[map[k] as int] < i);
            } else {
                assert(reps[map[k] as int] == i);
            }
        }
    }
}

/// `reps` and `map` describe how the first `map.len()` layers of `kinds`
/// share implementations:
/// - implementation `j` is built from layer `reps[j]`, layers in order;
/// - layer `i` uses implementation `map[i]`, the first implementation whose
///   kind is the same as the layer's; a layer whose kind matches no earlier
///   implementation gets a new one built from itself.
pub open spec fn shares_implementations<K: PartialEq>(
    kinds: Seq<K>,
    reps: Seq<usize>,
    map: Seq<usize>,
) -> bool {
    let n = map.len();
    &&& n <= kinds.len()
    &&& sharing_structure(reps, map)
    &&& forall|i: int| 0 <= i < n && reps[#[trigger] map[i] as int] != i
        ==> same_kind(kinds[reps[map[i] as int] as int], kinds[i])
    &&& forall|i: int, j: int| 0 <= i < n && 0 <= j < #[trigger] map[i]
        ==> !same_kind(kinds[#[trigger] reps[j] as int], kinds[i])
}

/// The first implementation, among those built from layers `reps`, whose
/// kind is the same as layer `i`'s.
fn first_same_kind<K: PartialEq>(kinds: &Vec<K>, reps: &Vec<usize>, i: usize) -> (found: Option<usize>)
    requires
        i < kinds.len(),
        forall|k: int| 0 <= k < reps.len() ==> #[trigger] reps[k] < kinds.len(),
    ensures
        found matches Some(f) ==> f < reps.len() && (K::obeys_eq_spec() ==> same_kind(
            kinds@[reps@[f as int] as int],
            kinds@[i as int],
        )),
        found matches Some(f) ==> (K::obeys_eq_spec() ==> forall|k: int|
            0 <= k < f ==> !same_kind(kinds@[#[trigger] reps@[k] as int], kinds@[i as int])),
        found is None ==> (K::obeys_eq_spec() ==> forall|k: int|
            0 <= k < reps.len() ==> !same_kind(kinds@[#[trigger] reps@[k] as int], kinds@[i as int])),
{
    let mut j: usize = 0;
    while j < reps.len()
        invariant
            j <= reps.len(),
            i < kinds.len(),
            forall|k: int| 0 <= k < reps.len() ==> #[trigger] reps[k] < kinds.len(),
            K::obeys_eq_spec() ==> forall|k: int|
                0 <= k < j ==> !same_kind(kinds@[#[trigger] reps@[k] as int], kinds@[i as int]),
        decreases reps.len() - j,
    {
        let rj = reps[j];
        if kinds[rj].eq(&kinds[i]) {
            return Some(j);
        }
        j = j + 1;
    }
    None
}

/// Decides which layers share an implementation: returns `(reps, map)`,
/// where implementation `j` is built from layer `reps[j]` and layer `i`
/// uses implementation `map[i]` (see [`shares_implementations`]).
pub fn shared_implementation_map<K: PartialEq>(kinds: &Vec<K>) -> (res: (Vec<usize>, Vec<usize>))
    ensures
        res.1.len() == kinds.len(),
        res.0.len() <= kinds.len(),
        sharing_structure(res.0@, res.1@),
        K::obeys_eq_spec() ==> shares_implementations(kinds@, res.0@, res.1@),
{
    let mut reps: Vec<usize> = Vec::new();
    let mut map: Vec<usize> = Vec::new();
    let n = kinds.len();
    let mut i: usize = 0;
    while i < n
        invariant
            n == kinds.len(),
            i <= n,
            map.len() == i,
            reps.len() <= i,
            sharing_structure(reps@, map@),
            K::obeys_eq_spec() ==> shares_implementations(kinds@, reps@, map@),
            forall|j: int| 0 <= j < reps.len() ==> #[trigger] reps[j] < i,
        decreases n - i,
    {
        let rn = reps.len();
        let found = first_same_kind(kinds, &reps, i);
        let ghost old_reps = reps@;
        let ghost old_map = map@;
        match found {
            Some(f) => {
                map.push(f);
            },
            None => {
                reps.push(i);
                map.push(rn);
            },
        }
        proof {
            assert(map@.drop_last() =~= old_map);
            lemma_structure_step(old_reps, old_map, reps@, map@, i as int);
            if K::obeys_eq_spec() {
                assert(map@.drop_last() =~= old_map);
                assert forall|ii: int, jj: int| 0 <= ii < map.len() && 0 <= jj < #[trigger] map@[ii]
                    implies !same_kind(kinds@[#[trigger] reps@[jj] as int], kinds@[ii]) by {
                    if ii < i {
                        assert(map@[ii] == old_map[ii]);
                        assert(reps@[jj] == old_reps[jj]);
                    }
                }
                assert forall|ii: int| 0 <= ii < map.len() && reps@[#[trigger] map@[ii] as int] != ii
                    implies same_kind(kinds@[reps@[map@[ii] as int] as int], kinds@[ii]) by {
                    if ii < i {
                        assert(map@[ii] == old_map[ii]);
                        assert(reps@[map@[ii] as int] == old_reps[old_map[ii] as int]);
                    }
                }
                assert forall|jj: int| 0 <= jj < reps.len() implies #[trigger] reps@[jj] < map.len()
                    && map@[reps@[jj] as int] == jj by {
                    if jj < old_reps.len() {
                        assert(reps@[jj] == old_reps[jj]);
                    }
                }
                assert forall|ii: int| 0 <= ii < map.len() implies #[trigger] map@[ii] < reps.len()
                    && reps@[map@[ii] as int] <= ii by {
                    if ii < i {
                        assert(map@[ii] == old_map[ii]);
                        assert(reps@[map@[ii] as int] == old_reps[old_map[ii] as int]);
                    }
                }
                assert forall|j1: int, j2: int| 0 <= j1 < j2 < reps.len()
                    implies #[trigger] reps@[j1] < #[trigger] reps@[j2] by {
                    if j2 < old_reps.len() {
                        assert(reps@[j1] == old_reps[j1]);
                        assert(reps@[j2] == old_reps[j2]);
                    } else {
                        assert(reps@[j1] == old_reps[j1]);
                    }
                }
            }
            assert forall|jj: int| 0 <= jj < reps.len() implies #[trigger] reps@[jj] < i + 1 by {
                if jj < old_reps.len() {
                    assert(reps@[jj] == old_reps[jj]);
                }
            }
        }
        i = i + 1;
    }
    (reps, map)
}

/// `r` is the first entry of `registry` with the same kind as `k`.
pub open spec fn is_slot<K: PartialEq>(registry: Seq<K>, k: K, r: int) -> bool {
    &&& 0 <= r < registry.len()
    &&& same_kind(registry[r], k)
    &&& forall|r2: int| 0 <= r2 < r ==> !same_kind(#[trigger] registry[r2], k)
}

/// No entry of `registry` has the same kind as `k`.
pub open spec fn has_no_slot<K: PartialEq>(registry: Seq<K>, k: K) -> bool {
    forall|r: int| 0 <= r < registry.len() ==> !same_kind(#[trigger] registry[r], k)
}

/// `reps` and `map` describe how the first `map.len()` layers of `kinds`
/// share implementations when only the kinds listed in `registry` are
/// shared:
/// - implementation `j` is built from layer `reps[j]`, layers in order;
/// - a layer whose kind is in no registry entry gets its own implementation;
/// - a layer whose kind first matches registry entry `r` uses the
///   implementation built from the first layer that also matches entry `r`.
pub open spec fn reuses_registered<K: PartialEq>(
    kinds: Seq<K>,
    registry: Seq<K>,
    reps: Seq<usize>,
    map: Seq<usize>,
) -> bool {
    let n = map.len();
    &&& n <= kinds.len()
    &&& sharing_structure(reps, map)
    &&& forall|i: int| 0 <= i < n && has_no_slot(registry, kinds[i]) ==> reps[#[trigger] map[i] as int] == i
    &&& forall|i: int, r: int| 0 <= i < n && #[trigger] is_slot(registry, kinds[i], r)
        ==> is_slot(registry, kinds[reps[map[i] as int] as int], r)
    &&& forall|i: int, i2: int, r: int| 0 <= i < n && 0 <= i2 < reps[map[i] as int]
        && #[trigger] is_slot(registry, kinds[i], r)
        ==> !#[trigger] is_slot(registry, kinds[i2], r)
}

/// The first registry entry with the same kind as `k`.
fn registry_slot<K: PartialEq>(registry: &Vec<K>, k: &K) -> (slot: Option<usize>)
    ensures
        slot matches Some(r) ==> r < registry.len(),
        K::obeys_eq_spec() ==> (slot matches Some(r) ==> is_slot(registry@, *k, r as int)),
        K::obeys_eq_spec() ==> (slot is None ==> has_no_slot(registry@, *k)),
{
    let mut r: usize = 0;
    while r < registry.len()
        invariant
            r <= registry.len(),
            K::obeys_eq_spec() ==> forall|r2: int| 0 <= r2 < r ==> !same_kind(#[trigger] registry@[r2], *k),
        decreases registry.len() - r,
    {
        if registry[r].eq(k) {
            return Some(r);
        }
        r = r + 1;
    }
    None
}

/// Decides which layers share an implementation when only the kinds in
/// `registry` may be shared: returns `(reps, map)`, where implementation
/// `j` is built from layer `reps[j]` and layer `i` uses implementation
/// `map[i]` (see [`reuses_registered`]).
pub fn registered_implementation_map<K: PartialEq>(kinds: &Vec<K>, registry: &Vec<K>) -> (res: (Vec<usize>, Vec<usize>))
    ensures
        res.1.len() == kinds.len(),
        res.0.len() <= kinds.len(),
        sharing_structure(res.0@, res.1@),
        K::obeys_eq_spec() ==> reuses_registered(kinds@, registry@, res.0@, res.1@),
{
    let mut reps: Vec<usize> = Vec::new();
    let mut map: Vec<usize> = Vec::new();
    let mut cache: Vec<Option<usize>> = Vec::new();
    let mut c: usize = 0;
    while c < registry.len()
        invariant
            c <= registry.len(),
            cache.len() == c,
            forall|r: int| 0 <= r < c ==> #[trigger] cache@[r] is None,
        decreases registry.len() - c,
    {
        cache.push(None);
        c = c + 1;
    }
    let n = kinds.len();
    let mut i: usize = 0;
    while i < n
        invariant
            n == kinds.len(),
            i <= n,
            map.len() == i,
            reps.len() <= i,
            cache.len() == registry.len(),
            forall|j: int| 0 <= j < reps.len() ==> #[trigger] reps[j] < i,
            forall|r: int| 0 <= r < cache.len() ==> (#[trigger] cache@[r] matches Some(idx) ==> idx < reps.len()),
            sharing_structure(reps@, map@),
            K::obeys_eq_spec() ==> reuses_registered(kinds@, registry@, reps@, map@),
            K::obeys_eq_spec() ==> forall|r: int| 0 <= r < cache.len() ==> (#[trigger] cache@[r] matches Some(idx) ==> {
                &&& is_slot(registry@, kinds@[reps@[idx as int] as int], r)
                &&& forall|i2: int| 0 <= i2 < reps@[idx as int] ==> !#[trigger] is_slot(registry@, kinds@[i2], r)
            }),
            K::obeys_eq_spec() ==> forall|r: int| 0 <= r < cache.len() ==> (#[trigger] cache@[r] is None ==>
                forall|i2: int| 0 <= i2 < i ==> !#[trigger] is_slot(registry@, kinds@[i2], r)),
        decreases n - i,
    {
        let ghost old_reps = reps@;
        let ghost old_map = map@;
        let ghost old_cache = cache@;
        let slot = registry_slot(registry, &kinds[i]);
        match slot {
            Some(r) => {
                match cache[r] {
                    Some(idx) => {
                        map.push(idx);
                    },
                    None => {
                        let idx = reps.len();
                        reps.push(i);
                        map.push(idx);
                        cache[r] = Some(idx);
                    },
                }
            },
            None => {
                let idx = reps.len();
                reps.push(i);
                map.push(idx);
            },
        }
        proof {
            assert forall|jj: int| 0 <= jj < reps.len() implies #[trigger] reps@[jj] < i + 1 by {
                if jj < old_reps.len() {
                    assert(reps@[jj] == old_reps[jj]);
                }
            }
            assert(map@.drop_last() =~= old_map);
            lemma_structure_step(old_reps, old_map, reps@, map@, i as int);
            if K::obeys_eq_spec() {
                lemma_registered_step(kinds@, registry@, old_reps, old_map, old_cache, reps@, map@, cache@, i as int, slot);
            }
        }
        i = i + 1;
    }
    (reps, map)
}

proof fn lemma_registered_step<K: PartialEq>(
    kinds: Seq<K>,
    registry: Seq<K>,
    old_reps: Seq<usize>,
    old_map: Seq<usize>,
    old_cache: Seq<Option<usize>>,
    reps: Seq<usize>,
    map: Seq<usize>,
    cache: Seq<Option<usize>>,
    i: int,
    slot: Option<usize>,
)
    requires
        0 <= i < kinds.len(),
        i < usize::MAX,
        old_map.len() == i,
        old_cache.len() == registry.len(),
        forall|j: int| 0 <= j < old_reps.len() ==> #[trigger] old_reps[j] < i,
        forall|r: int| 0 <= r < old_cache.len() ==> (#[trigger] old_cache[r] matches Some(idx) ==> idx < old_reps.len()),
        reuses_registered(kinds, registry, old_reps, old_map),
        forall|r: int| 0 <= r < old_cache.len() ==> (#[trigger] old_cache[r] matches Some(idx) ==> {
            &&& is_slot(registry, kinds[old_reps[idx as int] as int], r)
            &&& forall|i2: int| 0 <= i2 < old_reps[idx as int] ==> !#[trigger] is_slot(registry, kinds[i2], r)
        }),
        forall|r: int| 0 <= r < old_cache.len() ==> (#[trigger] old_cache[r] is None ==>
            forall|i2: int| 0 <= i2 < i ==> !#[trigger] is_slot(registry, kinds[i2], r)),
        slot matches Some(r) ==> is_slot(registry, kinds[i], r as int),
        slot is None ==> has_no_slot(registry, kinds[i]),
        map.len() == i + 1,
        map.drop_last() == old_map,
        // the step taken
        slot is None ==> reps == old_reps.push(i as usize) && map.last() == old_reps.len() && cache == old_cache,
        slot matches Some(r) ==> (old_cache[r as int] matches Some(idx) ==>
            reps == old_reps && map.last() == idx && cache == old_cache),
        slot matches Some(r) ==> (old_cache[r as int] is None ==>
            reps == old_reps.push(i as usize) && map.last() == old_reps.len()
            && cache == old_cache.update(r as int, Some(old_reps.len() as usize))),
    ensures
        reuses_registered(kinds, registry, reps, map),
        forall|r: int| 0 <= r < cache.len() ==> (#[trigger] cache[r] matches Some(idx) ==> {
            &&& is_slot(registry, kinds[reps[idx as int] as int], r)
            &&& forall|i2: int| 0 <= i2 < reps[idx as int] ==> !#[trigger] is_slot(registry, kinds[i2], r)
        }),
        forall|r: int| 0 <= r < cache.len() ==> (#[trigger] cache[r] is None ==>
            forall|i2: int| 0 <= i2 <= i ==> !#[trigger] is_slot(registry, kinds[i2], r)),
{
    assert forall|ii: int| 0 <= ii < i implies #[trigger] map[ii] == old_map[ii] by {
        assert(map.drop_last()[ii] == map[ii]);
    }
    assert forall|jj: int| 0 <= jj < old_reps.len() implies #[trigger] reps[jj] == old_reps[jj] by {}
    lemma_slot_unique(registry, kinds[i]);
    assert(reps == old_reps || reps == old_reps.push(i as usize)) by {
        match slot {
            Some(r) => {
                if old_cache[r as int] is None {
                } else {
                }
            },
            None => {},
        }
    }
    assert forall|jj: int| 0 <= jj < reps.len() implies #[trigger] reps[jj] < map.len()
        && map[reps[jj] as int] == jj by {
        if jj < old_reps.len() {
            assert(reps[jj] == old_reps[jj]);
            assert(map[old_reps[jj] as int] == old_map[old_reps[jj] as int]);
        } else {
            assert(reps != old_reps);
            assert(reps == old_reps.push(i as usize));
            assert(reps[jj] == i);
            assert(map[i] == map.last());
        }
    }
    assert forall|j1: int, j2: int| 0 <= j1 < j2 < reps.len() implies #[trigger] reps[j1] < #[trigger] reps[j2] by {
        assert(reps[j1] == old_reps[j1]);
        if j2 < old_reps.len() {
            assert(reps[j2] == old_reps[j2]);
        }
    }
    assert forall|ii: int| 0 <= ii < map.len() implies #[trigger] map[ii] < reps.len()
        && reps[map[ii] as int] <= ii by {
        if ii < i {
            assert(map[ii] == old_map[ii]);
            assert(reps[map[ii] as int] == old_reps[old_map[ii] as int]);
        }
    }
    assert forall|ii: int| 0 <= ii < map.len() && has_no_slot(registry, kinds[ii])
        implies reps[#[trigger] map[ii] as int] == ii by {
        if ii < i {
            assert(map[ii] == old_map[ii]);
            assert(reps[map[ii] as int] == old_reps[old_map[ii] as int]);
        } else {
            if let Some(r) = slot {
                assert(!has_no_slot(registry, kinds[i]));
            }
        }
    }
    assert forall|ii: int, r: int| 0 <= ii < map.len() && #[trigger] is_slot(registry, kinds[ii], r)
        implies is_slot(registry, kinds[reps[map[ii] as int] as int], r) by {
        if ii < i {
            assert(map[ii] == old_map[ii]);
            assert(reps[map[ii] as int] == old_reps[old_map[ii] as int]);
        } else {
            if let Some(s) = slot {
                assert(s == r);
                if let Some(idx) = old_cache[r] {
                    assert(reps[map[ii] as int] == old_reps[idx as int]);
                }
            } else {
                assert(!has_no_slot(registry, kinds[i]));
            }
        }
    }
    assert forall|ii: int, i2: int, r: int| 0 <= ii < map.len() && 0 <= i2 < reps[map[ii] as int]
        && #[trigger] is_slot(registry, kinds[ii], r)
        implies !#[trigger] is_slot(registry, kinds[i2], r) by {
        if ii < i {
            assert(map[ii] == old_map[ii]);
            assert(reps[map[ii] as int] == old_reps[old_map[ii] as int]);
        } else {
            if let Some(s) = slot {
                assert(s == r);
                if let Some(idx) = old_cache[r] {
                    assert(reps[map[ii] as int] == old_reps[idx as int]);
                } else {
                    assert(reps[map[ii] as int] == i);
                }
            } else {
                assert(!has_no_slot(registry, kinds[i]));
            }
        }
    }
    assert forall|r: int| 0 <= r < cache.len() implies (#[trigger] cache[r] matches Some(idx) ==> {
        &&& is_slot(registry, kinds[reps[idx as int] as int], r)
        &&& forall|i2: int| 0 <= i2 < reps[idx as int] ==> !#[trigger] is_slot(registry, kinds[i2], r)
    }) by {
        if let Some(idx) = cache[r] {
            if let Some(s) = slot {
                if old_cache[s as int] is None && r == s {
                    assert(idx == old_reps.len());
                    assert(reps[idx as int] == i);
                } else {
                    assert(cache[r] == old_cache[r]);
                    assert(reps[idx as int] == old_reps[idx as int]);
                }
            } else {
                assert(cache[r] == old_cache[r]);
                assert(reps[idx as int] == old_reps[idx as int]);
            }
        }
    }
    assert forall|r: int| 0 <= r < cache.len() && #[trigger] cache[r] is None implies
        forall|i2: int| 0 <= i2 <= i ==> !#[trigger] is_slot(registry, kinds[i2], r) by {
        {
            if let Some(s) = slot {
                if old_cache[s as int] is None && r == s {
                    assert(cache[r] == Some(old_reps.len() as usize));
                } else {
                    assert(cache[r] == old_cache[r]);
                    if old_cache[s as int] is None {
                        assert(r != s);
                    } else {
                        assert(r != s);
                    }
                    assert(!is_slot(registry, kinds[i], r));
                }
            } else {
                assert(cache[r] == old_cache[r]);
                assert(!is_slot(registry, kinds[i], r));
            }
        }
    }
}

/// A kind has at most one first matching registry entry, and never both one
/// and none.
proof fn lemma_slot_unique<K: PartialEq>(registry: Seq<K>, k: K)
    ensures
        forall|r1: int, r2: int| is_slot(registry, k, r1) && is_slot(registry, k, r2) ==> r1 == r2,
        forall|r: int| is_slot(registry, k, r) ==> !has_no_slot(registry, k),
{
    assert forall|r1: int, r2: int| is_slot(registry, k, r1) && is_slot(registry, k, r2) implies r1 == r2 by {
        if r1 < r2 {
            assert(!same_kind(registry[r1], k));
        } else if r2 < r1 {
            assert(!same_kind(registry[r2], k));
        }
    }
}

/// No two shared implementations are of the same kind: the implementation
/// built for a later kind is never the same kind as an earlier one.
pub proof fn lemma_shared_implementations_distinct<K: PartialEq>(
    kinds: Seq<K>,
    reps: Seq<usize>,
    map: Seq<usize>,
    j1: int,
    j2: int,
)
    requires
        shares_implementations(kinds, reps, map),
        0 <= j1 < j2 < reps.len(),
    ensures
        !same_kind(kinds[reps[j1] as int], kinds[reps[j2] as int]),
{
    let i = reps[j2] as int;
    assert(map[i] == j2);
    assert(0 <= i < map.len());
}

/// Each layer runs an implementation of its own kind: either the one built
/// from the layer itself, or one built from a layer of the same kind.
pub proof fn lemma_shared_implementation_matches_layer<K: PartialEq>(
    kinds: Seq<K>,
    reps: Seq<usize>,
    map: Seq<usize>,
    i: int,
)
    requires
        shares_implementations(kinds, reps, map),
        0 <= i < map.len(),
    ensures
        map[i] < reps.len(),
        reps[map[i] as int] == i || same_kind(kinds[reps[map[i] as int] as int], kinds[i]),
{
}

/// Two layers that match the same registry entry share one implementation.
pub proof fn lemma_registered_same_entry_shares<K: PartialEq>(
    kinds: Seq<K>,
    registry: Seq<K>,
    reps: Seq<usize>,
    map: Seq<usize>,
    i1: int,
    i2: int,
    r: int,
)
    requires
        reuses_registered(kinds, registry, reps, map),
        0 <= i1 < map.len(),
        0 <= i2 < map.len(),
        is_slot(registry, kinds[i1], r),
        is_slot(registry, kinds[i2], r),
    ensures
        map[i1] == map[i2],
{
    let p1 = reps[map[i1] as int] as int;
    let p2 = reps[map[i2] as int] as int;
    assert(is_slot(registry, kinds[p1], r));
    assert(is_slot(registry, kinds[p2], r));
    if p1 < p2 {
        assert(!is_slot(registry, kinds[p1], r));
    } else if p2 < p1 {
        assert(!is_slot(registry, kinds[p2], r));
    }
    assert(map[p1] == map[i1]);
    assert(map[p2] == map[i2]);
}

/// A layer whose kind is in no registry entry shares its implementation
/// with no other layer.
pub proof fn lemma_unregistered_not_shared<K: PartialEq>(
    kinds: Seq<K>,
    registry: Seq<K>,
    reps: Seq<usize>,
    map: Seq<usize>,
    i: int,
    i2: int,
)
    requires
        reuses_registered(kinds, registry, reps, map),
        0 <= i < map.len(),
        0 <= i2 < map.len(),
        i != i2,
        has_no_slot(registry, kinds[i]),
    ensures
        map[i] != map[i2],
{
    if map[i] == map[i2] {
        assert(reps[map[i] as int] == i);
        if has_no_slot(registry, kinds[i2]) {
            assert(reps[map[i2] as int] == i2);
        } else {
            let r = choose|r: int| 0 <= r < registry.len() && same_kind(#[trigger] registry[r], kinds[i2]);
            lemma_first_slot_exists(registry, kinds[i2], r);
            let r0 = choose|r0: int| is_slot(registry, kinds[i2], r0);
            assert(is_slot(registry, kinds[reps[map[i2] as int] as int], r0));
            assert(same_kind(registry[r0], kinds[i]));
        }
    }
}

/// If some registry entry has the same kind as `k`, a first one does.
proof fn lemma_first_slot_exists<K: PartialEq>(registry: Seq<K>, k: K, r: int)
    requires
        0 <= r < registry.len(),
        same_kind(registry[r], k),
    ensures
        exists|r0: int| is_slot(registry, k, r0),
    decreases r,
{
    if exists|r2: int| 0 <= r2 < r && same_kind(#[trigger] registry[r2], k) {
        let r2 = choose|r2: int| 0 <= r2 < r && same_kind(#[trigger] registry[r2], k);
        lemma_first_slot_exists(registry, k, r2);
    } else {
        assert(is_slot(registry, k, r));
    }
}

/// Implementations agree on what earlier layers used: when two sharings of
/// the same kinds give the first `i` layers the same implementations, they
/// built those implementations from the same layers.
proof fn lemma_early_reps_agree(
    reps1: Seq<usize>,
    map1: Seq<usize>,
    reps2: Seq<usize>,
    map2: Seq<usize>,
    i: int,
    j: int,
)
    requires
        sharing_structure(reps1, map1),
        sharing_structure(reps2, map2),
        map1.len() == map2.len(),
        0 <= i <= map1.len(),
        forall|k: int| 0 <= k < i ==> map1[k] == map2[k],
        0 <= j < reps1.len(),
        reps1[j] < i,
    ensures
        j < reps2.len(),
        reps2[j] == reps1[j],
{
    let x = reps1[j] as int;
    assert(map1[x] == j);
    assert(map2[x] == j);
    assert(reps2[map2[x] as int] <= x);
    let y = reps2[j] as int;
    assert(map2[y] == j);
    assert(map1[y] == map2[y]);
    assert(reps1[map1[y] as int] <= y);
}

/// The sharing is determined by the kinds alone: any two ways of sharing
/// implementations among the same layers that both satisfy
/// [`shares_implementations`] are the same.
pub proof fn lemma_sharing_is_unique<K: PartialEq>(
    kinds: Seq<K>,
    reps1: Seq<usize>,
    map1: Seq<usize>,
    reps2: Seq<usize>,
    map2: Seq<usize>,
)
    requires
        shares_implementations(kinds, reps1, map1),
        shares_implementations(kinds, reps2, map2),
        map1.len() == kinds.len(),
        map2.len() == kinds.len(),
    ensures
        map1 == map2,
        reps1 == reps2,
{
    lemma_maps_agree_upto(kinds, reps1, map1, reps2, map2, kinds.len() as int);
    assert(map1 =~= map2);
    lemma_structure_reps_agree(reps1, map1, reps2, map2);
}

/// Two sharing shapes that give every layer the same implementation were
/// built from the same layers.
proof fn lemma_structure_reps_agree(
    reps1: Seq<usize>,
    map1: Seq<usize>,
    reps2: Seq<usize>,
    map2: Seq<usize>,
)
    requires
        sharing_structure(reps1, map1),
        sharing_structure(reps2, map2),
        map1 == map2,
    ensures
        reps1 == reps2,
{
    let n = map1.len() as int;
    assert forall|j: int| 0 <= j < reps1.len() implies j < reps2.len() && reps2[j] == #[trigger] reps1[j] by {
        lemma_early_reps_agree(reps1, map1, reps2, map2, n, j);
    }
    assert forall|j: int| 0 <= j < reps2.len() implies j < reps1.len() && #[trigger] reps2[j] == reps2[j] by {
        lemma_early_reps_agree(reps2, map2, reps1, map1, n, j);
    }
    assert(reps1.len() == reps2.len()) by {
        if reps1.len() < reps2.len() {
            let j = reps1.len() as int;
            lemma_early_reps_agree(reps2, map2, reps1, map1, n, j);
        } else if reps2.len() < reps1.len() {
            let j = reps2.len() as int;
            lemma_early_reps_agree(reps1, map1, reps2, map2, n, j);
        }
    }
    assert(reps1 =~= reps2);
}

proof fn lemma_maps_agree_upto<K: PartialEq>(
    kinds: Seq<K>,
    reps1: Seq<usize>,
    map1: Seq<usize>,
    reps2: Seq<usize>,
    map2: Seq<usize>,
    i: int,
)
    requires
        shares_implementations(kinds, reps1, map1),
        shares_implementations(kinds, reps2, map2),
        map1.len() == map2.len(),
        0 <= i <= map1.len(),
    ensures
        forall|k: int| 0 <= k < i ==> map1[k] == map2[k],
    decreases i,
{
    if i > 0 {
        let c = i - 1;
        lemma_maps_agree_upto(kinds, reps1, map1, reps2, map2, c);
        let a = map1[c] as int;
        let b = map2[c] as int;
        if a != b {
            // whatever layer `c` used in one sharing was an earlier choice in the other
            if b < a {
                // `b` was built before layer `c` in the first sharing
                assert(reps1[b] < reps1[a]);
                assert(reps1[a] <= c);
                lemma_early_reps_agree(reps1, map1, reps2, map2, c, b);
                assert(reps2[b] == reps1[b]);
                assert(!same_kind(kinds[reps1[b] as int], kinds[c]));
                assert(reps2[map2[c] as int] != c);
                assert(false);
            } else {
                assert(reps2[a] < reps2[b]);
                assert(reps2[b] <= c);
                lemma_early_reps_agree(reps2, map2, reps1, map1, c, a);
                assert(reps1[a] == reps2[a]);
                assert(!same_kind(kinds[reps2[a] as int], kinds[c]));
                assert(reps1[map1[c] as int] != c);
                assert(false);
            }
        }
    }
}

/// The registered sharing is determined by the kinds and the registry
/// alone: any two ways of sharing implementations among the same layers
/// that both satisfy [`reuses_registered`] are the same.
pub proof fn lemma_registered_sharing_is_unique<K: PartialEq>(
    kinds: Seq<K>,
    registry: Seq<K>,
    reps1: Seq<usize>,
    map1: Seq<usize>,
    reps2: Seq<usize>,
    map2: Seq<usize>,
)
    requires
        reuses_registered(kinds, registry, reps1, map1),
        reuses_registered(kinds, registry, reps2, map2),
        map1.len() == kinds.len(),
        map2.len() == kinds.len(),
    ensures
        map1 == map2,
        reps1 == reps2,
{
    lemma_registered_maps_agree_upto(kinds, registry, reps1, map1, reps2, map2, kinds.len() as int);
    assert(map1 =~= map2);
    lemma_structure_reps_agree(reps1, map1, reps2, map2);
}

/// The layer an implementation used by layer `c` is built from is the same
/// in any two registered sharings.
proof fn lemma_registered_same_source<K: PartialEq>(
    kinds: Seq<K>,
    registry: Seq<K>,
    reps1: Seq<usize>,
    map1: Seq<usize>,
    reps2: Seq<usize>,
    map2: Seq<usize>,
    c: int,
)
    requires
        reuses_registered(kinds, registry, reps1, map1),
        reuses_registered(kinds, registry, reps2, map2),
        0 <= c < map1.len(),
        0 <= c < map2.len(),
    ensures
        reps1[map1[c] as int] == reps2[map2[c] as int],
{
    let p1 = reps1[map1[c] as int] as int;
    let p2 = reps2[map2[c] as int] as int;
    if has_no_slot(registry, kinds[c]) {
        assert(p1 == c);
        assert(p2 == c);
    } else {
        let r = choose|r: int| 0 <= r < registry.len() && same_kind(#[trigger] registry[r], kinds[c]);
        lemma_first_slot_exists(registry, kinds[c], r);
        let r0 = choose|r0: int| is_slot(registry, kinds[c], r0);
        assert(is_slot(registry, kinds[p1], r0));
        assert(is_slot(registry, kinds[p2], r0));
        if p1 < p2 {
            assert(!is_slot(registry, kinds[p1], r0));
        } else if p2 < p1 {
            assert(!is_slot(registry, kinds[p2], r0));
        }
    }
}

proof fn lemma_registered_maps_agree_upto<K: PartialEq>(
    kinds: Seq<K>,
    registry: Seq<K>,
    reps1: Seq<usize>,
    map1: Seq<usize>,
    reps2: Seq<usize>,
    map2: Seq<usize>,
    i: int,
)
    requires
        reuses_registered(kinds, registry, reps1, map1),
        reuses_registered(kinds, registry, reps2, map2),
        map1.len() == map2.len(),
        0 <= i <= map1.len(),
    ensures
        forall|k: int| 0 <= k < i ==> map1[k] == map2[k],
    decreases i,
{
    if i > 0 {
        let c = i - 1;
        lemma_registered_maps_agree_upto(kinds, registry, reps1, map1, reps2, map2, c);
        let a = map1[c] as int;
        let b = map2[c] as int;
        lemma_registered_same_source(kinds, registry, reps1, map1, reps2, map2, c);
        let p = reps1[a] as int;
        assert(reps2[b] == p);
        if p < c {
            // both sharings gave the earlier layer `p` the implementation it built
            assert(map1[p] == a);
            assert(map2[p] == b);
        } else if a != b {
            // layer `c` built its own implementation in both sharings
            if b < a {
                assert(reps1[b] < reps1[a]);
                lemma_early_reps_agree(reps1, map1, reps2, map2, c, b);
            } else {
                assert(reps2[a] < reps2[b]);
                lemma_early_reps_agree(reps2, map2, reps1, map1, c, a);
            }
        }
    }
}

} // verus!
