//! How a palette maps iteration values to colours.
use std::collections::HashSet;
use vstd::prelude::*;

verus! {

/// Determines how percentages map to colours for a palette.
#[derive(Clone, Copy, Debug, PartialEq, Eq, Structural)]
pub enum PaletteMappingType {
    /// The palette stays the same regardless of the max iterations.
    ///
    /// Higher max iterations = more iteration points used to represent the same palette.
    ///
    /// % Iteration -> Colour constant
    Constant,
    /// The palette length stays the same, being repeated further with a higher max iterations.
    ///
    /// Iteration -> Colour constant
    Repeated,
}

impl PaletteMappingType {
    /// Every mapping type, in menu order.
    pub fn get_variants() -> (variants: Vec<PaletteMappingType>)
        ensures
            variants@ == seq![PaletteMappingType::Constant, PaletteMappingType::Repeated],
    {
        vec![PaletteMappingType::Constant, PaletteMappingType::Repeated]
    }

    /// The label of the mapping type.
    pub open spec fn text(self) -> Seq<char> {
        match self {
            PaletteMappingType::Constant => "Percentage"@,
            PaletteMappingType::Repeated => "Iteration"@,
        }
    }

    /// The label of the mapping type.
    pub fn get_text(&self) -> (text: &'static str)
        ensures
            text@ == self.text(),
    {
        match self {
            PaletteMappingType::Constant => "Percentage",
            PaletteMappingType::Repeated => "Iteration",
        }
    }
}

/// Whether no two colour points of a colour map share a position, given
/// their positions in hundredths of the palette.
pub fn unique_point_positions(positions: &Vec<u32>) -> (unique: bool)
    ensures
        unique == forall|i: int, j: int| 0 <= i < j < positions.len() ==> positions[i] != positions[j],
{
    broadcast use vstd::std_specs::hash::group_hash_axioms;
    let mut seen: HashSet<u32> = HashSet::new();
    let mut i: usize = 0;
    while i < positions.len()
        invariant
            i <= positions.len(),
            seen@ == positions@.take(i as int).to_set(),
            forall|a: int, b: int| 0 <= a < b < i ==> positions[a] != positions[b],
        decreases positions.len() - i,
    {
        let ghost before = seen@;
        if !seen.insert(positions[i]) {
            proof {
                let k = positions[i as int];
                assert(positions@.take(i as int).contains(k));
                let a = choose|a: int| 0 <= a < i && positions@.take(i as int)[a] == k;
                assert(positions[a] == positions[i as int]);
            }
            return false;
        }
        proof {
            let t = positions@.take(i + 1);
            assert(t =~= positions@.take(i as int).push(positions[i as int]));
            assert(t.drop_last() =~= positions@.take(i as int));
            assert(seen@ =~= t.to_set()) by {
                assert forall|k: u32| seen@.contains(k) <==> t.to_set().contains(k) by {
                    if k == positions[i as int] {
                        assert(t[i as int] == k);
                    } else if positions@.take(i as int).contains(k) {
                        let a = choose|a: int| 0 <= a < i && positions@.take(i as int)[a] == k;
                        assert(t[a] == k);
                    } else if t.contains(k) {
                        let a = choose|a: int| 0 <= a < i + 1 && t[a] == k;
                        assert(positions@.take(i as int)[a] == k);
                    }
                }
            }
            assert(!positions@.take(i as int).contains(positions[i as int]));
            assert forall|a: int, b: int| 0 <= a < b < i + 1 implies positions[a] != positions[b] by {
                if b == i {
                    assert(positions@.take(i as int)[a] == positions[a]);
                }
            }
        }
        i = i + 1;
    }
    true
}

/// Removes the colour point at `index`, unless it is the only point left
/// (a colour map keeps at least one point).
pub fn remove_point<P>(points: &mut Vec<P>, index: usize)
    requires
        old(points).len() > 1 ==> index < old(points).len(),
    ensures
        old(points).len() <= 1 ==> final(points)@ == old(points)@,
        old(points).len() > 1 ==> final(points)@ == old(points)@.remove(index as int),
{
    if points.len() <= 1 {
        return;
    }
    points.remove(index);
}

/// Point `a` comes before point `b` when sorted by `keys`: a smaller key
/// first, and of two equal keys the one listed first.
pub open spec fn key_before(keys: Seq<u32>, a: int, b: int) -> bool {
    keys[a] < keys[b] || (keys[a] == keys[b] && a < b)
}

/// `order` lists every point of `keys` exactly once, sorted by key, points
/// with equal keys in the order they were listed (a stable sort).
pub open spec fn is_stable_key_order(keys: Seq<u32>, order: Seq<usize>) -> bool {
    &&& order.len() == keys.len()
    &&& forall|a: int| 0 <= a < order.len() ==> #[trigger] order[a] < keys.len()
    &&& forall|a: int, b: int| 0 <= a < b < order.len()
        ==> key_before(keys, #[trigger] order[a] as int, #[trigger] order[b] as int)
    &&& forall|p: int| 0 <= p < keys.len() ==> #[trigger] order.contains(p as usize)
}

/// The order of colour points sorted by their positions `keys` (in
/// hundredths of the palette), stable for points at the same position.
pub fn sorted_point_order(keys: &Vec<u32>) -> (order: Vec<usize>)
    ensures
        is_stable_key_order(keys@, order@),
{
    let n = keys.len();
    let mut order: Vec<usize> = Vec::new();
    let mut i: usize = 0;
    while i < n
        invariant
            n == keys.len(),
            i <= n,
            order.len() == i,
            forall|a: int| 0 <= a < order.len() ==> #[trigger] order[a] < i,
            forall|a: int, b: int| 0 <= a < b < order.len()
                ==> key_before(keys@, #[trigger] order[a] as int, #[trigger] order[b] as int),
            forall|p: int| 0 <= p < i ==> #[trigger] order@.contains(p as usize),
        decreases n - i,
    {
        let key = keys[i];
        let mut pos: usize = 0;
        while pos < order.len() && keys[order[pos]] <= key
            invariant
                n == keys.len(),
                i < n,
                key == keys[i as int],
                pos <= order.len(),
                forall|a: int| 0 <= a < order.len() ==> #[trigger] order[a] < i,
                forall|q: int| 0 <= q < pos ==> keys[#[trigger] order[q] as int] <= key,
            decreases order.len() - pos,
        {
            pos = pos + 1;
        }
        let ghost old_order = order@;
        order.insert(pos, i);
        proof {
            assert forall|a: int| 0 <= a < order.len() implies #[trigger] order[a] < i + 1 by {
                if a < pos {
                    assert(order[a] == old_order[a]);
                } else if a > pos {
                    assert(order[a] == old_order[a - 1]);
                }
            }
            assert forall|a: int, b: int| 0 <= a < b < order.len()
                implies key_before(keys@, #[trigger] order[a] as int, #[trigger] order[b] as int) by {
                if b < pos {
                    assert(order[a] == old_order[a] && order[b] == old_order[b]);
                } else if b == pos {
                    assert(order[a] == old_order[a]);
                } else if a < pos {
                    assert(order[a] == old_order[a] && order[b] == old_order[b - 1]);
                } else if a == pos {
                    assert(order[b] == old_order[b - 1]);
                    assert(keys[old_order[pos as int] as int] > key);
                    if b - 1 > pos {
                        assert(key_before(keys@, old_order[pos as int] as int, old_order[b - 1] as int));
                    }
                } else {
                    assert(order[a] == old_order[a - 1] && order[b] == old_order[b - 1]);
                }
            }
            assert forall|p: int| 0 <= p < i + 1 implies #[trigger] order@.contains(p as usize) by {
                if p == i {
                    assert(order[pos as int] == i);
                } else {
                    assert(old_order.contains(p as usize));
                    let a = choose|a: int| 0 <= a < old_order.len() && old_order[a] == p as usize;
                    if a < pos {
                        assert(order[a] == old_order[a]);
                    } else {
                        assert(order[a + 1] == old_order[a]);
                    }
                }
            }
        }
        i = i + 1;
    }
    order
}

/// The order in which a colour map's points are read to find a colour:
/// the points sorted by position, with the last point also put before the
/// first and the first after the last, so that the map wraps around.
pub fn linked_point_order(keys: &Vec<u32>) -> (linked: Vec<usize>)
    requires
        keys.len() >= 1,
    ensures
        linked.len() == keys.len() + 2,
        is_stable_key_order(keys@, linked@.subrange(1, keys.len() + 1)),
        linked[0] == linked[keys.len() as int],
        linked[keys.len() + 1] == linked[1],
{
    let order = sorted_point_order(keys);
    let n = order.len();
    let mut linked: Vec<usize> = Vec::new();
    linked.push(order[n - 1]);
    let mut k: usize = 0;
    while k < n
        invariant
            n == order.len(),
            n >= 1,
            k <= n,
            linked@ == seq![order[n - 1]] + order@.take(k as int),
        decreases n - k,
    {
        linked.push(order[k]);
        k = k + 1;
        assert(linked@ =~= seq![order[n - 1]] + order@.take(k as int));
    }
    linked.push(order[0]);
    assert(linked@.subrange(1, n + 1) =~= order@);
    linked
}

/// `order` lists exactly the points in `points`, each once, sorted as
/// [`key_before`] says.
spec fn sorted_listing(keys: Seq<u32>, points: Set<usize>, order: Seq<usize>) -> bool {
    &&& forall|a: int| 0 <= a < order.len() ==> #[trigger] points.contains(order[a])
    &&& forall|x: usize| #[trigger] points.contains(x) ==> order.contains(x)
    &&& forall|a: int, b: int| 0 <= a < b < order.len()
        ==> key_before(keys, #[trigger] order[a] as int, #[trigger] order[b] as int)
}

proof fn lemma_sorted_listing_unique(keys: Seq<u32>, points: Set<usize>, o1: Seq<usize>, o2: Seq<usize>)
    requires
        sorted_listing(keys, points, o1),
        sorted_listing(keys, points, o2),
    ensures
        o1 == o2,
    decreases o1.len(),
{
    if o1.len() == 0 {
        if o2.len() > 0 {
            assert(points.contains(o2[0]));
            assert(o1.contains(o2[0]));
        }
        assert(o1 =~= o2);
    } else {
        assert(points.contains(o1[0]));
        assert(o2.contains(o1[0]));
        let x1 = o1[0];
        let x2 = o2[0];
        assert(points.contains(x2));
        assert(o1.contains(x2));
        let b = choose|b: int| 0 <= b < o1.len() && o1[b] == x2;
        let c = choose|c: int| 0 <= c < o2.len() && o2[c] == x1;
        if b != 0 && c != 0 {
            assert(key_before(keys, o1[0] as int, o1[b] as int));
            assert(key_before(keys, o2[0] as int, o2[c] as int));
        }
        assert(x1 == x2);
        let rest = points.remove(x1);
        let t1 = o1.drop_first();
        let t2 = o2.drop_first();
        assert forall|a: int| 0 <= a < t1.len() implies #[trigger] rest.contains(t1[a]) by {
            assert(t1[a] == o1[a + 1]);
            assert(key_before(keys, o1[0] as int, o1[a + 1] as int));
        }
        assert forall|a: int| 0 <= a < t2.len() implies #[trigger] rest.contains(t2[a]) by {
            assert(t2[a] == o2[a + 1]);
            assert(key_before(keys, o2[0] as int, o2[a + 1] as int));
        }
        assert forall|x: usize| #[trigger] rest.contains(x) implies t1.contains(x) by {
            assert(o1.contains(x));
            let a = choose|a: int| 0 <= a < o1.len() && o1[a] == x;
            assert(t1[a - 1] == x);
        }
        assert forall|x: usize| #[trigger] rest.contains(x) implies t2.contains(x) by {
            assert(o2.contains(x));
            let a = choose|a: int| 0 <= a < o2.len() && o2[a] == x;
            assert(t2[a - 1] == x);
        }
        assert forall|a: int, b2: int| 0 <= a < b2 < t1.len()
            implies key_before(keys, #[trigger] t1[a] as int, #[trigger] t1[b2] as int) by {
            assert(t1[a] == o1[a + 1] && t1[b2] == o1[b2 + 1]);
        }
        assert forall|a: int, b2: int| 0 <= a < b2 < t2.len()
            implies key_before(keys, #[trigger] t2[a] as int, #[trigger] t2[b2] as int) by {
            assert(t2[a] == o2[a + 1] && t2[b2] == o2[b2 + 1]);
        }
        lemma_sorted_listing_unique(keys, rest, t1, t2);
        assert(o1 =~= seq![x1] + t1);
        assert(o2 =~= seq![x2] + t2);
    }
}

/// Sorting colour points is determined by their positions alone: any two
/// stable orders of the same positions are the same.
pub proof fn lemma_stable_key_order_unique(keys: Seq<u32>, o1: Seq<usize>, o2: Seq<usize>)
    requires
        is_stable_key_order(keys, o1),
        is_stable_key_order(keys, o2),
    ensures
        o1 == o2,
{
    let points = Set::new(|x: usize| x < keys.len());
    assert forall|x: usize| #[trigger] points.contains(x) implies o1.contains(x) && o2.contains(x) by {
        assert(0 <= x as int && (x as int) < keys.len());
        assert(o1.contains(x as int as usize));
    }
    assert forall|a: int| 0 <= a < o1.len() implies #[trigger] points.contains(o1[a]) by {}
    assert forall|a: int| 0 <= a < o2.len() implies #[trigger] points.contains(o2[a]) by {}
    lemma_sorted_listing_unique(keys, points, o1, o2);
}

/// The constant mapping is labelled "Percentage" and the repeated one "Iteration", and the two labels differ.
pub proof fn lemma_palette_mapping_labels(a: PaletteMappingType, b: PaletteMappingType)
    ensures
        PaletteMappingType::Constant.text() == "Percentage"@,
        PaletteMappingType::Repeated.text() == "Iteration"@,
        a != b ==> a.text() != b.text(),
{
    reveal_strlit("Percentage");
    reveal_strlit("Iteration");
    if a != b && a.text() == b.text() {
        assert(a.text()[0] == b.text()[0]);
        assert(a.text()[1] == b.text()[1]);
        assert(a.text().len() == b.text().len());
    }
}


} // verus!
