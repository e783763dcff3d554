//! Grouping points by the voxel they fall in, the first half of voxel-grid
//! down-sampling: the points of one group are later averaged into one.
use vstd::prelude::*;

use std::collections::HashMap;

verus! {

broadcast use vstd::std_specs::hash::group_hash_axioms;

/// The integer voxel coordinates of a point.
pub type VoxelKey = (i64, i64, i64);

/// The indices `s` increase strictly.
pub open spec fn strictly_increasing(s: Seq<usize>) -> bool {
    forall|a: int, b: int| 0 <= a < b < s.len() ==> s[a] < s[b]
}

/// The key of group `g`: that of its first member.
pub open spec fn group_key(keys: Seq<VoxelKey>, groups: Seq<Seq<usize>>, g: int) -> VoxelKey {
    keys[groups[g][0] as int]
}

/// `groups` sorts the indices of `keys` by key: each group is the increasing
/// list of all indices with one key, no two groups share a key, and the groups
/// come in the order in which their keys first occur.
pub open spec fn is_voxel_grouping(keys: Seq<VoxelKey>, groups: Seq<Seq<usize>>) -> bool {
    &&& forall|g: int|
        0 <= g < groups.len() ==> (#[trigger] groups[g]).len() > 0 && strictly_increasing(
            groups[g],
        )
    &&& forall|g: int, t: int|
        0 <= g < groups.len() && 0 <= t < groups[g].len() ==> (#[trigger] groups[g][t]) < keys.len()
            && keys[groups[g][t] as int] == group_key(keys, groups, g)
    &&& forall|g1: int, g2: int|
        0 <= g1 < g2 < groups.len() ==> group_key(keys, groups, g1) != group_key(keys, groups, g2)
            && (#[trigger] groups[g1])[0] < (#[trigger] groups[g2])[0]
    &&& forall|i: int| 0 <= i < keys.len() ==> #[trigger] covered(groups, i)
}

/// Index `i` is a member of some group.
pub open spec fn covered(groups: Seq<Seq<usize>>, i: int) -> bool {
    exists|g: int, t: int| 0 <= g < groups.len() && 0 <= t < groups[g].len() && #[trigger] groups[g][t] == i
}

/// In a voxel grouping every index sits in exactly one place: the groups
/// partition the indices.
pub proof fn law_grouping_partition(
    keys: Seq<VoxelKey>,
    groups: Seq<Seq<usize>>,
    i: int,
    g1: int,
    t1: int,
    g2: int,
    t2: int,
)
    requires
        is_voxel_grouping(keys, groups),
        0 <= g1 < groups.len(),
        0 <= t1 < groups[g1].len(),
        0 <= g2 < groups.len(),
        0 <= t2 < groups[g2].len(),
        groups[g1][t1] == i,
        groups[g2][t2] == i,
    ensures
        g1 == g2,
        t1 == t2,
{
    assert(keys[groups[g1][t1] as int] == group_key(keys, groups, g1));
    assert(keys[groups[g2][t2] as int] == group_key(keys, groups, g2));
    if g1 < g2 {
        assert(groups[g1][0] < groups[g2][0]);
    } else if g2 < g1 {
        assert(groups[g2][0] < groups[g1][0]);
    }
    assert(groups[g1].len() > 0 && strictly_increasing(groups[g1]));
    if t1 < t2 {
        assert(groups[g1][t1] < groups[g1][t2]);
    } else if t2 < t1 {
        assert(groups[g1][t2] < groups[g1][t1]);
    }
}

/// Two indices are in one group exactly when their keys are equal.
pub proof fn law_grouping_same_key(
    keys: Seq<VoxelKey>,
    groups: Seq<Seq<usize>>,
    g1: int,
    t1: int,
    g2: int,
    t2: int,
)
    requires
        is_voxel_grouping(keys, groups),
        0 <= g1 < groups.len(),
        0 <= t1 < groups[g1].len(),
        0 <= g2 < groups.len(),
        0 <= t2 < groups[g2].len(),
    ensures
        (g1 == g2) == (keys[groups[g1][t1] as int] == keys[groups[g2][t2] as int]),
{
    assert(keys[groups[g1][t1] as int] == group_key(keys, groups, g1));
    assert(keys[groups[g2][t2] as int] == group_key(keys, groups, g2));
    if g1 < g2 {
        assert(groups[g1][0] < groups[g2][0]);
    } else if g2 < g1 {
        assert(groups[g2][0] < groups[g1][0]);
    }
}

/// Index `i` is the first index that carries its key.
pub open spec fn is_first_occurrence(keys: Seq<VoxelKey>, i: int) -> bool {
    0 <= i < keys.len() && forall|j: int| 0 <= j < i ==> keys[j] != keys[i]
}

proof fn lemma_sorted_unique(s: Seq<usize>, t: Seq<usize>)
    requires
        strictly_increasing(s),
        strictly_increasing(t),
        forall|x: usize| s.contains(x) <==> t.contains(x),
    ensures
        s == t,
    decreases s.len() + t.len(),
{
    if s.len() == 0 || t.len() == 0 {
        if s.len() > 0 {
            assert(s.contains(s[0]));
        }
        if t.len() > 0 {
            assert(t.contains(t[0]));
        }
        assert(s =~= t);
    } else {
        assert(s.contains(s[0]));
        assert(t.contains(t[0]));
        let js = choose|j: int| 0 <= j < t.len() && t[j] == s[0];
        let jt = choose|j: int| 0 <= j < s.len() && s[j] == t[0];
        if js > 0 {
            assert(t[0] < t[js]);
        }
        if jt > 0 {
            assert(s[0] < s[jt]);
        }
        assert(s[0] == t[0]);
        let s2 = s.drop_first();
        let t2 = t.drop_first();
        assert forall|x: usize| s2.contains(x) <==> t2.contains(x) by {
            if s2.contains(x) {
                let a = choose|a: int| 0 <= a < s2.len() && s2[a] == x;
                assert(s[a + 1] == x && s[0] < s[a + 1]);
                assert(s.contains(x));
                let b = choose|b: int| 0 <= b < t.len() && t[b] == x;
                assert(b > 0);
                assert(t2[b - 1] == x);
            }
            if t2.contains(x) {
                let a = choose|a: int| 0 <= a < t2.len() && t2[a] == x;
                assert(t[a + 1] == x && t[0] < t[a + 1]);
                assert(t.contains(x));
                let b = choose|b: int| 0 <= b < s.len() && s[b] == x;
                assert(b > 0);
                assert(s2[b - 1] == x);
            }
        }
        lemma_sorted_unique(s2, t2);
        assert(s =~= seq![s[0]] + s2);
        assert(t =~= seq![t[0]] + t2);
    }
}

proof fn lemma_grouping_firsts(keys: Seq<VoxelKey>, groups: Seq<Seq<usize>>)
    requires
        is_voxel_grouping(keys, groups),
    ensures
        forall|g: int| 0 <= g < groups.len() ==> is_first_occurrence(keys, #[trigger] groups[g][0] as int),
        forall|i: int|
            is_first_occurrence(keys, i) ==> exists|g: int| 0 <= g < groups.len() && #[trigger] groups[g][0] == i,
{
    assert forall|g: int| 0 <= g < groups.len() implies is_first_occurrence(
        keys,
        #[trigger] groups[g][0] as int,
    ) by {
        let f = groups[g][0] as int;
        assert(groups[g].len() > 0);
        assert(f < keys.len() && keys[f] == group_key(keys, groups, g));
        assert forall|j: int| 0 <= j < f implies keys[j] != keys[f] by {
            assert(covered(groups, j));
            let (g2, t2) = choose|g2: int, t2: int|
                0 <= g2 < groups.len() && 0 <= t2 < groups[g2].len() && #[trigger] groups[g2][t2] == j;
            assert(keys[groups[g2][t2] as int] == group_key(keys, groups, g2));
            if keys[j] == keys[f] {
                if g2 < g {
                    assert(groups[g2][0] < groups[g][0]);
                } else if g < g2 {
                    assert(groups[g][0] < groups[g2][0]);
                } else {
                    if t2 > 0 {
                        assert(groups[g][0] < groups[g][t2]);
                    }
                }
            }
        }
    }
    assert forall|i: int| is_first_occurrence(keys, i) implies exists|g: int|
        0 <= g < groups.len() && #[trigger] groups[g][0] == i by {
        assert(covered(groups, i));
        let (g, t) = choose|g: int, t: int|
            0 <= g < groups.len() && 0 <= t < groups[g].len() && #[trigger] groups[g][t] == i;
        if t > 0 {
            assert(groups[g][0] < groups[g][t]);
            assert(keys[groups[g][0] as int] == group_key(keys, groups, g));
            assert(keys[groups[g][t] as int] == group_key(keys, groups, g));
        }
        assert(groups[g][0] == i);
    }
}

proof fn lemma_group_members(keys: Seq<VoxelKey>, groups: Seq<Seq<usize>>, g: int, x: usize)
    requires
        is_voxel_grouping(keys, groups),
        0 <= g < groups.len(),
    ensures
        groups[g].contains(x) <==> (x < keys.len() && keys[x as int] == keys[groups[g][0] as int]),
{
    assert(groups[g].len() > 0);
    assert(keys[groups[g][0] as int] == group_key(keys, groups, g));
    if groups[g].contains(x) {
        let t = choose|t: int| 0 <= t < groups[g].len() && groups[g][t] == x;
        assert(keys[groups[g][t] as int] == group_key(keys, groups, g));
    }
    if x < keys.len() && keys[x as int] == keys[groups[g][0] as int] {
        assert(covered(groups, x as int));
        let (g2, t2) = choose|g2: int, t2: int|
            0 <= g2 < groups.len() && 0 <= t2 < groups[g2].len() && #[trigger] groups[g2][t2] == x;
        assert(keys[groups[g2][t2] as int] == group_key(keys, groups, g2));
        if g2 < g {
            assert(groups[g2][0] < groups[g][0]);
        } else if g < g2 {
            assert(groups[g][0] < groups[g2][0]);
        }
        assert(groups[g][t2] == x);
    }
}

/// The grouping of a list of keys is unique: any two lists of groups that both
/// satisfy `is_voxel_grouping` for the same keys are equal.
pub proof fn law_grouping_unique(keys: Seq<VoxelKey>, a: Seq<Seq<usize>>, b: Seq<Seq<usize>>)
    requires
        is_voxel_grouping(keys, a),
        is_voxel_grouping(keys, b),
    ensures
        a == b,
{
    lemma_grouping_firsts(keys, a);
    lemma_grouping_firsts(keys, b);
    let fa = Seq::new(a.len(), |g: int| a[g][0]);
    let fb = Seq::new(b.len(), |g: int| b[g][0]);
    assert forall|x: usize| fa.contains(x) <==> fb.contains(x) by {
        if fa.contains(x) {
            let g = choose|g: int| 0 <= g < fa.len() && fa[g] == x;
            assert(is_first_occurrence(keys, a[g][0] as int));
            let h = choose|h: int| 0 <= h < b.len() && #[trigger] b[h][0] == x as int;
            assert(fb[h] == x);
        }
        if fb.contains(x) {
            let g = choose|g: int| 0 <= g < fb.len() && fb[g] == x;
            assert(is_first_occurrence(keys, b[g][0] as int));
            let h = choose|h: int| 0 <= h < a.len() && #[trigger] a[h][0] == x as int;
            assert(fa[h] == x);
        }
    }
    assert(strictly_increasing(fa)) by {
        assert forall|i: int, j: int| 0 <= i < j < fa.len() implies fa[i] < fa[j] by {
            assert(a[i][0] < a[j][0]);
        }
    }
    assert(strictly_increasing(fb)) by {
        assert forall|i: int, j: int| 0 <= i < j < fb.len() implies fb[i] < fb[j] by {
            assert(b[i][0] < b[j][0]);
        }
    }
    lemma_sorted_unique(fa, fb);
    assert forall|g: int| 0 <= g < a.len() implies #[trigger] a[g] == b[g] by {
        assert(fa[g] == fb[g]);
        assert(a[g].len() > 0 && strictly_increasing(a[g]));
        assert(b[g].len() > 0 && strictly_increasing(b[g]));
        assert forall|x: usize| a[g].contains(x) <==> b[g].contains(x) by {
            lemma_group_members(keys, a, g, x);
            lemma_group_members(keys, b, g, x);
        }
        lemma_sorted_unique(a[g], b[g]);
    }
    assert(a =~= b);
}

/// There are as many groups as there are distinct keys.
pub proof fn law_grouping_count(keys: Seq<VoxelKey>, groups: Seq<Seq<usize>>)
    requires
        is_voxel_grouping(keys, groups),
    ensures
        groups.len() == keys.to_set().len(),
{
    let gk = Seq::new(groups.len(), |g: int| group_key(keys, groups, g));
    assert(gk.no_duplicates()) by {
        assert forall|a: int, b: int| 0 <= a < gk.len() && 0 <= b < gk.len() && a != b implies gk[a]
            != gk[b] by {
            if a < b {
                assert(groups[a][0] < groups[b][0]);
            } else {
                assert(groups[b][0] < groups[a][0]);
            }
        }
    }
    assert(gk.to_set() =~= keys.to_set()) by {
        assert forall|k: VoxelKey| gk.contains(k) <==> keys.contains(k) by {
            if gk.contains(k) {
                let g = choose|g: int| 0 <= g < gk.len() && gk[g] == k;
                assert(groups[g].len() > 0);
                assert(groups[g][0] < keys.len());
                assert(keys[groups[g][0] as int] == k);
            }
            if keys.contains(k) {
                let i = choose|i: int| 0 <= i < keys.len() && keys[i] == k;
                assert(covered(groups, i));
                let (g, t) = choose|g: int, t: int|
                    0 <= g < groups.len() && 0 <= t < groups[g].len() && #[trigger] groups[g][t] == i;
                assert(keys[groups[g][t] as int] == group_key(keys, groups, g));
                assert(gk[g] == k);
            }
        }
    }
    gk.unique_seq_to_set();
}

pub open spec fn groups_view(groups: Seq<Vec<usize>>) -> Seq<Seq<usize>> {
    groups.map_values(|v: Vec<usize>| v@)
}

/// What the grouping loop keeps true after the first `i` indices.
spec fn partial_grouping(keys: Seq<VoxelKey>, gs: Seq<Seq<usize>>, i: int, label: Seq<int>) -> bool {
    &&& forall|g: int|
        0 <= g < gs.len() ==> (#[trigger] gs[g]).len() > 0 && strictly_increasing(gs[g])
    &&& forall|g: int, t: int|
        0 <= g < gs.len() && 0 <= t < gs[g].len() ==> (#[trigger] gs[g][t]) < i && keys[gs[g][t] as int]
            == group_key(keys, gs, g)
    &&& forall|g1: int, g2: int|
        0 <= g1 < g2 < gs.len() ==> group_key(keys, gs, g1) != group_key(keys, gs, g2) && (
        #[trigger] gs[g1])[0] < (#[trigger] gs[g2])[0]
    &&& label.len() == i
    &&& forall|j: int|
        0 <= j < i ==> 0 <= #[trigger] label[j] < gs.len() && gs[label[j]].contains(j as usize)
}

/// The bucket of the group index that a key falls in; keys in one bucket are
/// told apart by comparing them whole.
spec fn voxel_bucket(k: VoxelKey) -> u64 {
    (k.0 as u64).wrapping_mul(0x9E37_79B9_7F4A_7C15) ^ (k.1 as u64).wrapping_mul(
        0xC2B2_AE3D_27D4_EB4F,
    ) ^ (k.2 as u64)
}

fn bucket(k: VoxelKey) -> (b: u64)
    ensures
        b == voxel_bucket(k),
{
    (k.0 as u64).wrapping_mul(0x9E37_79B9_7F4A_7C15) ^ (k.1 as u64).wrapping_mul(
        0xC2B2_AE3D_27D4_EB4F,
    ) ^ (k.2 as u64)
}

/// The index of groups by the bucket of their key.
spec fn index_ok(keys: Seq<VoxelKey>, gs: Seq<Seq<usize>>, index: Map<u64, Vec<usize>>) -> bool {
    &&& forall|g: int|
        0 <= g < gs.len() ==> index.contains_key(voxel_bucket(#[trigger] group_key(keys, gs, g)))
            && index[voxel_bucket(group_key(keys, gs, g))]@.contains(g as usize)
    &&& forall|x: u64, t: int|
        index.contains_key(x) && 0 <= t < index[x]@.len() ==> (#[trigger] index[x]@[t]) < gs.len()
            && voxel_bucket(group_key(keys, gs, index[x]@[t] as int)) == x
}

fn same_key(a: VoxelKey, b: VoxelKey) -> (r: bool)
    ensures
        r == (a == b),
{
    a.0 == b.0 && a.1 == b.1 && a.2 == b.2
}

/// The group whose key is `k`, if there is one.
fn find_group(
    keys: &Vec<VoxelKey>,
    groups: &Vec<Vec<usize>>,
    index: &HashMap<u64, Vec<usize>>,
    k: VoxelKey,
    Ghost(i): Ghost<int>,
    Ghost(label): Ghost<Seq<int>>,
) -> (r: Option<usize>)
    requires
        i <= keys@.len(),
        partial_grouping(keys@, groups_view(groups@), i, label),
        index_ok(keys@, groups_view(groups@), index@),
    ensures
        match r {
            Some(g) => g < groups@.len() && group_key(keys@, groups_view(groups@), g as int) == k,
            None => forall|g: int|
                0 <= g < groups@.len() ==> group_key(keys@, groups_view(groups@), g) != k,
        },
{
    let ghost gs = groups_view(groups@);
    let count = groups.len();
    let b = bucket(k);
    match index.get(&b) {
        None => {
            assert forall|g: int| 0 <= g < groups@.len() implies group_key(keys@, gs, g) != k by {
                assert(index@.contains_key(voxel_bucket(group_key(keys@, gs, g))));
            }
            None
        },
        Some(ids) => {
            assert(index@.contains_key(b) && index@[b] == *ids);
            let mut t: usize = 0;
            while t < ids.len()
                invariant
                    b == voxel_bucket(k),
                    index@.contains_key(b),
                    index@[b] == *ids,
                    t <= ids@.len(),
                    i <= keys@.len(),
                    gs == groups_view(groups@),
                    count == groups@.len(),
                    partial_grouping(keys@, gs, i, label),
                    index_ok(keys@, gs, index@),
                    forall|u: int| 0 <= u < t ==> group_key(keys@, gs, ids@[u] as int) != k,
                decreases ids@.len() - t,
            {
                let g = ids[t];
                assert(index@[b]@[t as int] == g);
                assert(g < gs.len());
                assert(gs[g as int] == groups@[g as int]@);
                let first = groups[g][0];
                assert(first < keys@.len());
                if same_key(keys[first], k) {
                    return Some(g);
                }
                t = t + 1;
            }
            assert forall|g: int| 0 <= g < groups@.len() implies group_key(keys@, gs, g) != k by {
                if group_key(keys@, gs, g) == k {
                    assert(index@[voxel_bucket(group_key(keys@, gs, g))]@.contains(g as usize));
                    let u = choose|u: int| 0 <= u < index@[b]@.len() && index@[b]@[u] == g as usize;
                    assert(ids@[u] as int == g);
                    assert(group_key(keys@, gs, ids@[u] as int) != k);
                }
            }
            None
        },
    }
}

/// The indices of `keys` grouped by key, as `is_voxel_grouping` describes.
///
/// Groups are looked up through an index from the `u64` bucket of a voxel key
/// to the groups whose keys fall in that bucket; within a bucket the keys are
/// compared whole, so keys that share a bucket stay in separate groups. The
/// index is keyed by an integer because the `HashMap` model holds for integer
/// keys, not for tuples.
pub fn group_by_voxel(keys: &Vec<VoxelKey>) -> (groups: Vec<Vec<usize>>)
    ensures
        is_voxel_grouping(keys@, groups_view(groups@)),
{
    let n = keys.len();
    let mut groups: Vec<Vec<usize>> = Vec::new();
    let mut index: HashMap<u64, Vec<usize>> = HashMap::new();
    let ghost mut label: Seq<int> = Seq::empty();
    assert(groups_view(groups@) =~= Seq::<Seq<usize>>::empty());
    let mut i: usize = 0;
    while i < n
        invariant
            n == keys@.len(),
            i <= n,
            partial_grouping(keys@, groups_view(groups@), i as int, label),
            index_ok(keys@, groups_view(groups@), index@),
        decreases n - i,
    {
        let k = keys[i];
        let ghost gs = groups_view(groups@);
        let found = find_group(keys, &groups, &index, k, Ghost(i as int), Ghost(label));
        match found {
            Some(g) => {
                let ghost old_group = groups@[g as int]@;
                groups[g].push(i);
                let ghost ngs = groups_view(groups@);
                assert(ngs =~= gs.update(g as int, old_group.push(i)));
                assert(forall|g2: int| 0 <= g2 < ngs.len() ==> #[trigger] ngs[g2][0] == gs[g2][0]);
                assert(strictly_increasing(ngs[g as int]));
                proof {
                    label = label.push(g as int);
                    assert forall|j: int| 0 <= j < i + 1 implies 0 <= #[trigger] label[j] < ngs.len()
                        && ngs[label[j]].contains(j as usize) by {
                        if j < i {
                            let u = choose|u: int| 0 <= u < gs[label[j]].len() && gs[label[j]][u] == j as usize;
                            assert(ngs[label[j]][u] == j as usize);
                        } else {
                            assert(ngs[g as int][old_group.len() as int] == i);
                        }
                    }
                }
                assert(index_ok(keys@, ngs, index@));
            },
            None => {
                let g = groups.len();
                let mut fresh: Vec<usize> = Vec::new();
                fresh.push(i);
                groups.push(fresh);
                let ghost ngs = groups_view(groups@);
                assert(ngs =~= gs.push(seq![i]));
                assert(forall|g2: int| 0 <= g2 < gs.len() ==> #[trigger] ngs[g2] == gs[g2]);
                assert(group_key(keys@, ngs, g as int) == k);
                let b = bucket(k);
                let ids = match index.remove(&b) {
                    Some(v) => v,
                    None => Vec::new(),
                };
                let ghost old_ids = ids@;
                let mut ids = ids;
                ids.push(g);
                index.insert(b, ids);
                proof {
                    label = label.push(g as int);
                    assert forall|j: int| 0 <= j < i + 1 implies 0 <= #[trigger] label[j] < ngs.len()
                        && ngs[label[j]].contains(j as usize) by {
                        if j < i {
                            let u = choose|u: int| 0 <= u < gs[label[j]].len() && gs[label[j]][u] == j as usize;
                            assert(ngs[label[j]][u] == j as usize);
                        } else {
                            assert(ngs[g as int][0] == i);
                        }
                    }
                    assert forall|g2: int| 0 <= g2 < ngs.len() implies index@.contains_key(
                        voxel_bucket(#[trigger] group_key(keys@, ngs, g2)),
                    ) && index@[voxel_bucket(group_key(keys@, ngs, g2))]@.contains(g2 as usize) by {
                        if g2 < gs.len() {
                            assert(group_key(keys@, ngs, g2) == group_key(keys@, gs, g2));
                            if voxel_bucket(group_key(keys@, gs, g2)) == b {
                                let u = choose|u: int| 0 <= u < old_ids.len() && old_ids[u] == g2 as usize;
                                assert(index@[b]@[u] == g2 as usize);
                            }
                        } else {
                            assert(index@[b]@[old_ids.len() as int] == g as usize);
                        }
                    }
                    assert forall|x: u64, t: int| index@.contains_key(x) && 0 <= t < index@[x]@.len()
                        implies (#[trigger] index@[x]@[t]) < ngs.len() && voxel_bucket(
                        group_key(keys@, ngs, index@[x]@[t] as int),
                    ) == x by {
                        if x == b {
                            if t < old_ids.len() {
                                assert(index@[x]@[t] == old_ids[t]);
                            }
                        }
                    }
                }
            },
        }
        i = i + 1;
    }
    let ghost gs = groups_view(groups@);
    assert forall|j: int| 0 <= j < keys@.len() implies #[trigger] covered(gs, j) by {
        let u = choose|u: int| 0 <= u < gs[label[j]].len() && gs[label[j]][u] == j as usize;
        assert(gs[label[j]][u] == j);
    }
    groups
}

} // verus!
