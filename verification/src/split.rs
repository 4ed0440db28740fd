//! Splitting meshes into their connected parts.
//!
//! Two faces touch when they share a vertex index; the connected parts of a
//! mesh are the classes of faces linked by chains of touching faces.
use vstd::prelude::*;

use crate::models::{Mesh, MeshView};

verus! {

/// Faces `a` and `b` of mesh `m` share a vertex index.
pub open spec fn faces_touch(m: MeshView, a: int, b: int) -> bool {
    exists|p: int, q: int|
        0 <= p < m.faces[a].vertex_indices.len() && 0 <= q < m.faces[b].vertex_indices.len()
            && #[trigger] m.faces[a].vertex_indices[p] == #[trigger] m.faces[b].vertex_indices[q]
}

/// Touching is symmetric.
pub proof fn lemma_touch_symmetric(m: MeshView, a: int, b: int)
    ensures
        faces_touch(m, a, b) == faces_touch(m, b, a),
{
    if faces_touch(m, a, b) {
        let (p, q) = choose|p: int, q: int|
            0 <= p < m.faces[a].vertex_indices.len() && 0 <= q < m.faces[b].vertex_indices.len()
                && #[trigger] m.faces[a].vertex_indices[p] == #[trigger] m.faces[b].vertex_indices[q];
        assert(m.faces[b].vertex_indices[q] == m.faces[a].vertex_indices[p]);
    }
    if faces_touch(m, b, a) {
        let (p, q) = choose|p: int, q: int|
            0 <= p < m.faces[b].vertex_indices.len() && 0 <= q < m.faces[a].vertex_indices.len()
                && #[trigger] m.faces[b].vertex_indices[p] == #[trigger] m.faces[a].vertex_indices[q];
        assert(m.faces[a].vertex_indices[q] == m.faces[b].vertex_indices[p]);
    }
}

/// Whether faces `face1_idx` and `face2_idx` of `mesh` share a vertex index.
pub fn faces_are_connected(mesh: &Mesh, face1_idx: usize, face2_idx: usize) -> (r: bool)
    requires
        face1_idx < mesh.faces@.len(),
        face2_idx < mesh.faces@.len(),
    ensures
        r == faces_touch(mesh@, face1_idx as int, face2_idx as int),
{
    let ghost m = mesh@;
    let f1 = &mesh.faces[face1_idx];
    let f2 = &mesh.faces[face2_idx];
    assert(m.faces[face1_idx as int] == f1@);
    assert(m.faces[face2_idx as int] == f2@);
    let n1 = f1.vertex_indices.len();
    let n2 = f2.vertex_indices.len();
    for p in 0..n1
        invariant
            n1 == f1.vertex_indices@.len(),
            n2 == f2.vertex_indices@.len(),
            m == mesh@,
            face1_idx < m.faces.len(),
            face2_idx < m.faces.len(),
            m.faces[face1_idx as int] == f1@,
            m.faces[face2_idx as int] == f2@,
            forall|p2: int, q2: int|
                0 <= p2 < p && 0 <= q2 < n2 ==> #[trigger] f1.vertex_indices@[p2]
                    != #[trigger] f2.vertex_indices@[q2],
    {
        for q in 0..n2
            invariant
                n1 == f1.vertex_indices@.len(),
                n2 == f2.vertex_indices@.len(),
                p < n1,
                m == mesh@,
                face1_idx < m.faces.len(),
                face2_idx < m.faces.len(),
                m.faces[face1_idx as int] == f1@,
                m.faces[face2_idx as int] == f2@,
                forall|p2: int, q2: int|
                    0 <= p2 < p && 0 <= q2 < n2 ==> #[trigger] f1.vertex_indices@[p2]
                        != #[trigger] f2.vertex_indices@[q2],
                forall|q2: int| 0 <= q2 < q ==> f1.vertex_indices@[p as int] != #[trigger] f2.vertex_indices@[q2],
        {
            if f1.vertex_indices[p] == f2.vertex_indices[q] {
                assert(m.faces[face1_idx as int].vertex_indices[p as int]
                    == m.faces[face2_idx as int].vertex_indices[q as int]);
                return true;
            }
        }
    }
    assert forall|p: int, q: int|
        0 <= p < m.faces[face1_idx as int].vertex_indices.len() && 0 <= q < m.faces[face2_idx as int].vertex_indices.len()
            implies #[trigger] m.faces[face1_idx as int].vertex_indices[p] != #[trigger] m.faces[face2_idx as int].vertex_indices[q] by {
        assert(f1.vertex_indices@[p] != f2.vertex_indices@[q]);
    }
    false
}

/// Face `x` is in one of the groups.
pub open spec fn in_groups(groups: Seq<Seq<int>>, x: int) -> bool {
    exists|g: int, q: int| 0 <= g < groups.len() && 0 <= q < groups[g].len() && #[trigger] groups[g][q] == x
}

/// The face at position `q` of `group` touches a face at an earlier position.
pub open spec fn touches_earlier(m: MeshView, group: Seq<int>, q: int) -> bool {
    exists|q2: int| 0 <= q2 < q && #[trigger] faces_touch(m, group[q2], group[q])
}

/// The first position from `p` on, before `q`, whose face touches the face
/// at position `q` of `group`; `q` when there is none.
pub open spec fn first_toucher_from(m: MeshView, group: Seq<int>, q: int, p: int) -> int
    decreases q - p,
{
    if p >= q {
        q
    } else if faces_touch(m, group[p], group[q]) {
        p
    } else {
        first_toucher_from(m, group, q, p + 1)
    }
}

/// The first position before `q` whose face touches the face at position
/// `q` of `group`; `q` when there is none.
pub open spec fn first_toucher(m: MeshView, group: Seq<int>, q: int) -> int {
    first_toucher_from(m, group, q, 0)
}

/// `group` lists its faces breadth first: a face comes after every face
/// that touches an earlier face first, and faces first touched by the same
/// face come in increasing order.
pub open spec fn breadth_first(m: MeshView, group: Seq<int>) -> bool {
    forall|q1: int, q2: int|
        1 <= q1 < q2 < group.len() ==> {
            ||| first_toucher(m, group, q1) < first_toucher(m, group, q2)
            ||| first_toucher(m, group, q1) == first_toucher(m, group, q2) && group[q1] < group[q2]
        }
}

/// The first toucher of `q` is `p` when the face at `p` touches it and no
/// face before `p` does.
proof fn lemma_first_toucher(m: MeshView, group: Seq<int>, q: int, p: int, from: int)
    requires
        0 <= from <= p < q,
        faces_touch(m, group[p], group[q]),
        forall|p2: int| 0 <= p2 < p ==> !#[trigger] faces_touch(m, group[p2], group[q]),
    ensures
        first_toucher_from(m, group, q, from) == p,
    decreases p - from,
{
    if from < p {
        lemma_first_toucher(m, group, q, p, from + 1);
    }
}

/// `groups` splits the faces of `m` into its connected parts: every face is
/// in exactly one group; each face of a group after the first touches an
/// earlier face of the group; faces of different groups never touch; each
/// group starts with its smallest face and lists its faces breadth first,
/// and groups come in increasing order of their first faces.
pub open spec fn is_component_split(m: MeshView, groups: Seq<Seq<int>>) -> bool {
    &&& forall|g: int| 0 <= g < groups.len() ==> (#[trigger] groups[g]).len() > 0
    &&& forall|g: int, q: int|
        0 <= g < groups.len() && 0 <= q < groups[g].len() ==> 0 <= #[trigger] groups[g][q]
            < m.faces.len()
    &&& forall|x: int| 0 <= x < m.faces.len() ==> #[trigger] in_groups(groups, x)
    &&& forall|g1: int, q1: int, g2: int, q2: int|
        0 <= g1 < groups.len() && 0 <= q1 < groups[g1].len() && 0 <= g2 < groups.len() && 0
            <= q2 < groups[g2].len() && #[trigger] groups[g1][q1] == #[trigger] groups[g2][q2]
            ==> g1 == g2 && q1 == q2
    &&& forall|g: int, q: int|
        0 <= g < groups.len() && 0 < q < groups[g].len() ==> #[trigger] touches_earlier(
            m,
            groups[g],
            q,
        )
    &&& forall|g1: int, q1: int, g2: int, q2: int|
        0 <= g1 < groups.len() && 0 <= q1 < groups[g1].len() && 0 <= g2 < groups.len() && 0
            <= q2 < groups[g2].len() && g1 != g2 ==> !faces_touch(
            m,
            #[trigger] groups[g1][q1],
            #[trigger] groups[g2][q2],
        )
    &&& forall|g: int, q: int|
        0 <= g < groups.len() && 0 <= q < groups[g].len() ==> groups[g][0] <= #[trigger] groups[g][q]
    &&& forall|g1: int, g2: int|
        0 <= g1 < g2 < groups.len() ==> (#[trigger] groups[g1])[0] < (#[trigger] groups[g2])[0]
    &&& forall|g: int| 0 <= g < groups.len() ==> breadth_first(m, #[trigger] groups[g])
}

/// The view of a list of groups of face positions.
pub open spec fn groups_view(v: Seq<Vec<usize>>) -> Seq<Seq<int>> {
    v.map_values(|g: Vec<usize>| g@.map_values(|x: usize| x as int))
}

/// A list of distinct positions below `n` has at most `n` entries.
proof fn lemma_distinct_bound(q: Seq<usize>, n: int)
    requires
        0 <= n,
        forall|k: int| 0 <= k < q.len() ==> #[trigger] q[k] < n,
        forall|a: int, b: int| 0 <= a < q.len() && 0 <= b < q.len() && a != b ==> q[a] != q[b],
    ensures
        q.len() <= n,
{
    let qi = q.map_values(|x: usize| x as int);
    assert(qi.no_duplicates()) by {
        assert forall|a: int, b: int| 0 <= a < qi.len() && 0 <= b < qi.len() && a != b implies qi[a] != qi[b] by {
            assert(q[a] != q[b]);
        }
    }
    qi.unique_seq_to_set();
    vstd::set_lib::lemma_int_range(0, n);
    assert(qi.to_set().subset_of(vstd::set_lib::set_int_range(0, n))) by {
        assert forall|x: int| qi.to_set().contains(x) implies vstd::set_lib::set_int_range(0, n).contains(x) by {
            assert(qi.contains(x));
            let k = choose|k: int| 0 <= k < qi.len() && qi[k] == x;
            assert(q[k] < n);
        }
    }
    vstd::set_lib::lemma_len_subset(qi.to_set(), vstd::set_lib::set_int_range(0, n));
}

/// The invariant of the search for parts: the groups found so far, with
/// each placed face's group (`owner`, `-1` when not placed) and position
/// (`pos`); `c` groups are closed, a group `c` may be under construction.
#[verifier::opaque]
pub open spec fn placement_ok(
    m: MeshView,
    groups: Seq<Seq<usize>>,
    owner: Seq<int>,
    pos: Seq<int>,
    visited: Seq<bool>,
) -> bool {
    let nf = m.faces.len();
    &&& owner.len() == nf
    &&& pos.len() == nf
    &&& visited.len() == nf
    &&& forall|x: int| 0 <= x < nf ==> (#[trigger] visited[x] <==> owner[x] >= 0)
    &&& forall|x: int|
        0 <= x < nf && owner[x] >= 0 ==> {
            &&& owner[x] < groups.len()
            &&& 0 <= pos[x] < groups[owner[x]].len()
            &&& groups[owner[x]][pos[x]] == x
        }
    &&& forall|g: int, q: int|
        0 <= g < groups.len() && 0 <= q < groups[g].len() ==> {
            &&& (#[trigger] groups[g][q]) < nf
            &&& owner[groups[g][q] as int] == g
            &&& pos[groups[g][q] as int] == q
        }
    &&& forall|g: int| 0 <= g < groups.len() ==> (#[trigger] groups[g]).len() > 0
    &&& forall|g: int, q: int|
        0 <= g < groups.len() && 0 < q < groups[g].len() ==> exists|q2: int|
            0 <= q2 < q && faces_touch(
                m,
                (#[trigger] groups[g][q2]) as int,
                (#[trigger] groups[g][q]) as int,
            )
    &&& forall|g: int, q: int|
        0 <= g < groups.len() && 0 <= q < groups[g].len() ==> groups[g][0] <= #[trigger] groups[g][q]
    &&& forall|g1: int, g2: int|
        0 <= g1 < g2 < groups.len() ==> (#[trigger] groups[g1])[0] < (#[trigger] groups[g2])[0]
}

/// Closed groups: a face of group `g < c` touches only faces of group `g`.
#[verifier::opaque]
pub open spec fn groups_closed(m: MeshView, owner: Seq<int>, c: int) -> bool {
    forall|x: int, b: int|
        0 <= x < m.faces.len() && 0 <= b < m.faces.len() && 0 <= owner[x] < c && #[trigger] faces_touch(
            m,
            x,
            b,
        ) ==> #[trigger] owner[b] == owner[x]
}

/// What the placement invariant says of one face.
proof fn lemma_placement_facts(
    m: MeshView,
    gs: Seq<Seq<usize>>,
    owner: Seq<int>,
    pos: Seq<int>,
    visited: Seq<bool>,
)
    requires
        placement_ok(m, gs, owner, pos, visited),
    ensures
        owner.len() == m.faces.len(),
        pos.len() == m.faces.len(),
        visited.len() == m.faces.len(),
        forall|x: int| 0 <= x < m.faces.len() ==> (#[trigger] visited[x] <==> owner[x] >= 0),
        forall|g: int, q: int|
            0 <= g < gs.len() && 0 <= q < gs[g].len() ==> {
                &&& (#[trigger] gs[g][q]) < m.faces.len()
                &&& owner[gs[g][q] as int] == g
                &&& pos[gs[g][q] as int] == q
            },
        forall|x: int|
            0 <= x < m.faces.len() && owner[x] >= 0 ==> {
                &&& owner[x] < gs.len()
                &&& 0 <= pos[x] < gs[owner[x]].len()
                &&& gs[owner[x]][pos[x]] == x
            },
{
    reveal(placement_ok);
}

/// A face of a closed group touches only faces of that group.
proof fn lemma_closed_fact(m: MeshView, owner: Seq<int>, c: int, x: int, b: int)
    requires
        groups_closed(m, owner, c),
        0 <= x < m.faces.len(),
        0 <= b < m.faces.len(),
        0 <= owner[x] < c,
        faces_touch(m, x, b),
    ensures
        owner[b] == owner[x],
{
    reveal(groups_closed);
}

/// Placing face `j`, which touches the face at position `k` of the group `q`
/// under construction, keeps the placement invariant.
proof fn lemma_place(
    m: MeshView,
    gs: Seq<Seq<usize>>,
    q: Seq<usize>,
    owner: Seq<int>,
    pos: Seq<int>,
    visited: Seq<bool>,
    j: usize,
    k: int,
)
    requires
        placement_ok(m, gs.push(q), owner, pos, visited),
        groups_closed(m, owner, gs.len() as int),
        j < m.faces.len(),
        !visited[j as int],
        0 <= k < q.len(),
        faces_touch(m, q[k] as int, j as int),
        q.len() > 0,
        q[0] <= j,
    ensures
        placement_ok(
            m,
            gs.push(q.push(j)),
            owner.update(j as int, gs.len() as int),
            pos.update(j as int, q.len() as int),
            visited.update(j as int, true),
        ),
        groups_closed(m, owner.update(j as int, gs.len() as int), gs.len() as int),
{
    reveal(placement_ok);
    reveal(groups_closed);
    let c = gs.len() as int;
    let go = gs.push(q);
    let gq = gs.push(q.push(j));
    let o2 = owner.update(j as int, c);
    let p2 = pos.update(j as int, q.len() as int);
    let v2 = visited.update(j as int, true);
    assert(go[c] == q);
    assert(gq[c] == q.push(j));
    assert forall|g: int| 0 <= g < c implies gq[g] == go[g] by {}
    assert(owner[j as int] < 0);
    assert forall|x: int| 0 <= x < m.faces.len() && o2[x] >= 0 implies {
        &&& o2[x] < gq.len()
        &&& 0 <= p2[x] < gq[o2[x]].len()
        &&& gq[o2[x]][p2[x]] == x
    } by {
        if x != j {
            assert(go[owner[x]][pos[x]] == x);
        }
    }
    assert forall|g: int, qq: int| 0 <= g < gq.len() && 0 <= qq < gq[g].len() implies {
        &&& (#[trigger] gq[g][qq]) < m.faces.len()
        &&& o2[gq[g][qq] as int] == g
        &&& p2[gq[g][qq] as int] == qq
    } by {
        if g == c && qq == q.len() {
        } else {
            assert(gq[g][qq] == go[g][qq]);
            assert(owner[go[g][qq] as int] == g);
        }
    }
    assert forall|g: int, qq: int| 0 <= g < gq.len() && 0 < qq < gq[g].len() implies exists|q2: int|
        0 <= q2 < qq && faces_touch(m, (#[trigger] gq[g][q2]) as int, (#[trigger] gq[g][qq]) as int) by {
        if g == c && qq == q.len() {
            assert(gq[g][k] == q[k]);
        } else {
            assert(gq[g][qq] == go[g][qq]);
            let q2 = choose|q2: int|
                0 <= q2 < qq && faces_touch(m, (#[trigger] go[g][q2]) as int, (#[trigger] go[g][qq]) as int);
            assert(gq[g][q2] == go[g][q2]);
        }
    }
    assert forall|g: int, qq: int| 0 <= g < gq.len() && 0 <= qq < gq[g].len() implies gq[g][0]
        <= #[trigger] gq[g][qq] by {
        assert(gq[g][0] == go[g][0]);
        if !(g == c && qq == q.len()) {
            assert(gq[g][qq] == go[g][qq]);
        }
    }
    assert forall|g1: int, g2: int| 0 <= g1 < g2 < gq.len() implies (#[trigger] gq[g1])[0] < (
    #[trigger] gq[g2])[0] by {
        assert(gq[g1][0] == go[g1][0]);
        assert(gq[g2][0] == go[g2][0]);
    }
    assert forall|g: int| 0 <= g < gq.len() implies (#[trigger] gq[g]).len() > 0 by {}
    assert forall|x: int| 0 <= x < m.faces.len() implies (#[trigger] v2[x] <==> o2[x] >= 0) by {}
    assert forall|x: int, b: int|
        0 <= x < m.faces.len() && 0 <= b < m.faces.len() && 0 <= o2[x] < c && #[trigger] faces_touch(m, x, b)
            implies #[trigger] o2[b] == o2[x] by {
        assert(owner[x] == o2[x]);
        assert(owner[b] == owner[x]);
    }
}

/// Grows the part that starts at face `i` (not yet placed) breadth first.
fn grow_group(
    m: &Mesh,
    visited: &mut Vec<bool>,
    i: usize,
    Ghost(gs): Ghost<Seq<Seq<usize>>>,
    Ghost(owner0): Ghost<Seq<int>>,
    Ghost(pos0): Ghost<Seq<int>>,
) -> (r: (Vec<usize>, Ghost<Seq<int>>, Ghost<Seq<int>>))
    requires
        i < m.faces@.len(),
        old(visited)@.len() == m.faces@.len(),
        !old(visited)@[i as int],
        placement_ok(m@, gs, owner0, pos0, old(visited)@),
        groups_closed(m@, owner0, gs.len() as int),
        forall|x: int| 0 <= x < m.faces@.len() ==> owner0[x] < gs.len(),
        forall|g: int| 0 <= g < gs.len() ==> (#[trigger] gs[g])[0] < i,
        forall|x: int| 0 <= x < i ==> #[trigger] old(visited)@[x],
    ensures
        placement_ok(m@, gs.push(r.0@), r.1@, r.2@, final(visited)@),
        groups_closed(m@, r.1@, gs.len() + 1 as int),
        forall|x: int| 0 <= x < m.faces@.len() ==> r.1@[x] < gs.len() + 1,
        forall|x: int| 0 <= x <= i ==> #[trigger] final(visited)@[x],
        final(visited)@.len() == m.faces@.len(),
        r.0@.len() > 0,
        r.0@[0] == i,
        breadth_first(m@, r.0@.map_values(|x: usize| x as int)),
{
    let ghost mv = m@;
    let nf = m.faces.len();
    let ghost c = gs.len() as int;
    let mut queue: Vec<usize> = Vec::new();
    queue.push(i);
    let ghost old_visited = visited@;
    visited.set(i, true);
    let ghost mut owner = owner0.update(i as int, c);
    let ghost mut pos = pos0.update(i as int, 0);
    proof {
        reveal(placement_ok);
        reveal(groups_closed);
        let gq = gs.push(queue@);
        assert(gq[c] == queue@);
        assert forall|g: int| 0 <= g < c implies gq[g] == gs[g] by {}
        assert forall|x: int| 0 <= x < nf && owner[x] >= 0 implies {
            &&& owner[x] < gq.len()
            &&& 0 <= pos[x] < gq[owner[x]].len()
            &&& gq[owner[x]][pos[x]] == x
        } by {
            if x != i {
                assert(gs[owner0[x]][pos0[x]] == x);
            }
        }
        assert forall|g: int, qq: int| 0 <= g < gq.len() && 0 <= qq < gq[g].len() implies {
            &&& (#[trigger] gq[g][qq]) < nf
            &&& owner[gq[g][qq] as int] == g
            &&& pos[gq[g][qq] as int] == qq
        } by {
            if g < c {
                assert(gq[g][qq] == gs[g][qq]);
                assert(owner0[gs[g][qq] as int] == g);
            }
        }
        assert forall|g: int, qq: int| 0 <= g < gq.len() && 0 < qq < gq[g].len() implies exists|q2: int|
            0 <= q2 < qq && faces_touch(mv, (#[trigger] gq[g][q2]) as int, (#[trigger] gq[g][qq]) as int) by {
            assert(g < c);
            assert(gq[g][qq] == gs[g][qq]);
            let q2 = choose|q2: int|
                0 <= q2 < qq && faces_touch(mv, (#[trigger] gs[g][q2]) as int, (#[trigger] gs[g][qq]) as int);
            assert(gq[g][q2] == gs[g][q2]);
        }
        assert forall|g: int, qq: int| 0 <= g < gq.len() && 0 <= qq < gq[g].len() implies gq[g][0]
            <= #[trigger] gq[g][qq] by {
            if g < c {
                assert(gs[g][0] <= gs[g][qq]);
            }
        }
        assert forall|g1: int, g2: int| 0 <= g1 < g2 < gq.len() implies (#[trigger] gq[g1])[0] < (
        #[trigger] gq[g2])[0] by {
            if g2 < c {
                assert(gs[g1][0] < gs[g2][0]);
            } else {
                assert(gs[g1][0] < i);
            }
        }
        assert forall|g: int| 0 <= g < gq.len() implies (#[trigger] gq[g]).len() > 0 by {}
        assert forall|x: int| 0 <= x < nf implies (#[trigger] visited@[x] <==> owner[x] >= 0) by {
            if x != i {
                assert(old_visited[x] <==> owner0[x] >= 0);
            }
        }
        assert(placement_ok(mv, gq, owner, pos, visited@));
        assert forall|x: int, b: int|
            0 <= x < nf && 0 <= b < nf && 0 <= owner[x] < c && #[trigger] faces_touch(mv, x, b)
                implies #[trigger] owner[b] == owner[x] by {
            assert(owner0[x] == owner[x]);
            assert(owner0[b] == owner0[x]);
            if b == i {
                assert(owner0[i as int] < 0);
            }
        }
    }
    let ghost mut parents: Seq<int> = seq![0int];
    let mut head: usize = 0;
    while head < queue.len()
        invariant
            parents.len() == queue@.len(),
            forall|q: int| 1 <= q < queue@.len() ==> 0 <= #[trigger] parents[q] < head && parents[q] < q,
            forall|q: int|
                1 <= q < queue@.len() ==> #[trigger] faces_touch(mv, queue@[parents[q]] as int, queue@[q] as int),
            forall|q: int, p: int|
                1 <= q < queue@.len() && 0 <= p < parents[q] ==> !#[trigger] faces_touch(
                    mv,
                    queue@[p] as int,
                    queue@[q] as int,
                ),
            forall|q1: int, q2: int|
                1 <= q1 < q2 < queue@.len() ==> {
                    ||| #[trigger] parents[q1] < #[trigger] parents[q2]
                    ||| parents[q1] == parents[q2] && queue@[q1] < queue@[q2]
                },
            nf == m.faces@.len(),
            mv == m@,
            0 <= i < nf,
            c == gs.len(),
            placement_ok(mv, gs.push(queue@), owner, pos, visited@),
            groups_closed(mv, owner, c),
            head <= queue@.len(),
            queue@.len() > 0,
            visited@.len() == nf,
            forall|q: int| 0 <= q < queue@.len() ==> #[trigger] queue@[q] < nf,
            queue@[0] == i,
            visited@[i as int],
            forall|q: int| 0 <= q < queue@.len() ==> i <= #[trigger] queue@[q],
            forall|x: int| 0 <= x < nf ==> owner[x] <= c,
            forall|x: int| 0 <= x < i ==> #[trigger] visited@[x],
            forall|q: int, b: int|
                0 <= q < head && 0 <= b < nf && #[trigger] faces_touch(mv, queue@[q] as int, b)
                    ==> #[trigger] owner[b] == c,
        decreases nf - head,
    {
        proof {
            let gq = gs.push(queue@);
            lemma_placement_facts(mv, gq, owner, pos, visited@);
            assert(gq[c] == queue@);
            assert forall|a: int, b: int| 0 <= a < queue@.len() && 0 <= b < queue@.len() && a != b
                implies queue@[a] != queue@[b] by {
                assert(pos[gq[c][a] as int] == a);
                assert(pos[gq[c][b] as int] == b);
            }
            assert forall|k: int| 0 <= k < queue@.len() implies #[trigger] queue@[k] < nf by {
                assert(gq[c][k] < nf);
            }
            lemma_distinct_bound(queue@, nf as int);
        }
        let a = queue[head];
        head = head + 1;
        proof {
            let gq = gs.push(queue@);
            lemma_placement_facts(mv, gq, owner, pos, visited@);
            assert(gq[c] == queue@);
            assert(gq[c][head - 1] == a);
        }
        for j in 0..nf
            invariant
                nf == m.faces@.len(),
                mv == m@,
                0 <= i < nf,
                c == gs.len(),
                placement_ok(mv, gs.push(queue@), owner, pos, visited@),
                groups_closed(mv, owner, c),
                0 < head <= queue@.len(),
                visited@.len() == nf,
                forall|q: int| 0 <= q < queue@.len() ==> #[trigger] queue@[q] < nf,
                a == queue@[head - 1],
                owner[a as int] == c,
                queue@[0] == i,
                visited@[i as int],
                forall|q: int| 0 <= q < queue@.len() ==> i <= #[trigger] queue@[q],
                forall|x: int| 0 <= x < nf ==> owner[x] <= c,
                forall|x: int| 0 <= x < i ==> #[trigger] visited@[x],
                forall|q: int, b: int|
                    0 <= q < head - 1 && 0 <= b < nf && #[trigger] faces_touch(mv, queue@[q] as int, b)
                        ==> #[trigger] owner[b] == c,
                forall|b: int| 0 <= b < j && #[trigger] faces_touch(mv, a as int, b) ==> owner[b] == c,
                parents.len() == queue@.len(),
                forall|q: int| 1 <= q < queue@.len() ==> 0 <= #[trigger] parents[q] < head && parents[q] < q,
                forall|q: int|
                    1 <= q < queue@.len() ==> #[trigger] faces_touch(mv, queue@[parents[q]] as int, queue@[q] as int),
                forall|q: int, p: int|
                    1 <= q < queue@.len() && 0 <= p < parents[q] ==> !#[trigger] faces_touch(
                        mv,
                        queue@[p] as int,
                        queue@[q] as int,
                    ),
                forall|q1: int, q2: int|
                    1 <= q1 < q2 < queue@.len() ==> {
                        ||| #[trigger] parents[q1] < #[trigger] parents[q2]
                        ||| parents[q1] == parents[q2] && queue@[q1] < queue@[q2]
                    },
                forall|q: int| 1 <= q < queue@.len() && #[trigger] parents[q] == head - 1 ==> queue@[q] < j,
        {
            if !visited[j] && faces_are_connected(m, a, j) {
                proof {
                    assert(visited@[j as int] == false);
                    assert(j >= i);
                    assert(queue@[0] <= j);
                    lemma_placement_facts(mv, gs.push(queue@), owner, pos, visited@);
                    assert(visited@[a as int]);
                    lemma_place(mv, gs, queue@, owner, pos, visited@, j, head - 1);
                    let ghost old_owner = owner;
                    assert(owner[j as int] < 0);
                    assert forall|p: int| 0 <= p < head - 1 implies !#[trigger] faces_touch(
                        mv,
                        queue@[p] as int,
                        j as int,
                    ) by {
                        if faces_touch(mv, queue@[p] as int, j as int) {
                            assert(owner[j as int] == c);
                        }
                    }
                    owner = owner.update(j as int, c);
                    pos = pos.update(j as int, queue@.len() as int);
                    assert(owner[a as int] == c);
                    assert forall|x: int| 0 <= x < nf implies owner[x] <= c by {
                        if x != j as int {
                            assert(owner[x] == old_owner[x]);
                        }
                    }
                }
                let ghost old_queue = queue@;
                let ghost old_parents = parents;
                proof {
                    parents = parents.push(head - 1);
                }
                queue.push(j);
                visited.set(j, true);
                proof {
                    assert(queue@[head - 1] == a);
                    assert forall|q: int| 1 <= q < queue@.len() implies #[trigger] faces_touch(
                        mv,
                        queue@[parents[q]] as int,
                        queue@[q] as int,
                    ) by {
                        if q < old_queue.len() {
                            assert(queue@[q] == old_queue[q]);
                            assert(queue@[parents[q]] == old_queue[old_parents[q]]);
                        }
                    }
                    assert forall|q: int, p: int| 1 <= q < queue@.len() && 0 <= p < parents[q] implies !#[trigger] faces_touch(
                        mv,
                        queue@[p] as int,
                        queue@[q] as int,
                    ) by {
                        assert(queue@[p] == old_queue[p]);
                        if q < old_queue.len() {
                            assert(queue@[q] == old_queue[q]);
                        }
                    }
                    assert forall|q1: int, q2: int| 1 <= q1 < q2 < queue@.len() implies {
                        ||| #[trigger] parents[q1] < #[trigger] parents[q2]
                        ||| parents[q1] == parents[q2] && queue@[q1] < queue@[q2]
                    } by {
                        if q2 == old_queue.len() {
                            assert(old_parents[q1] <= head - 1);
                            if old_parents[q1] == head - 1 {
                                assert(old_queue[q1] < j);
                            }
                        } else {
                            assert(queue@[q1] == old_queue[q1] && queue@[q2] == old_queue[q2]);
                        }
                    }
                }
            } else {
                proof {
                    if faces_touch(mv, a as int, j as int) {
                        lemma_placement_facts(mv, gs.push(queue@), owner, pos, visited@);
                        assert(visited@[j as int]);
                        lemma_touch_symmetric(mv, a as int, j as int);
                        if owner[j as int] < c {
                            lemma_closed_fact(mv, owner, c, j as int, a as int);
                        }
                    }
                }
            }
        }
    }
    proof {
        reveal(placement_ok);
        reveal(groups_closed);
        let gq = gs.push(queue@);
        assert(gq[c] == queue@);
        assert forall|x: int, b: int|
            0 <= x < nf && 0 <= b < nf && 0 <= owner[x] < c + 1 && #[trigger] faces_touch(mv, x, b)
                implies #[trigger] owner[b] == owner[x] by {
            if owner[x] == c {
                assert(gq[c][pos[x]] == x);
            }
        }
    }
    proof {
        let gi = queue@.map_values(|x: usize| x as int);
        assert forall|q: int| 1 <= q < gi.len() implies #[trigger] first_toucher(mv, gi, q) == parents[q] by {
            assert(faces_touch(mv, queue@[parents[q]] as int, queue@[q] as int));
            assert forall|p2: int| 0 <= p2 < parents[q] implies !#[trigger] faces_touch(mv, gi[p2], gi[q]) by {
                assert(!faces_touch(mv, queue@[p2] as int, queue@[q] as int));
            }
            lemma_first_toucher(mv, gi, q, parents[q], 0);
        }
        assert forall|q1: int, q2: int| 1 <= q1 < q2 < gi.len() implies {
            ||| first_toucher(mv, gi, q1) < first_toucher(mv, gi, q2)
            ||| first_toucher(mv, gi, q1) == first_toucher(mv, gi, q2) && gi[q1] < gi[q2]
        } by {
            assert(first_toucher(mv, gi, q1) == parents[q1]);
            assert(first_toucher(mv, gi, q2) == parents[q2]);
            assert(parents[q1] < parents[q2] || (parents[q1] == parents[q2] && queue@[q1] < queue@[q2]));
        }
    }
    (queue, Ghost(owner), Ghost(pos))
}

/// The connected parts of a mesh: found breadth first, each from the
/// smallest face not yet placed, visiting the faces that touch a face in
/// increasing order.
pub fn face_groups(m: &Mesh) -> (r: Vec<Vec<usize>>)
    ensures
        is_component_split(m@, groups_view(r@)),
{
    let ghost mv = m@;
    let nf = m.faces.len();
    let mut visited: Vec<bool> = Vec::new();
    for k in 0..nf
        invariant
            visited@.len() == k,
            forall|x: int| 0 <= x < k ==> !#[trigger] visited@[x],
    {
        visited.push(false);
    }
    let mut groups: Vec<Vec<usize>> = Vec::new();
    let ghost mut owner: Seq<int> = Seq::new(nf as nat, |x: int| -1);
    let ghost mut pos: Seq<int> = Seq::new(nf as nat, |x: int| 0);
    assert(groups@.map_values(|g: Vec<usize>| g@) =~= Seq::<Seq<usize>>::empty());
    proof {
        reveal(placement_ok);
        reveal(groups_closed);
    }
    for i in 0..nf
        invariant
            nf == m.faces@.len(),
            mv == m@,
            placement_ok(mv, groups@.map_values(|g: Vec<usize>| g@), owner, pos, visited@),
            groups_closed(mv, owner, groups@.len() as int),
            visited@.len() == nf,
            forall|x: int| 0 <= x < nf ==> owner[x] < groups@.len(),
            forall|g: int| 0 <= g < groups@.len() ==> (#[trigger] groups@[g]@)[0] < i,
            forall|x: int| 0 <= x < i ==> #[trigger] visited@[x],
            forall|g: int| 0 <= g < groups@.len() ==> breadth_first(mv, (#[trigger] groups@[g])@.map_values(|x: usize| x as int)),
    {
        if !visited[i] {
            let ghost gs = groups@.map_values(|g: Vec<usize>| g@);
            assert forall|g: int| 0 <= g < gs.len() implies (#[trigger] gs[g])[0] < i by {
                assert(gs[g] == groups@[g]@);
            }
            let (q, Ghost(o), Ghost(p)) = grow_group(m, &mut visited, i, Ghost(gs), Ghost(owner), Ghost(pos));
            proof {
                owner = o;
                pos = p;
            }
            let ghost qv = q@;
            groups.push(q);
            proof {
                assert(groups@.map_values(|g: Vec<usize>| g@) =~= gs.push(qv));
                let gq = gs.push(qv);
                lemma_placement_facts(mv, gq, owner, pos, visited@);
                assert forall|g: int| 0 <= g < groups@.len() implies breadth_first(mv, (#[trigger] groups@[g])@.map_values(|x: usize| x as int)) by {
                    if g == groups@.len() - 1 {
                        assert(groups@[g]@ == qv);
                    }
                }
                assert forall|g: int| 0 <= g < groups@.len() implies (#[trigger] groups@[g]@)[0] < i + 1 by {
                    assert(groups@[g]@ == gq[g]);
                    if g < gq.len() - 1 {
                        assert(gq[g] == gs[g]);
                    } else {
                        assert(gq[g] == qv);
                    }
                }
            }
        }
    }
    proof {
        let gs = groups@.map_values(|g: Vec<usize>| g@);
        let gv = groups_view(groups@);
        assert forall|g: int| 0 <= g < gv.len() implies #[trigger] gv[g] == gs[g].map_values(
            |x: usize| x as int,
        ) by {}
        assert forall|g: int| 0 <= g < gv.len() implies breadth_first(mv, #[trigger] gv[g]) by {
            assert(gv[g] == groups@[g]@.map_values(|x: usize| x as int));
        }
        lemma_placement_split(mv, gs, owner, pos, visited@, gv);
    }
    groups
}

/// The final placement is a split into connected parts.
proof fn lemma_placement_split(
    m: MeshView,
    gs: Seq<Seq<usize>>,
    owner: Seq<int>,
    pos: Seq<int>,
    visited: Seq<bool>,
    gv: Seq<Seq<int>>,
)
    requires
        placement_ok(m, gs, owner, pos, visited),
        groups_closed(m, owner, gs.len() as int),
        visited.len() == m.faces.len(),
        forall|x: int| 0 <= x < m.faces.len() ==> #[trigger] visited[x],
        gv.len() == gs.len(),
        forall|g: int| 0 <= g < gv.len() ==> #[trigger] gv[g] == gs[g].map_values(|x: usize| x as int),
        forall|g: int| 0 <= g < gv.len() ==> breadth_first(m, #[trigger] gv[g]),
    ensures
        is_component_split(m, gv),
{
    reveal(placement_ok);
    reveal(groups_closed);
    assert forall|g: int, q: int| 0 <= g < gv.len() && 0 <= q < gv[g].len() implies #[trigger] gv[g][q]
        == gs[g][q] as int by {}
    assert forall|g: int| 0 <= g < gv.len() implies (#[trigger] gv[g]).len() > 0 by {
        assert(gs[g].len() > 0);
    }
    assert forall|g: int, q: int| 0 <= g < gv.len() && 0 <= q < gv[g].len() implies 0 <= #[trigger] gv[g][q]
        < m.faces.len() by {
        assert(gs[g][q] < m.faces.len());
    }
    assert forall|x: int| 0 <= x < m.faces.len() implies #[trigger] in_groups(gv, x) by {
        assert(visited[x]);
        assert(gv[owner[x]][pos[x]] == x);
    }
    assert forall|g1: int, q1: int, g2: int, q2: int|
        0 <= g1 < gv.len() && 0 <= q1 < gv[g1].len() && 0 <= g2 < gv.len() && 0 <= q2
            < gv[g2].len() && #[trigger] gv[g1][q1] == #[trigger] gv[g2][q2] implies g1 == g2 && q1 == q2 by {
        assert(owner[gs[g1][q1] as int] == g1);
        assert(owner[gs[g2][q2] as int] == g2);
        assert(pos[gs[g1][q1] as int] == q1);
        assert(pos[gs[g2][q2] as int] == q2);
    }
    assert forall|g: int, q: int| 0 <= g < gv.len() && 0 < q < gv[g].len() implies #[trigger] touches_earlier(
        m,
        gv[g],
        q,
    ) by {
        assert(gs[g].len() == gv[g].len());
        assert(gv[g][q] == gs[g][q] as int);
        assert(exists|q2: int| 0 <= q2 < q && faces_touch(
            m,
            (#[trigger] gs[g][q2]) as int,
            (#[trigger] gs[g][q]) as int,
        ));
        let q2 = choose|q2: int| 0 <= q2 < q && faces_touch(
            m,
            (#[trigger] gs[g][q2]) as int,
            (#[trigger] gs[g][q]) as int,
        );
        assert(gv[g][q2] == gs[g][q2] as int);
        assert(gv[g][q] == gs[g][q] as int);
        assert(faces_touch(m, gv[g][q2], gv[g][q]));
    }
    assert forall|g1: int, q1: int, g2: int, q2: int|
        0 <= g1 < gv.len() && 0 <= q1 < gv[g1].len() && 0 <= g2 < gv.len() && 0 <= q2
            < gv[g2].len() && g1 != g2 implies !faces_touch(m, #[trigger] gv[g1][q1], #[trigger] gv[g2][q2]) by {
        let x = gs[g1][q1] as int;
        let b = gs[g2][q2] as int;
        assert(owner[x] == g1);
        assert(owner[b] == g2);
    }
    assert forall|g: int, q: int| 0 <= g < gv.len() && 0 <= q < gv[g].len() implies gv[g][0]
        <= #[trigger] gv[g][q] by {
        assert(gs[g][0] <= gs[g][q]);
        assert(gv[g][0] == gs[g][0] as int);
    }
    assert forall|g1: int, g2: int| 0 <= g1 < g2 < gv.len() implies (#[trigger] gv[g1])[0] < (
    #[trigger] gv[g2])[0] by {
        assert(gs[g1][0] < gs[g2][0]);
        assert(gv[g1][0] == gs[g1][0] as int);
        assert(gv[g2][0] == gs[g2][0] as int);
    }
}

/// Some split of `m` into connected parts has at most one part.
pub open spec fn single_part(m: MeshView) -> bool {
    exists|gs: Seq<Seq<int>>| is_component_split(m, gs) && gs.len() <= 1
}

/// A face of a part reached from the part's first face through touching
/// faces lies in the same group of any other split.
proof fn lemma_chain_stays(m: MeshView, gs1: Seq<Seq<int>>, part: Seq<int>, h: int, q: int)
    requires
        is_component_split(m, gs1),
        0 <= h < gs1.len(),
        0 <= q < part.len(),
        forall|t: int| 0 <= t < part.len() ==> 0 <= #[trigger] part[t] < m.faces.len(),
        forall|t: int| 0 < t < part.len() ==> #[trigger] touches_earlier(m, part, t),
        exists|qq: int| 0 <= qq < gs1[h].len() && #[trigger] gs1[h][qq] == part[0],
    ensures
        exists|qq: int| 0 <= qq < gs1[h].len() && #[trigger] gs1[h][qq] == part[q],
    decreases q,
{
    if q > 0 {
        assert(touches_earlier(m, part, q));
        let q2 = choose|q2: int| 0 <= q2 < q && #[trigger] faces_touch(m, part[q2], part[q]);
        lemma_chain_stays(m, gs1, part, h, q2);
        let qa = choose|qa: int| 0 <= qa < gs1[h].len() && #[trigger] gs1[h][qa] == part[q2];
        assert(in_groups(gs1, part[q]));
        let (g, qb) = choose|g: int, qb: int|
            0 <= g < gs1.len() && 0 <= qb < gs1[g].len() && #[trigger] gs1[g][qb] == part[q];
        if g != h {
            assert(!faces_touch(m, gs1[h][qa], gs1[g][qb]));
        }
        assert(gs1[h][qb] == part[q]);
    }
}

/// All splits of a mesh into connected parts agree on whether there is more
/// than one part.
pub proof fn lemma_single_part_unique(m: MeshView, gs1: Seq<Seq<int>>, gs2: Seq<Seq<int>>)
    requires
        is_component_split(m, gs1),
        is_component_split(m, gs2),
        gs2.len() <= 1,
    ensures
        gs1.len() <= 1,
{
    if gs1.len() > 1 {
        assert(gs1[0].len() > 0);
        let x0 = gs1[0][0];
        assert(0 <= x0 < m.faces.len());
        assert(in_groups(gs2, x0));
        assert(gs2.len() == 1);
        let part = gs2[0];
        assert(part.len() > 0);
        let y = part[0];
        assert(0 <= y < m.faces.len());
        assert(in_groups(gs1, y));
        let (h, qh) = choose|h: int, qh: int|
            0 <= h < gs1.len() && 0 <= qh < gs1[h].len() && #[trigger] gs1[h][qh] == y;
        let g = if h == 0 { 1int } else { 0int };
        assert(gs1[g].len() > 0);
        let x = gs1[g][0];
        assert(0 <= x < m.faces.len());
        assert(in_groups(gs2, x));
        let (g2, q) = choose|g2: int, q: int|
            0 <= g2 < gs2.len() && 0 <= q < gs2[g2].len() && #[trigger] gs2[g2][q] == x;
        assert(g2 == 0);
        assert forall|t: int| 0 <= t < part.len() implies 0 <= #[trigger] part[t] < m.faces.len() by {
            assert(0 <= gs2[0][t] < m.faces.len());
        }
        assert forall|t: int| 0 < t < part.len() implies #[trigger] touches_earlier(m, part, t) by {
            assert(touches_earlier(m, gs2[0], t));
        }
        lemma_chain_stays(m, gs1, part, h, q);
        let qq = choose|qq: int| 0 <= qq < gs1[h].len() && #[trigger] gs1[h][qq] == part[q];
        assert(gs1[h][qq] == gs1[g][0]);
    }
}

/// When a face at or after `from` and before `q` touches the face at `q`,
/// the search finds the first such position.
proof fn lemma_first_toucher_found(m: MeshView, group: Seq<int>, q: int, from: int, p0: int)
    requires
        0 <= from <= p0 < q,
        faces_touch(m, group[p0], group[q]),
    ensures
        from <= first_toucher_from(m, group, q, from) <= p0,
        faces_touch(m, group[first_toucher_from(m, group, q, from)], group[q]),
        forall|p: int| from <= p < first_toucher_from(m, group, q, from) ==> !#[trigger] faces_touch(m, group[p], group[q]),
    decreases q - from,
{
    if !faces_touch(m, group[from], group[q]) {
        lemma_first_toucher_found(m, group, q, from + 1, p0);
    }
}

/// Two lists that agree on their first `k` positions agree on the first
/// toucher of one face, when a face among those positions touches it.
proof fn lemma_first_toucher_shared(m: MeshView, g: Seq<int>, h: Seq<int>, qg: int, qh: int, k: int, p0: int)
    requires
        0 <= p0 < k <= qg < g.len(),
        k <= qh < h.len(),
        forall|p: int| 0 <= p < k ==> #[trigger] g[p] == h[p],
        g[qg] == h[qh],
        faces_touch(m, g[p0], g[qg]),
    ensures
        first_toucher(m, g, qg) == first_toucher(m, h, qh),
{
    lemma_first_toucher_found(m, g, qg, 0, p0);
    let f = first_toucher(m, g, qg);
    assert(g[f] == h[f]);
    assert forall|p2: int| 0 <= p2 < f implies !#[trigger] faces_touch(m, h[p2], h[qh]) by {
        assert(g[p2] == h[p2]);
        assert(!faces_touch(m, g[p2], g[qg]));
    }
    lemma_first_toucher(m, h, qh, f, 0);
}

/// Two strictly increasing lists with the same members are equal.
proof fn lemma_increasing_same_members(s1: Seq<int>, s2: Seq<int>)
    requires
        forall|i: int, j: int| 0 <= i < j < s1.len() ==> #[trigger] s1[i] < #[trigger] s1[j],
        forall|i: int, j: int| 0 <= i < j < s2.len() ==> #[trigger] s2[i] < #[trigger] s2[j],
        forall|x: int| s1.contains(x) <==> s2.contains(x),
    ensures
        s1 == s2,
    decreases s1.len(),
{
    if s1.len() == 0 {
        if s2.len() > 0 {
            assert(s2.contains(s2[0]));
        }
        assert(s1 =~= s2);
    } else {
        assert(s1.contains(s1[0]));
        assert(s2.len() > 0);
        assert(s2.contains(s2[0]));
        let i1 = choose|i: int| 0 <= i < s2.len() && s2[i] == s1[0];
        let i2 = choose|i: int| 0 <= i < s1.len() && s1[i] == s2[0];
        assert(s2[0] <= s2[i1]);
        assert(s1[0] <= s1[i2]);
        assert(s1[0] == s2[0]);
        let t1 = s1.drop_first();
        let t2 = s2.drop_first();
        assert forall|x: int| t1.contains(x) <==> t2.contains(x) by {
            if t1.contains(x) {
                let i = choose|i: int| 0 <= i < t1.len() && t1[i] == x;
                assert(s1[i + 1] == x);
                assert(s1.contains(x));
                let j = choose|j: int| 0 <= j < s2.len() && s2[j] == x;
                assert(j != 0);
                assert(t2[j - 1] == x);
            }
            if t2.contains(x) {
                let i = choose|i: int| 0 <= i < t2.len() && t2[i] == x;
                assert(s2[i + 1] == x);
                assert(s2.contains(x));
                let j = choose|j: int| 0 <= j < s1.len() && s1[j] == x;
                assert(j != 0);
                assert(t1[j - 1] == x);
            }
        }
        assert forall|i: int, j: int| 0 <= i < j < t1.len() implies #[trigger] t1[i] < #[trigger] t1[j] by {
            assert(s1[i + 1] < s1[j + 1]);
        }
        assert forall|i: int, j: int| 0 <= i < j < t2.len() implies #[trigger] t2[i] < #[trigger] t2[j] by {
            assert(s2[i + 1] < s2[j + 1]);
        }
        lemma_increasing_same_members(t1, t2);
        assert(s1 =~= seq![s1[0]] + t1);
        assert(s2 =~= seq![s2[0]] + t2);
    }
}

/// Group `a` of one split holds the same faces as some group of another.
proof fn lemma_same_group(m: MeshView, g1: Seq<Seq<int>>, g2: Seq<Seq<int>>, a: int) -> (h: int)
    requires
        is_component_split(m, g1),
        is_component_split(m, g2),
        0 <= a < g2.len(),
    ensures
        0 <= h < g1.len(),
        forall|x: int| g2[a].contains(x) <==> g1[h].contains(x),
        g1[h][0] == g2[a][0],
{
    let part = g2[a];
    assert(part.len() > 0);
    assert(0 <= part[0] < m.faces.len());
    assert(in_groups(g1, part[0]));
    let (h, qh) = choose|h: int, qh: int| 0 <= h < g1.len() && 0 <= qh < g1[h].len() && #[trigger] g1[h][qh] == part[0];
    assert forall|t: int| 0 <= t < part.len() implies 0 <= #[trigger] part[t] < m.faces.len() by {}
    assert forall|t: int| 0 < t < part.len() implies #[trigger] touches_earlier(m, part, t) by {}
    assert forall|x: int| part.contains(x) implies g1[h].contains(x) by {
        let q = choose|q: int| 0 <= q < part.len() && part[q] == x;
        lemma_chain_stays(m, g1, part, h, q);
    }
    let back = g1[h];
    assert(back.len() > 0);
    assert(0 <= back[0] < m.faces.len());
    assert(in_groups(g2, back[0]));
    let (a2, q2) = choose|a2: int, q2: int| 0 <= a2 < g2.len() && 0 <= q2 < g2[a2].len() && #[trigger] g2[a2][q2] == back[0];
    assert forall|t: int| 0 <= t < back.len() implies 0 <= #[trigger] back[t] < m.faces.len() by {}
    assert forall|t: int| 0 < t < back.len() implies #[trigger] touches_earlier(m, back, t) by {}
    assert forall|x: int| back.contains(x) implies g2[a2].contains(x) by {
        let q = choose|q: int| 0 <= q < back.len() && back[q] == x;
        lemma_chain_stays(m, g2, back, a2, q);
    }
    assert(back.contains(part[0]));
    let q3 = choose|q3: int| 0 <= q3 < g2[a2].len() && g2[a2][q3] == part[0];
    assert(g2[a][0] == g2[a2][q3]);
    assert(a2 == a);
    assert(part.contains(back[0]));
    let qa = choose|qa: int| 0 <= qa < part.len() && part[qa] == back[0];
    assert(back[0] <= back[qh]);
    assert(part[0] <= part[qa]);
    h
}

/// Two breadth-first lists of the same faces that start alike are equal.
proof fn lemma_breadth_first_unique(m: MeshView, g: Seq<int>, h: Seq<int>, k: int)
    requires
        g.len() > 0,
        h.len() > 0,
        g[0] == h[0],
        g.no_duplicates(),
        h.no_duplicates(),
        forall|x: int| g.contains(x) <==> h.contains(x),
        forall|t: int| 0 < t < g.len() ==> #[trigger] touches_earlier(m, g, t),
        forall|t: int| 0 < t < h.len() ==> #[trigger] touches_earlier(m, h, t),
        breadth_first(m, g),
        breadth_first(m, h),
        1 <= k <= g.len(),
        k <= h.len(),
    ensures
        forall|p: int| 0 <= p < k ==> #[trigger] g[p] == h[p],
    decreases k,
{
    if k > 1 {
        lemma_breadth_first_unique(m, g, h, k - 1);
        let q = k - 1;
        let x = g[q];
        let y = h[q];
        if x != y {
            assert(g.contains(x));
            let r = choose|r: int| 0 <= r < h.len() && h[r] == x;
            assert(h.contains(y));
            let r2 = choose|r2: int| 0 <= r2 < g.len() && g[r2] == y;
            if r < q {
                assert(g[r] == h[r]);
            }
            if r2 < q {
                assert(g[r2] == h[r2]);
            }
            assert(r > q && r2 > q);
            assert(touches_earlier(m, g, q));
            let p0 = choose|p0: int| 0 <= p0 < q && #[trigger] faces_touch(m, g[p0], g[q]);
            lemma_first_toucher_shared(m, g, h, q, r, q, p0);
            assert(touches_earlier(m, h, q));
            let p1 = choose|p1: int| 0 <= p1 < q && #[trigger] faces_touch(m, h[p1], h[q]);
            lemma_first_toucher_shared(m, h, g, q, r2, q, p1);
            assert(first_toucher(m, g, q) < first_toucher(m, g, r2) || (first_toucher(m, g, q) == first_toucher(m, g, r2) && g[q] < g[r2]));
            assert(first_toucher(m, h, q) < first_toucher(m, h, r) || (first_toucher(m, h, q) == first_toucher(m, h, r) && h[q] < h[r]));
        }
    }
}

/// The split of a mesh into connected parts is unique: the parts, their
/// order and the order of the faces within each part are determined.
pub proof fn law_component_split_unique(m: MeshView, g1: Seq<Seq<int>>, g2: Seq<Seq<int>>)
    requires
        is_component_split(m, g1),
        is_component_split(m, g2),
    ensures
        g1 == g2,
{
    let f1 = Seq::new(g1.len(), |i: int| g1[i][0]);
    let f2 = Seq::new(g2.len(), |i: int| g2[i][0]);
    assert forall|x: int| f2.contains(x) implies f1.contains(x) by {
        let a = choose|a: int| 0 <= a < f2.len() && f2[a] == x;
        let h = lemma_same_group(m, g1, g2, a);
        assert(f1[h] == x);
    }
    assert forall|x: int| f1.contains(x) implies f2.contains(x) by {
        let a = choose|a: int| 0 <= a < f1.len() && f1[a] == x;
        let h = lemma_same_group(m, g2, g1, a);
        assert(f2[h] == x);
    }
    assert forall|i: int, j: int| 0 <= i < j < f1.len() implies #[trigger] f1[i] < #[trigger] f1[j] by {
        assert(g1[i][0] < g1[j][0]);
    }
    assert forall|i: int, j: int| 0 <= i < j < f2.len() implies #[trigger] f2[i] < #[trigger] f2[j] by {
        assert(g2[i][0] < g2[j][0]);
    }
    lemma_increasing_same_members(f1, f2);
    assert(g1.len() == g2.len());
    assert forall|a: int| 0 <= a < g2.len() implies #[trigger] g1[a] == g2[a] by {
        let h = lemma_same_group(m, g1, g2, a);
        assert(f1[h] == f2[a]);
        assert(f1[a] == f2[a]);
        if h < a {
            assert(f1[h] < f1[a]);
        } else if h > a {
            assert(f1[a] < f1[h]);
        }
        let g = g1[a];
        let hh = g2[a];
        assert(g.len() > 0 && hh.len() > 0);
        assert forall|i: int, j: int| 0 <= i < g.len() && 0 <= j < g.len() && i != j implies g[i] != g[j] by {}
        assert forall|i: int, j: int| 0 <= i < hh.len() && 0 <= j < hh.len() && i != j implies hh[i] != hh[j] by {}
        assert(breadth_first(m, g));
        assert(breadth_first(m, hh));
        assert forall|t: int| 0 < t < g.len() implies #[trigger] touches_earlier(m, g, t) by {}
        assert forall|t: int| 0 < t < hh.len() implies #[trigger] touches_earlier(m, hh, t) by {}
        let k: int = if g.len() <= hh.len() { g.len() as int } else { hh.len() as int };
        lemma_breadth_first_unique(m, g, hh, k);
        if g.len() > k {
            assert(g.contains(g[k]));
            let r = choose|r: int| 0 <= r < hh.len() && hh[r] == g[k];
            assert(g[r] == hh[r]);
        }
        if hh.len() > k {
            assert(hh.contains(hh[k]));
            let r = choose|r: int| 0 <= r < g.len() && g[r] == hh[k];
            assert(g[r] == hh[r]);
        }
        assert(g =~= hh);
    }
    assert(g1 =~= g2);
}

} // verus!
