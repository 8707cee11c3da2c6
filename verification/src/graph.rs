//! The lane layout of the commit graph drawn beside the history list.
//!
//! Commits arrive newest first. A lane carries the id of the commit that the
//! edge drawn in it leads to; a commit takes the first lane that already carries
//! its id, else the first free lane, else a new lane at the end. Its first
//! parent continues in the commit's own lane, every other parent is placed like
//! a commit would be, and once the row is drawn no lane carries the commit any
//! more.
use vstd::prelude::*;
use crate::model::{commits_view, opt_str_view, strings_view, CommitInfo, CommitInfoView};

verus! {

/// The lanes between two rows: each is free or carries the id of a commit.
pub type Lanes = Seq<Option<Seq<char>>>;

/// The view of the executable lanes.
pub open spec fn lanes_view(v: Seq<Option<String>>) -> Lanes {
    Seq::new(v.len(), |i: int| opt_str_view(v[i]))
}

/// The view of a list of lane numbers.
pub open spec fn usizes_view(v: Seq<usize>) -> Seq<int> {
    Seq::new(v.len(), |i: int| v[i] as int)
}

/// The first position at or after `i` that holds `t`, or the length when none does.
pub open spec fn first_from(s: Lanes, t: Option<Seq<char>>, i: nat) -> int
    decreases s.len() - i,
{
    if i >= s.len() {
        s.len() as int
    } else if s[i as int] == t {
        i as int
    } else {
        first_from(s, t, i + 1)
    }
}

/// The first lane that holds `t`, or the number of lanes when none does.
pub open spec fn first_lane(s: Lanes, t: Option<Seq<char>>) -> int {
    first_from(s, t, 0)
}

/// The lane that a commit with id `t` is drawn in, and the lanes after a new one
/// was opened for it if there was no lane to reuse.
pub open spec fn claim_lane(lanes: Lanes, t: Seq<char>) -> (int, Lanes) {
    let found = first_lane(lanes, Some(t));
    if found < lanes.len() {
        (found, lanes)
    } else {
        let free = first_lane(lanes, None);
        if free < lanes.len() {
            (free, lanes)
        } else {
            (lanes.len() as int, lanes.push(None))
        }
    }
}

/// The lanes after the parents of a commit drawn in lane `node` were placed,
/// and the lane of each parent.
pub open spec fn assign_parents(lanes: Lanes, node: int, ps: Seq<Seq<char>>) -> (Lanes, Seq<int>)
    decreases ps.len(),
{
    if ps.len() == 0 {
        (lanes, Seq::empty())
    } else {
        let (l, pl) = assign_parents(lanes, node, ps.drop_last());
        let p = ps.last();
        if ps.len() == 1 {
            (l.update(node, Some(p)), pl.push(node))
        } else {
            let (idx, l2) = claim_lane(l, p);
            (l2.update(idx, Some(p)), pl.push(idx))
        }
    }
}

/// The lanes other than the node's own that carried the commit into its row.
pub open spec fn incoming_lanes(before: Lanes, oid: Seq<char>, node: int) -> Seq<int>
    decreases before.len(),
{
    if before.len() == 0 {
        Seq::empty()
    } else {
        let rest = incoming_lanes(before.drop_last(), oid, node);
        let i = before.len() - 1;
        if before[i] == Some(oid) && i != node {
            rest.push(i)
        } else {
            rest
        }
    }
}

/// The lanes with every lane that carries `oid` freed.
pub open spec fn release_lanes(l: Lanes, oid: Seq<char>) -> Lanes {
    Seq::new(l.len(), |i: int| if l[i] == Some(oid) { None } else { l[i] })
}

/// What one row of the graph draws.
pub struct GraphRowModel {
    pub active_before: Lanes,
    pub node_lane: int,
    pub parent_lanes: Seq<int>,
    pub lane_count: int,
    pub incoming_lanes: Seq<int>,
}

/// One row: the lanes after it and what it draws.
pub open spec fn graph_step(lanes: Lanes, oid: Seq<char>, parents: Seq<Seq<char>>) -> (Lanes, GraphRowModel) {
    let (node, l1) = claim_lane(lanes, oid);
    let (l2, pl) = assign_parents(l1, node, parents);
    let l3 = release_lanes(l2, oid);
    (
        l3,
        GraphRowModel {
            active_before: lanes,
            node_lane: node,
            parent_lanes: pl,
            lane_count: l3.len() as int,
            incoming_lanes: incoming_lanes(lanes, oid, node),
        },
    )
}

/// The lanes after all the commits, and the rows drawn for them.
pub open spec fn graph_model(commits: Seq<CommitInfoView>) -> (Lanes, Seq<GraphRowModel>)
    decreases commits.len(),
{
    if commits.len() == 0 {
        (Seq::empty(), Seq::empty())
    } else {
        let (l, rows) = graph_model(commits.drop_last());
        let c = commits.last();
        let (l2, row) = graph_step(l, c.oid, c.parents);
        (l2, rows.push(row))
    }
}

/// What one row of the graph draws: the lanes entering it, the lane of the
/// commit, the lane each parent edge leads to, the number of lanes after the
/// row, and the lanes that bend into the commit.
#[derive(Debug)]
pub struct GraphRowData {
    pub active_before: Vec<Option<String>>,
    pub node_lane: usize,
    pub parent_lanes: Vec<usize>,
    pub lane_count: usize,
    pub incoming_lanes: Vec<usize>,
}

impl View for GraphRowData {
    type V = GraphRowModel;

    open spec fn view(&self) -> GraphRowModel {
        GraphRowModel {
            active_before: lanes_view(self.active_before@),
            node_lane: self.node_lane as int,
            parent_lanes: usizes_view(self.parent_lanes@),
            lane_count: self.lane_count as int,
            incoming_lanes: usizes_view(self.incoming_lanes@),
        }
    }
}

/// The views of a list of rows.
pub open spec fn rows_view(v: Seq<GraphRowData>) -> Seq<GraphRowModel> {
    Seq::new(v.len(), |i: int| v[i]@)
}

fn lane_holds(lane: &Option<String>, t: &String) -> (r: bool)
    ensures
        r == (opt_str_view(*lane) == Some(t@)),
{
    match lane {
        Some(s) => *s == *t,
        None => false,
    }
}

fn find_lane(lanes: &Vec<Option<String>>, t: &String) -> (r: usize)
    ensures
        r as int == first_lane(lanes_view(lanes@), Some(t@)),
{
    let ghost lv = lanes_view(lanes@);
    let mut i: usize = 0;
    while i < lanes.len()
        invariant
            i <= lanes.len(),
            lv == lanes_view(lanes@),
            first_from(lv, Some(t@), 0) == first_from(lv, Some(t@), i as nat),
        decreases lanes.len() - i,
    {
        if lane_holds(&lanes[i], t) {
            return i;
        }
        i = i + 1;
    }
    i
}

fn find_free_lane(lanes: &Vec<Option<String>>) -> (r: usize)
    ensures
        r as int == first_lane(lanes_view(lanes@), None),
{
    let ghost lv = lanes_view(lanes@);
    let mut i: usize = 0;
    while i < lanes.len()
        invariant
            i <= lanes.len(),
            lv == lanes_view(lanes@),
            first_from(lv, None, 0) == first_from(lv, None, i as nat),
        decreases lanes.len() - i,
    {
        if lanes[i].is_none() {
            return i;
        }
        i = i + 1;
    }
    i
}

fn claim(lanes: &mut Vec<Option<String>>, t: &String) -> (idx: usize)
    ensures
        (idx as int, lanes_view(final(lanes)@)) == claim_lane(lanes_view(old(lanes)@), t@),
{
    let found = find_lane(lanes, t);
    if found < lanes.len() {
        return found;
    }
    let free = find_free_lane(lanes);
    if free < lanes.len() {
        return free;
    }
    let ghost before = lanes@;
    lanes.push(None);
    assert(lanes_view(lanes@) =~= lanes_view(before).push(None));
    lanes.len() - 1
}

fn copy_lanes(lanes: &Vec<Option<String>>) -> (r: Vec<Option<String>>)
    ensures
        lanes_view(r@) == lanes_view(lanes@),
{
    let mut r: Vec<Option<String>> = Vec::new();
    let mut i: usize = 0;
    while i < lanes.len()
        invariant
            i <= lanes.len(),
            r@.len() == i,
            forall|j: int| 0 <= j < i ==> opt_str_view(r@[j]) == opt_str_view(lanes@[j]),
        decreases lanes.len() - i,
    {
        let l = match &lanes[i] {
            Some(s) => Some(s.clone()),
            None => None,
        };
        r.push(l);
        i = i + 1;
    }
    assert(lanes_view(r@) =~= lanes_view(lanes@));
    r
}

fn set_lane(lanes: &mut Vec<Option<String>>, idx: usize, p: &String)
    requires
        idx < old(lanes)@.len(),
    ensures
        lanes_view(final(lanes)@) == lanes_view(old(lanes)@).update(idx as int, Some(p@)),
{
    let ghost before = lanes@;
    lanes.set(idx, Some(p.clone()));
    assert(lanes_view(lanes@) =~= lanes_view(before).update(idx as int, Some(p@)));
}

proof fn lemma_claim_in_range(lanes: Lanes, t: Seq<char>)
    ensures
        0 <= claim_lane(lanes, t).0 < claim_lane(lanes, t).1.len(),
        claim_lane(lanes, t).1.len() == lanes.len() || claim_lane(lanes, t).1.len() == lanes.len() + 1,
{
    lemma_first_from(lanes, Some(t), 0);
    lemma_first_from(lanes, None, 0);
}

/// What `first_from` finds: a position holding `t`, with none before it, or the end.
pub proof fn lemma_first_from(s: Lanes, t: Option<Seq<char>>, i: nat)
    requires
        i <= s.len(),
    ensures
        i <= first_from(s, t, i) <= s.len(),
        first_from(s, t, i) < s.len() ==> s[first_from(s, t, i)] == t,
        forall|j: int| i <= j < first_from(s, t, i) ==> s[j] != t,
    decreases s.len() - i,
{
    if i < s.len() && s[i as int] != t {
        lemma_first_from(s, t, i + 1);
    }
}

proof fn lemma_assign_len(lanes: Lanes, node: int, ps: Seq<Seq<char>>)
    requires
        0 <= node < lanes.len(),
    ensures
        assign_parents(lanes, node, ps).0.len() >= lanes.len(),
        assign_parents(lanes, node, ps).1.len() == ps.len(),
        forall|k: int| 0 <= k < ps.len() ==> 0 <= #[trigger] assign_parents(lanes, node, ps).1[k]
            < assign_parents(lanes, node, ps).0.len(),
    decreases ps.len(),
{
    if ps.len() > 0 {
        lemma_assign_len(lanes, node, ps.drop_last());
        let (l, pl) = assign_parents(lanes, node, ps.drop_last());
        if ps.len() > 1 {
            lemma_claim_in_range(l, ps.last());
        }
    }
}

/// One row of the graph, drawn on the lanes left by the rows above it.
fn graph_row(lanes: &mut Vec<Option<String>>, c: &CommitInfo) -> (row: GraphRowData)
    ensures
        (lanes_view(final(lanes)@), row@) == graph_step(lanes_view(old(lanes)@), c.oid@, strings_view(c.parents@)),
{
    let ghost start = lanes_view(lanes@);
    let ghost parents = strings_view(c.parents@);
    let active_before = copy_lanes(lanes);
    let node_lane = claim(lanes, &c.oid);
    let ghost l1 = lanes_view(lanes@);
    proof {
        lemma_claim_in_range(start, c.oid@);
    }
    let mut parent_lanes: Vec<usize> = Vec::new();
    let mut k: usize = 0;
    proof {
        assert(parents.take(0) =~= Seq::<Seq<char>>::empty());
        assert(usizes_view(parent_lanes@) =~= Seq::<int>::empty());
    }
    while k < c.parents.len()
        invariant
            k <= c.parents.len(),
            parents == strings_view(c.parents@),
            0 <= node_lane < l1.len(),
            (lanes_view(lanes@), usizes_view(parent_lanes@)) == assign_parents(l1, node_lane as int, parents.take(k as int)),
        decreases c.parents.len() - k,
    {
        let ghost pre = parents.take(k as int);
        let ghost post = parents.take(k + 1);
        proof {
            assert(post.drop_last() =~= pre);
            assert(post.last() == c.parents@[k as int]@);
            lemma_assign_len(l1, node_lane as int, pre);
        }
        let ghost before_pl = parent_lanes@;
        if k == 0 {
            set_lane(lanes, node_lane, &c.parents[k]);
            parent_lanes.push(node_lane);
        } else {
            let idx = claim(lanes, &c.parents[k]);
            proof {
                lemma_claim_in_range(assign_parents(l1, node_lane as int, pre).0, c.parents@[k as int]@);
            }
            set_lane(lanes, idx, &c.parents[k]);
            parent_lanes.push(idx);
        }
        assert(usizes_view(parent_lanes@) =~= usizes_view(before_pl).push(parent_lanes@.last() as int));
        k = k + 1;
    }
    assert(parents.take(c.parents.len() as int) =~= parents);
    let ghost l2 = lanes_view(lanes@);

    let mut incoming: Vec<usize> = Vec::new();
    let ghost before_view = lanes_view(active_before@);
    let mut i: usize = 0;
    assert(before_view.take(0) =~= Seq::<Option<Seq<char>>>::empty());
    assert(usizes_view(incoming@) =~= Seq::<int>::empty());
    while i < active_before.len()
        invariant
            i <= active_before.len(),
            before_view == lanes_view(active_before@),
            usizes_view(incoming@) == incoming_lanes(before_view.take(i as int), c.oid@, node_lane as int),
        decreases active_before.len() - i,
    {
        let ghost pre_in = incoming@;
        assert(before_view.take(i + 1).drop_last() =~= before_view.take(i as int));
        if lane_holds(&active_before[i], &c.oid) && i != node_lane {
            incoming.push(i);
            assert(usizes_view(incoming@) =~= usizes_view(pre_in).push(i as int));
        }
        i = i + 1;
    }
    assert(before_view.take(active_before.len() as int) =~= before_view);

    let mut j: usize = 0;
    while j < lanes.len()
        invariant
            j <= lanes.len(),
            lanes@.len() == l2.len(),
            forall|m: int| 0 <= m < lanes@.len() ==> #[trigger] lanes_view(lanes@)[m] == if m < j {
                release_lanes(l2, c.oid@)[m]
            } else {
                l2[m]
            },
        decreases lanes.len() - j,
    {
        let ghost pre = lanes_view(lanes@);
        assert(pre[j as int] == l2[j as int]);
        if lane_holds(&lanes[j], &c.oid) {
            lanes.set(j, None);
            assert(lanes_view(lanes@) =~= pre.update(j as int, None));
        } else {
            assert(lanes_view(lanes@) =~= pre);
        }
        j = j + 1;
    }
    assert(lanes_view(lanes@) =~= release_lanes(l2, c.oid@));
    let lane_count = lanes.len();
    GraphRowData {
        active_before,
        node_lane,
        parent_lanes,
        lane_count,
        incoming_lanes: incoming,
    }
}

/// The graph rows for a list of commits, newest first.
pub fn compute_graph(commits: &[CommitInfo]) -> (rows: Vec<GraphRowData>)
    ensures
        rows_view(rows@) == graph_model(commits_view(commits@)).1,
{
    let ghost cs = commits_view(commits@);
    let mut lanes: Vec<Option<String>> = Vec::new();
    let mut rows: Vec<GraphRowData> = Vec::new();
    let mut k: usize = 0;
    assert(cs.take(0) =~= Seq::<CommitInfoView>::empty());
    assert(lanes_view(lanes@) =~= Seq::<Option<Seq<char>>>::empty());
    assert(rows_view(rows@) =~= Seq::<GraphRowModel>::empty());
    while k < commits.len()
        invariant
            k <= commits.len(),
            cs == commits_view(commits@),
            (lanes_view(lanes@), rows_view(rows@)) == graph_model(cs.take(k as int)),
        decreases commits.len() - k,
    {
        let ghost pre_rows = rows@;
        assert(cs.take(k + 1).drop_last() =~= cs.take(k as int));
        assert(cs.take(k + 1).last() == commits@[k as int]@);
        let row = graph_row(&mut lanes, &commits[k]);
        rows.push(row);
        assert(rows_view(rows@) =~= rows_view(pre_rows).push(rows@.last()@));
        k = k + 1;
    }
    assert(cs.take(commits.len() as int) =~= cs);
    rows
}


proof fn lemma_claim_target(lanes: Lanes, t: Seq<char>)
    ensures
        ({
            let (idx, l) = claim_lane(lanes, t);
            &&& l[idx] == Some(t) || l[idx] == None::<Seq<char>>
            &&& l.subrange(0, lanes.len() as int) == lanes
            &&& l.len() > lanes.len() ==> l[idx] == None::<Seq<char>>
        }),
{
    lemma_first_from(lanes, Some(t), 0);
    lemma_first_from(lanes, None, 0);
    let (idx, l) = claim_lane(lanes, t);
    assert(l.subrange(0, lanes.len() as int) =~= lanes);
}

proof fn lemma_assign_carries(lanes: Lanes, node: int, ps: Seq<Seq<char>>)
    requires
        0 <= node < lanes.len(),
    ensures
        ({
            let (l, pl) = assign_parents(lanes, node, ps);
            &&& ps.len() > 0 ==> pl[0] == node
            &&& forall|i: int| 0 <= i < ps.len() ==> l[#[trigger] pl[i]] == Some(ps[i])
        }),
    decreases ps.len(),
{
    lemma_assign_len(lanes, node, ps);
    if ps.len() > 0 {
        let prev = ps.drop_last();
        lemma_assign_carries(lanes, node, prev);
        lemma_assign_len(lanes, node, prev);
        let (l, pl) = assign_parents(lanes, node, prev);
        let p = ps.last();
        if ps.len() == 1 {
        } else {
            lemma_claim_target(l, p);
            lemma_claim_in_range(l, p);
            let (idx, l2) = claim_lane(l, p);
            let (lf, plf) = assign_parents(lanes, node, ps);
            assert(lf == l2.update(idx, Some(p)));
            assert(plf == pl.push(idx));
            assert forall|i: int| 0 <= i < ps.len() implies lf[#[trigger] plf[i]] == Some(ps[i]) by {
                if i < ps.len() - 1 {
                    assert(plf[i] == pl[i]);
                    assert(prev[i] == ps[i]);
                    assert(l[pl[i]] == Some(ps[i]));
                    assert(0 <= pl[i] < l.len());
                    assert(l2[pl[i]] == l[pl[i]]) by {
                        assert(l2.subrange(0, l.len() as int)[pl[i]] == l2[pl[i]]);
                    }
                    if pl[i] == idx {
                        assert(l2[idx] == Some(ps[i]));
                    }
                } else {
                    assert(plf[i] == idx);
                }
            }
        }
    }
}

/// Once a row is drawn, each parent that is not the commit itself is carried
/// on the lane its edge leads to, and no lane carries the commit any more.
pub proof fn law_row_hands_on_parents(lanes: Lanes, oid: Seq<char>, parents: Seq<Seq<char>>)
    ensures
        ({
            let (after, row) = graph_step(lanes, oid, parents);
            &&& forall|i: int| 0 <= i < parents.len() && parents[i] != oid ==>
                after[#[trigger] row.parent_lanes[i]] == Some(parents[i])
            &&& forall|m: int| 0 <= m < after.len() ==> after[m] != Some(oid)
        }),
{
    lemma_claim_in_range(lanes, oid);
    let (node, l1) = claim_lane(lanes, oid);
    lemma_assign_carries(l1, node, parents);
    lemma_assign_len(l1, node, parents);
}

/// A commit is drawn in the first lane that carries its id when one does;
/// otherwise in the first free lane, or in a new lane after the last one. The
/// lanes that bend into it are exactly the other lanes that carried it.
pub proof fn law_node_lane_choice(lanes: Lanes, oid: Seq<char>, parents: Seq<Seq<char>>)
    ensures
        ({
            let (after, row) = graph_step(lanes, oid, parents);
            &&& (exists|j: int| 0 <= j < lanes.len() && lanes[j] == Some(oid)) ==> {
                &&& lanes[row.node_lane] == Some(oid)
                &&& forall|j: int| 0 <= j < row.node_lane ==> lanes[j] != Some(oid)
            }
            &&& (forall|j: int| 0 <= j < lanes.len() ==> lanes[j] != Some(oid)) ==> {
                ||| row.node_lane < lanes.len() && lanes[row.node_lane] == None::<Seq<char>>
                    && forall|j: int| 0 <= j < row.node_lane ==> lanes[j] != None::<Seq<char>>
                ||| row.node_lane == lanes.len() && forall|j: int| 0 <= j < lanes.len() ==> lanes[j] != None::<Seq<char>>
            }
            &&& forall|i: int| 0 <= i < lanes.len() ==> (row.incoming_lanes.contains(i) <==> (lanes[i] == Some(oid) && i != row.node_lane))
        }),
{
    lemma_first_from(lanes, Some(oid), 0);
    lemma_first_from(lanes, None, 0);
    let (after, row) = graph_step(lanes, oid, parents);
    lemma_incoming(lanes, oid, row.node_lane);
}

proof fn lemma_incoming(before: Lanes, oid: Seq<char>, node: int)
    ensures
        forall|i: int| 0 <= i < before.len() ==> (incoming_lanes(before, oid, node).contains(i) <==> (before[i] == Some(oid) && i != node)),
        forall|i: int| incoming_lanes(before, oid, node).contains(i) ==> 0 <= i < before.len(),
    decreases before.len(),
{
    if before.len() > 0 {
        let prev = before.drop_last();
        lemma_incoming(prev, oid, node);
        let rest = incoming_lanes(prev, oid, node);
        let last = before.len() - 1;
        assert forall|i: int| 0 <= i < before.len() implies (incoming_lanes(before, oid, node).contains(i) <==> (before[i] == Some(oid) && i != node)) by {
            if i < last {
                assert(prev[i] == before[i]);
                if before[last] == Some(oid) && last != node {
                    assert(rest.push(last).contains(i) <==> rest.contains(i)) by {
                        if rest.push(last).contains(i) {
                            let w = choose|w: int| 0 <= w < rest.push(last).len() && rest.push(last)[w] == i;
                            if w < rest.len() { assert(rest.contains(i)); }
                        }
                        if rest.contains(i) {
                            let w = choose|w: int| 0 <= w < rest.len() && rest[w] == i;
                            assert(rest.push(last)[w] == i);
                        }
                    }
                }
            } else {
                if before[last] == Some(oid) && last != node {
                    assert(rest.push(last)[rest.len() as int] == last);
                } else {
                    assert(!rest.contains(last));
                }
            }
        }
        assert forall|i: int| incoming_lanes(before, oid, node).contains(i) implies 0 <= i < before.len() by {
            if before[last] == Some(oid) && last != node {
                let w = choose|w: int| 0 <= w < rest.push(last).len() && rest.push(last)[w] == i;
                if w < rest.len() { assert(rest.contains(i)); }
            }
        }
    }
}

/// The rows of a prefix of the history are the first rows of the whole history,
/// and each row enters with the lanes the rows above it left.
pub proof fn lemma_graph_prefix(commits: Seq<CommitInfoView>)
    ensures
        graph_model(commits).1.len() == commits.len(),
        forall|k: int| 0 <= k < commits.len() ==> {
            let (l, r) = graph_step(graph_model(commits.take(k)).0, commits[k].oid, commits[k].parents);
            &&& #[trigger] graph_model(commits).1[k] == r
            &&& graph_model(commits.take(k + 1)).0 == l
        },
    decreases commits.len(),
{
    if commits.len() > 0 {
        let prev = commits.drop_last();
        lemma_graph_prefix(prev);
        let n = commits.len() - 1;
        assert forall|k: int| 0 <= k < commits.len() implies {
            let (l, r) = graph_step(graph_model(commits.take(k)).0, commits[k].oid, commits[k].parents);
            &&& #[trigger] graph_model(commits).1[k] == r
            &&& graph_model(commits.take(k + 1)).0 == l
        } by {
            if k < n {
                assert(prev.take(k) =~= commits.take(k));
                assert(prev.take(k + 1) =~= commits.take(k + 1));
                assert(prev[k] == commits[k]);
            } else {
                assert(commits.take(k) =~= prev);
                assert(commits.take(k + 1) =~= commits);
            }
        }
    }
}

/// The lane count never falls from one row to the next, each row enters with
/// as many lanes as the row above left, and every row's node and parent edges
/// lie within its lanes, the first parent continuing in the commit's own lane.
pub proof fn law_graph_shape(commits: Seq<CommitInfoView>)
    ensures
        ({
            let rows = graph_model(commits).1;
            &&& rows.len() == commits.len()
            &&& rows.len() > 0 ==> rows[0].active_before.len() == 0
            &&& forall|k: int| 0 <= k < rows.len() ==> {
                &&& 0 <= #[trigger] rows[k].node_lane < rows[k].lane_count
                &&& rows[k].active_before.len() <= rows[k].lane_count
                &&& rows[k].parent_lanes.len() == commits[k].parents.len()
                &&& commits[k].parents.len() > 0 ==> rows[k].parent_lanes[0] == rows[k].node_lane
                &&& forall|i: int| 0 <= i < rows[k].parent_lanes.len() ==> 0 <= #[trigger] rows[k].parent_lanes[i] < rows[k].lane_count
            }
            &&& forall|k: int| 0 <= k < rows.len() - 1 ==> (#[trigger] rows[k + 1]).active_before.len() == rows[k].lane_count
        }),
{
    lemma_graph_prefix(commits);
    let rows = graph_model(commits).1;
    assert(commits.take(0) =~= Seq::<CommitInfoView>::empty());
    assert forall|k: int| 0 <= k < rows.len() implies {
        &&& 0 <= #[trigger] rows[k].node_lane < rows[k].lane_count
        &&& rows[k].active_before.len() <= rows[k].lane_count
        &&& rows[k].parent_lanes.len() == commits[k].parents.len()
        &&& commits[k].parents.len() > 0 ==> rows[k].parent_lanes[0] == rows[k].node_lane
        &&& forall|i: int| 0 <= i < rows[k].parent_lanes.len() ==> 0 <= #[trigger] rows[k].parent_lanes[i] < rows[k].lane_count
    } by {
        let lanes = graph_model(commits.take(k)).0;
        let c = commits[k];
        lemma_claim_in_range(lanes, c.oid);
        let (node, l1) = claim_lane(lanes, c.oid);
        lemma_assign_len(l1, node, c.parents);
        lemma_assign_carries(l1, node, c.parents);
    }
    assert forall|k: int| 0 <= k < rows.len() - 1 implies (#[trigger] rows[k + 1]).active_before.len() == rows[k].lane_count by {
        assert(rows[k + 1] == graph_step(graph_model(commits.take(k + 1)).0, commits[k + 1].oid, commits[k + 1].parents).1);
    }
}

/// Between consecutive rows, the lane that each parent edge of the upper row
/// leads to enters the lower row carrying that parent (unless the parent is
/// the commit itself).
pub proof fn law_edges_meet_lanes(commits: Seq<CommitInfoView>)
    ensures
        ({
            let rows = graph_model(commits).1;
            forall|k: int, i: int| 0 <= k < rows.len() - 1 && 0 <= i < commits[k].parents.len()
                && commits[k].parents[i] != commits[k].oid ==>
                rows[k + 1].active_before[#[trigger] rows[k].parent_lanes[i]] == Some(commits[k].parents[i])
        }),
{
    lemma_graph_prefix(commits);
    let rows = graph_model(commits).1;
    assert forall|k: int, i: int| 0 <= k < rows.len() - 1 && 0 <= i < commits[k].parents.len()
        && commits[k].parents[i] != commits[k].oid implies
        rows[k + 1].active_before[#[trigger] rows[k].parent_lanes[i]] == Some(commits[k].parents[i]) by {
        let lanes = graph_model(commits.take(k)).0;
        law_row_hands_on_parents(lanes, commits[k].oid, commits[k].parents);
        assert(rows[k + 1] == graph_step(graph_model(commits.take(k + 1)).0, commits[k + 1].oid, commits[k + 1].parents).1);
    }
}

proof fn lemma_first_is(s: Lanes, t: Option<Seq<char>>, j: int)
    requires
        0 <= j <= s.len(),
        j < s.len() ==> s[j] == t,
        forall|i: int| 0 <= i < j ==> s[i] != t,
    ensures
        first_lane(s, t) == j,
{
    lemma_first_from(s, t, 0);
    let f = first_lane(s, t);
    if f < j {
        assert(s[f] == t);
    }
    if f > j {
        assert(s[j] != t);
    }
}

proof fn lemma_assign_prefix(l: Lanes, node: int, ps: Seq<Seq<char>>, n: int)
    requires
        0 <= node < l.len(),
        0 <= n <= ps.len(),
    ensures
        forall|k: int| 0 <= k < n ==> #[trigger] assign_parents(l, node, ps).1[k] == assign_parents(l, node, ps.take(n)).1[k],
    decreases ps.len(),
{
    if n < ps.len() {
        let prev = ps.drop_last();
        lemma_assign_prefix(l, node, prev, n);
        lemma_assign_len(l, node, prev);
        assert(prev.take(n) =~= ps.take(n));
    } else {
        assert(ps.take(n) =~= ps);
    }
}

proof fn lemma_assign_keeps_other(l: Lanes, node: int, ps: Seq<Seq<char>>, q: Seq<char>)
    requires
        0 <= node < l.len(),
        l[node] != Some(q),
        forall|i: int| 0 <= i < ps.len() ==> ps[i] != q,
    ensures
        forall|m: int| 0 <= m < assign_parents(l, node, ps).0.len() ==>
            (#[trigger] assign_parents(l, node, ps).0[m] == Some(q) <==> (m < l.len() && l[m] == Some(q))),
    decreases ps.len(),
{
    lemma_assign_len(l, node, ps);
    if ps.len() > 0 {
        let prev = ps.drop_last();
        lemma_assign_keeps_other(l, node, prev, q);
        lemma_assign_len(l, node, prev);
        let (a, pl) = assign_parents(l, node, prev);
        let p = ps.last();
        assert(p == ps[ps.len() - 1]);
        if ps.len() > 1 {
            lemma_claim_target(a, p);
            lemma_claim_in_range(a, p);
            lemma_first_from(a, Some(p), 0);
            lemma_first_from(a, None, 0);
            let (idx, a2) = claim_lane(a, p);
            let r = assign_parents(l, node, ps).0;
            assert(r == a2.update(idx, Some(p)));
            assert forall|m: int| 0 <= m < r.len() implies
                (#[trigger] r[m] == Some(q) <==> (m < l.len() && l[m] == Some(q))) by {
                if m != idx {
                    if m < a.len() {
                        assert(a2.subrange(0, a.len() as int)[m] == a2[m]);
                    } else {
                        assert(a2[m] == None::<Seq<char>>);
                    }
                }
            }
        }
    }
}

/// Each parent after the first whose id a lane already carried before the
/// row is drawn into the first lane that carried it: a merge edge joins the
/// lane of the branch it merges and opens no second lane for it. (Parents are
/// distinct and differ from the commit, as in any git history.)
pub proof fn law_parent_joins_carrying_lane(lanes: Lanes, oid: Seq<char>, parents: Seq<Seq<char>>, k: int)
    requires
        1 <= k < parents.len(),
        forall|i: int, j: int| 0 <= i < j < parents.len() ==> parents[i] != parents[j],
        forall|i: int| 0 <= i < parents.len() ==> parents[i] != oid,
        exists|j: int| 0 <= j < lanes.len() && lanes[j] == Some(parents[k]),
    ensures
        ({
            let (after, row) = graph_step(lanes, oid, parents);
            &&& 0 <= row.parent_lanes[k] < lanes.len()
            &&& lanes[row.parent_lanes[k]] == Some(parents[k])
            &&& forall|j: int| 0 <= j < row.parent_lanes[k] ==> lanes[j] != Some(parents[k])
        }),
{
    let q = parents[k];
    lemma_claim_in_range(lanes, oid);
    lemma_claim_target(lanes, oid);
    lemma_first_from(lanes, Some(oid), 0);
    lemma_first_from(lanes, None, 0);
    let (node, l1) = claim_lane(lanes, oid);
    assert(l1[node] != Some(q));
    let pre = parents.take(k);
    lemma_assign_keeps_other(l1, node, pre, q);
    lemma_assign_len(l1, node, pre);
    let a = assign_parents(l1, node, pre).0;
    lemma_first_from(lanes, Some(q), 0);
    let j0 = first_lane(lanes, Some(q));
    assert(j0 < lanes.len());
    assert forall|m: int| 0 <= m < l1.len() implies (l1[m] == Some(q) <==> (m < lanes.len() && lanes[m] == Some(q))) by {
        if m < lanes.len() {
            assert(l1.subrange(0, lanes.len() as int)[m] == l1[m]);
        }
    }
    assert(a[j0] == Some(q));
    assert forall|i: int| 0 <= i < j0 implies a[i] != Some(q) by {
        assert(lanes[i] != Some(q));
    }
    lemma_first_is(a, Some(q), j0);
    let post = parents.take(k + 1);
    assert(post.drop_last() =~= pre);
    assert(post.last() == q);
    lemma_assign_prefix(l1, node, parents, k + 1);
    assert(assign_parents(l1, node, post).1[k] == j0);
}

/// When no lane carried the second parent of a merge before its row, its edge
/// goes to the first lane that was free before the row and is not the
/// commit's own, or, when there is none, to one new lane at the end.
pub proof fn law_second_parent_lane(lanes: Lanes, oid: Seq<char>, parents: Seq<Seq<char>>)
    requires
        2 <= parents.len(),
        parents[1] != parents[0],
        parents[1] != oid,
        forall|j: int| 0 <= j < lanes.len() ==> lanes[j] != Some(parents[1]),
    ensures
        ({
            let (after, row) = graph_step(lanes, oid, parents);
            let node = row.node_lane;
            let d = row.parent_lanes[1];
            &&& (exists|j: int| 0 <= j < lanes.len() && j != node && lanes[j] == None::<Seq<char>>) ==> {
                &&& 0 <= d < lanes.len()
                &&& d != node
                &&& lanes[d] == None::<Seq<char>>
                &&& forall|j: int| 0 <= j < d && j != node ==> lanes[j] != None::<Seq<char>>
            }
            &&& !(exists|j: int| 0 <= j < lanes.len() && j != node && lanes[j] == None::<Seq<char>>) ==>
                d == (if node == lanes.len() { lanes.len() + 1int } else { lanes.len() as int })
        }),
{
    let q = parents[1];
    lemma_claim_in_range(lanes, oid);
    lemma_claim_target(lanes, oid);
    lemma_first_from(lanes, Some(oid), 0);
    lemma_first_from(lanes, None, 0);
    let (node, l1) = claim_lane(lanes, oid);
    let a = l1.update(node, Some(parents[0]));
    let pre = parents.take(1);
    let post = parents.take(2);
    assert(pre.drop_last() =~= Seq::<Seq<char>>::empty());
    assert(pre.last() == parents[0]);
    assert(assign_parents(l1, node, pre.drop_last()).0 == l1);
    assert(assign_parents(l1, node, pre).0 == a);
    assert(post.drop_last() =~= pre);
    assert(post.last() == q);
    lemma_assign_len(l1, node, pre);
    assert(assign_parents(l1, node, post).1 == assign_parents(l1, node, pre).1.push(claim_lane(a, q).0));
    lemma_assign_prefix(l1, node, parents, 2);
    assert forall|m: int| 0 <= m < l1.len() && m < lanes.len() implies l1[m] == lanes[m] by {
        assert(l1.subrange(0, lanes.len() as int)[m] == l1[m]);
    }
    assert(l1.len() == lanes.len() ==> node < lanes.len());
    assert(l1.len() > lanes.len() ==> node == lanes.len());
    // no lane of a carries q
    assert forall|m: int| 0 <= m < a.len() implies a[m] != Some(q) by {
        if m != node && m < lanes.len() {
            assert(lanes[m] != Some(q));
        }
    }
    lemma_first_is(a, Some(q), a.len() as int);
    lemma_first_from(a, None, 0);
    let d = assign_parents(l1, node, post).1[1];
    let f = first_lane(a, None);
    if exists|j: int| 0 <= j < lanes.len() && j != node && lanes[j] == None::<Seq<char>> {
        let w = choose|j: int| 0 <= j < lanes.len() && j != node && lanes[j] == None::<Seq<char>>;
        assert(a[w] == None::<Seq<char>>);
        assert(f <= w);
        assert(f < a.len());
        assert(d == f);
        assert(f != node);
        assert(f < lanes.len());
        assert forall|j: int| 0 <= j < f && j != node implies lanes[j] != None::<Seq<char>> by {
            assert(a[j] != None::<Seq<char>>);
        }
    } else {
        assert forall|j: int| 0 <= j < a.len() implies a[j] != None::<Seq<char>> by {
            if j != node && j < lanes.len() {
                assert(lanes[j] != None::<Seq<char>>);
            }
        }
        lemma_first_is(a, None, a.len() as int);
        assert(d == a.len());
    }
}

} // verus!
