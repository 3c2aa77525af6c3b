//! Task-graph validation. Planner input is checked deterministically here:
//! non-empty, unique task ids, known dependency endpoints, no self edges,
//! and no dependency cycle.

use vstd::prelude::*;
use vstd::string::*;
use crate::error::{CoreError, join2};
use crate::types::{TaskGraph, TaskSpec};

verus! {

/// The task ids of a graph, in task order.
pub open spec fn task_ids(g: TaskGraph) -> Seq<Seq<char>> {
    ids_of(g.tasks@)
}

/// The ids of a sequence of tasks, in order.
pub open spec fn ids_of(tasks: Seq<TaskSpec>) -> Seq<Seq<char>> {
    tasks.map_values(|t: TaskSpec| t.id@)
}

/// Task `i` has a dependency edge to task `j` (`j` waits for `i`).
pub open spec fn has_edge(g: TaskGraph, i: int, j: int) -> bool {
    exists|k: int|
        0 <= k < g.deps@.len() && #[trigger] g.deps@[k].from@ == g.tasks@[i].id@
            && g.deps@[k].to@ == g.tasks@[j].id@
}

/// `p` is a walk along dependency edges through task indices.
pub open spec fn is_task_path(g: TaskGraph, p: Seq<int>) -> bool {
    &&& p.len() >= 1
    &&& forall|k: int| 0 <= k < p.len() ==> 0 <= #[trigger] p[k] < g.tasks@.len()
    &&& forall|k: int| 0 <= k < p.len() - 1 ==> has_edge(g, #[trigger] p[k], p[k + 1])
}

/// `c` is a closed walk through task `m` along dependency edges.
pub open spec fn is_task_cycle_through(g: TaskGraph, c: Seq<int>, m: int) -> bool {
    &&& c.len() >= 2
    &&& is_task_path(g, c)
    &&& c[0] == m
    &&& c.last() == m
}

/// The dependency edges of `g` contain a cycle.
pub open spec fn has_cycle(g: TaskGraph) -> bool {
    exists|c: Seq<int>, m: int| is_task_cycle_through(g, c, m)
}

/// The first problem among dependency edges `k..`, as an error message.
pub open spec fn dep_problem_from(g: TaskGraph, k: int) -> Option<Seq<char>>
    decreases g.deps@.len() - k,
{
    if k < 0 || k >= g.deps@.len() {
        None
    } else {
        let d = g.deps@[k];
        if !task_ids(g).contains(d.from@) {
            Some("dep.from unknown: "@ + d.from@)
        } else if !task_ids(g).contains(d.to@) {
            Some("dep.to unknown: "@ + d.to@)
        } else if d.from@ == d.to@ {
            Some("self-dep"@)
        } else {
            dep_problem_from(g, k + 1)
        }
    }
}

/// Every dependency edge joins two known tasks (self edges included).
pub open spec fn deps_known(g: TaskGraph) -> bool {
    forall|k: int| 0 <= k < g.deps@.len() ==> task_ids(g).contains(#[trigger] g.deps@[k].from@)
        && task_ids(g).contains(g.deps@[k].to@)
}

/// Edges from `k` on raise no problem, so each joins two known tasks.
proof fn lemma_no_dep_problem(g: TaskGraph, k: int)
    requires
        0 <= k,
        dep_problem_from(g, k) is None,
    ensures
        forall|kk: int| k <= kk < g.deps@.len() ==> task_ids(g).contains(#[trigger] g.deps@[kk].from@)
            && task_ids(g).contains(g.deps@[kk].to@),
    decreases g.deps@.len() - k,
{
    if k < g.deps@.len() {
        lemma_no_dep_problem(g, k + 1);
    }
}

/// The message of the first structural problem of `g` (everything but cycles).
pub open spec fn structural_problem(g: TaskGraph) -> Option<Seq<char>> {
    if g.tasks@.len() == 0 {
        Some("no tasks"@)
    } else if !task_ids(g).no_duplicates() {
        Some("duplicate task id"@)
    } else {
        dep_problem_from(g, 0)
    }
}

/// Index of the task with id `id`, if any.
fn find_task(tasks: &Vec<TaskSpec>, id: &String) -> (r: Option<usize>)
    ensures
        r matches Some(i) ==> i < tasks@.len() && tasks@[i as int].id@ == id@,
        r is None ==> forall|i: int| 0 <= i < tasks@.len() ==> tasks@[i].id@ != id@,
{
    let mut i: usize = 0;
    while i < tasks.len()
        invariant
            i <= tasks@.len(),
            forall|j: int| 0 <= j < i ==> tasks@[j].id@ != id@,
        decreases tasks@.len() - i,
    {
        if tasks[i].id == *id {
            return Some(i);
        }
        i += 1;
    }
    None
}

proof fn lemma_task_ids_contains(g: TaskGraph, id: Seq<char>)
    ensures
        task_ids(g).contains(id) <==> exists|i: int| 0 <= i < g.tasks@.len() && g.tasks@[i].id@ == id,
{
    if task_ids(g).contains(id) {
        let j = choose|j: int| 0 <= j < task_ids(g).len() && task_ids(g)[j] == id;
        assert(g.tasks@[j].id@ == id);
    }
    if exists|i: int| 0 <= i < g.tasks@.len() && g.tasks@[i].id@ == id {
        let i = choose|i: int| 0 <= i < g.tasks@.len() && g.tasks@[i].id@ == id;
        assert(task_ids(g)[i] == id);
    }
}

/// Whether the task ids are pairwise distinct.
fn ids_distinct(tasks: &Vec<TaskSpec>) -> (r: bool)
    ensures
        r == ids_of(tasks@).no_duplicates(),
{
    let ghost ids = ids_of(tasks@);
    let mut i: usize = 0;
    while i < tasks.len()
        invariant
            i <= tasks@.len(),
            ids == ids_of(tasks@),
            forall|a: int, b: int| 0 <= a < b < tasks@.len() && a < i ==> ids[a] != ids[b],
        decreases tasks@.len() - i,
    {
        let mut j: usize = i + 1;
        while j < tasks.len()
            invariant
                i < tasks@.len(),
                i + 1 <= j <= tasks@.len(),
                ids == ids_of(tasks@),
                forall|a: int, b: int| 0 <= a < b < tasks@.len() && a < i ==> ids[a] != ids[b],
                forall|b: int| i < b < j ==> ids[i as int] != ids[b],
            decreases tasks@.len() - j,
        {
            if tasks[i].id == tasks[j].id {
                assert(ids[i as int] == ids[j as int]);
                return false;
            }
            j += 1;
        }
        i += 1;
    }
    true
}

// ---------------------------------------------------------------------
// Depth-first cycle detection over an index adjacency list.
// ---------------------------------------------------------------------

spec fn adj_ok(adj: Seq<Vec<usize>>) -> bool {
    forall|i: int, t: int| 0 <= i < adj.len() && 0 <= t < adj[i]@.len() ==> #[trigger] adj[i]@[t] < adj.len()
}

spec fn seq_has(s: Seq<usize>, j: int) -> bool {
    exists|t: int| 0 <= t < s.len() && #[trigger] s[t] as int == j
}

spec fn edge_listed(from_idx: Seq<usize>, to_idx: Seq<usize>, a: int, upto: int, j: int) -> bool {
    exists|q: int| 0 <= q < upto && from_idx[q] as int == a && #[trigger] to_idx[q] as int == j
}

spec fn aedge(adj: Seq<Vec<usize>>, i: int, j: int) -> bool {
    0 <= i < adj.len() && seq_has(adj[i]@, j)
}

spec fn apath(adj: Seq<Vec<usize>>, p: Seq<int>) -> bool {
    &&& p.len() >= 1
    &&& forall|k: int| 0 <= k < p.len() ==> 0 <= #[trigger] p[k] < adj.len()
    &&& forall|k: int| 0 <= k < p.len() - 1 ==> aedge(adj, #[trigger] p[k], p[k + 1])
}

spec fn acycle_through(adj: Seq<Vec<usize>>, c: Seq<int>, m: int) -> bool {
    &&& c.len() >= 2
    &&& apath(adj, c)
    &&& c[0] == m
    &&& c.last() == m
}

/// Finished nodes are closed under edges and every edge out of a finished
/// node goes to a node finished strictly earlier (smaller rank).
spec fn finished_ok(adj: Seq<Vec<usize>>, visited: Seq<bool>, rank: Seq<int>, cnt: int) -> bool {
    &&& visited.len() == adj.len()
    &&& rank.len() == adj.len()
    &&& forall|i: int| 0 <= i < adj.len() && #[trigger] visited[i] ==> rank[i] < cnt
    &&& forall|i: int, t: int|
        0 <= i < adj.len() && visited[i] && 0 <= t < adj[i]@.len() ==> visited[#[trigger] adj[i]@[t] as int]
            && rank[adj[i]@[t] as int] < rank[i]
}

/// The nodes currently being explored are exactly the stack, which is a walk ending in an edge to `n`.
spec fn stack_ok(adj: Seq<Vec<usize>>, visiting: Seq<bool>, visited: Seq<bool>, stack: Seq<int>, n: int) -> bool {
    &&& visiting.len() == adj.len()
    &&& visited.len() == adj.len()
    &&& forall|i: int| 0 <= i < adj.len() ==> (#[trigger] visiting[i] <==> stack.contains(i))
    &&& forall|i: int| 0 <= i < adj.len() && #[trigger] visiting[i] ==> !visited[i]
    &&& apath(adj, stack.push(n))
}

spec fn white_count(visiting: Seq<bool>, visited: Seq<bool>, k: int) -> nat
    decreases k,
{
    if k <= 0 {
        0
    } else {
        white_count(visiting, visited, k - 1) + if !visiting[k - 1] && !visited[k - 1] { 1nat } else { 0nat }
    }
}

proof fn lemma_white_count_mono(a1: Seq<bool>, b1: Seq<bool>, a2: Seq<bool>, b2: Seq<bool>, k: int, j: int)
    requires
        0 <= k <= a1.len(),
        a1.len() == b1.len() && b1.len() == a2.len() && a2.len() == b2.len(),
        forall|i: int| 0 <= i < k && !a2[i] && !b2[i] ==> !a1[i] && !b1[i],
    ensures
        white_count(a2, b2, k) <= white_count(a1, b1, k),
        0 <= j < k && !a1[j] && !b1[j] && (a2[j] || b2[j]) ==> white_count(a2, b2, k) < white_count(a1, b1, k),
    decreases k,
{
    if k > 0 {
        lemma_white_count_mono(a1, b1, a2, b2, k - 1, j);
    }
}

proof fn lemma_path_push(adj: Seq<Vec<usize>>, p: Seq<int>, m: int)
    requires
        apath(adj, p),
        aedge(adj, p.last(), m),
        0 <= m < adj.len(),
    ensures
        apath(adj, p.push(m)),
{
    let q = p.push(m);
    assert forall|k: int| 0 <= k < q.len() - 1 implies aedge(adj, #[trigger] q[k], q[k + 1]) by {
        if k < p.len() - 1 {
            assert(q[k] == p[k] && q[k + 1] == p[k + 1]);
        } else {
            assert(q[k] == p.last());
        }
    }
}

proof fn lemma_path_suffix(adj: Seq<Vec<usize>>, p: Seq<int>, i: int)
    requires
        apath(adj, p),
        0 <= i < p.len(),
    ensures
        apath(adj, p.subrange(i, p.len() as int)),
{
    let q = p.subrange(i, p.len() as int);
    assert forall|k: int| 0 <= k < q.len() - 1 implies aedge(adj, #[trigger] q[k], q[k + 1]) by {
        assert(q[k] == p[k + i] && q[k + 1] == p[k + i + 1]);
    }
    assert forall|k: int| 0 <= k < q.len() implies 0 <= #[trigger] q[k] < adj.len() by {
        assert(q[k] == p[k + i]);
    }
}

/// Along a walk starting at a finished node, every later node is finished with a smaller rank.
proof fn lemma_rank_decreases(adj: Seq<Vec<usize>>, visited: Seq<bool>, rank: Seq<int>, cnt: int, p: Seq<int>, k: int)
    requires
        finished_ok(adj, visited, rank, cnt),
        apath(adj, p),
        visited[p[0]],
        1 <= k < p.len(),
    ensures
        visited[p[k]],
        rank[p[k]] < rank[p[0]],
    decreases k,
{
    assert(aedge(adj, p[k - 1], p[k]));
    let t = choose|t: int| 0 <= t < adj[p[k - 1]]@.len() && #[trigger] adj[p[k - 1]]@[t] as int == p[k];
    if k > 1 {
        lemma_rank_decreases(adj, visited, rank, cnt, p, k - 1);
    }
    assert(visited[adj[p[k - 1]]@[t] as int]);
}

fn dfs(
    n: usize,
    adj: &Vec<Vec<usize>>,
    visiting: &mut Vec<bool>,
    visited: &mut Vec<bool>,
    Ghost(stack): Ghost<Seq<int>>,
    Ghost(rank): Ghost<Seq<int>>,
    Ghost(cnt): Ghost<int>,
) -> (res: (Result<(), usize>, Ghost<Seq<int>>, Ghost<int>))
    requires
        adj_ok(adj@),
        n < adj@.len(),
        finished_ok(adj@, old(visited)@, rank, cnt),
        stack_ok(adj@, old(visiting)@, old(visited)@, stack, n as int),
    ensures
        final(visiting)@.len() == adj@.len(),
        final(visited)@.len() == adj@.len(),
        res.0 is Ok ==> {
            &&& final(visiting)@ == old(visiting)@
            &&& final(visited)@[n as int]
            &&& finished_ok(adj@, final(visited)@, res.1@, res.2@)
            &&& forall|i: int| 0 <= i < adj@.len() && old(visited)@[i] ==> #[trigger] final(visited)@[i]
            &&& forall|i: int| 0 <= i < adj@.len() && old(visiting)@[i] ==> !#[trigger] final(visited)@[i]
            &&& forall|i: int| 0 <= i < adj@.len() && old(visited)@[i] ==> #[trigger] res.1@[i] == rank[i]
            &&& res.2@ >= cnt
        },
        res.0 matches Err(m) ==> m < adj@.len() && exists|c: Seq<int>| acycle_through(adj@, c, m as int),
    decreases white_count(old(visiting)@, old(visited)@, adj@.len() as int),
{
    if visited[n] {
        return (Ok(()), Ghost(rank), Ghost(cnt));
    }
    if visiting[n] {
        proof {
            assert(stack.contains(n as int));
            let i = choose|i: int| 0 <= i < stack.len() && stack[i] == n as int;
            let sp = stack.push(n as int);
            lemma_path_suffix(adj@, sp, i);
            let c = sp.subrange(i, sp.len() as int);
            assert(c[0] == n as int);
            assert(c.last() == n as int);
            assert(acycle_through(adj@, c, n as int));
        }
        return (Err(n), Ghost(rank), Ghost(cnt));
    }
    let ghost vis0 = visiting@;
    let ghost done0 = visited@;
    visiting.set(n, true);
    proof {
        lemma_white_count_mono(vis0, done0, visiting@, visited@, adj@.len() as int, n as int);
    }
    let ghost new_stack = stack.push(n as int);
    let ghost mut rk = rank;
    let ghost mut ct = cnt;
    let row = &adj[n];
    let mut t: usize = 0;
    while t < row.len()
        invariant
            adj_ok(adj@),
            n < adj@.len(),
            row@ == adj@[n as int]@,
            t <= row@.len(),
            visiting@ == vis0.update(n as int, true),
            vis0 == old(visiting)@,
            done0 == old(visited)@,
            rank.len() == adj@.len(),
            visiting@.len() == adj@.len(),
            visited@.len() == adj@.len(),
            !visited@[n as int],
            finished_ok(adj@, visited@, rk, ct),
            ct >= cnt,
            forall|i: int| 0 <= i < adj@.len() && done0[i] ==> #[trigger] visited@[i],
            forall|i: int| 0 <= i < adj@.len() && done0[i] ==> #[trigger] rk[i] == rank[i],
            forall|i: int| 0 <= i < adj@.len() && visiting@[i] ==> !#[trigger] visited@[i],
            forall|tt: int| 0 <= tt < t ==> visited@[#[trigger] row@[tt] as int] && rk[row@[tt] as int] < ct,
            stack_ok(adj@, vis0, done0, stack, n as int),
            new_stack == stack.push(n as int),
            white_count(visiting@, visited@, adj@.len() as int) < white_count(vis0, done0, adj@.len() as int),
        decreases row@.len() - t,
    {
        let m = row[t];
        proof {
            assert(aedge(adj@, n as int, m as int));
            assert(new_stack.last() == n as int);
            lemma_path_push(adj@, new_stack, m as int);
            assert forall|i: int| 0 <= i < adj@.len() implies (#[trigger] visiting@[i] <==> new_stack.contains(i)) by {
                if i == n as int {
                    assert(new_stack[new_stack.len() - 1] == i);
                } else {
                    if stack.contains(i) {
                        let w = choose|w: int| 0 <= w < stack.len() && stack[w] == i;
                        assert(new_stack[w] == i);
                    }
                    if new_stack.contains(i) {
                        let w = choose|w: int| 0 <= w < new_stack.len() && new_stack[w] == i;
                        assert(stack[w] == i);
                    }
                }
            }
            assert(stack_ok(adj@, visiting@, visited@, new_stack, m as int));
        }
        let ghost vis1 = visiting@;
        let ghost done1 = visited@;
        let ghost rk1 = rk;
        let ghost ct1 = ct;
        let (r, Ghost(rk2), Ghost(ct2)) = dfs(m, adj, visiting, visited, Ghost(new_stack), Ghost(rk), Ghost(ct));
        match r {
            Err(x) => {
                return (Err(x), Ghost(rk2), Ghost(ct2));
            },
            Ok(()) => {},
        }
        proof {
            rk = rk2;
            ct = ct2;
            lemma_white_count_mono(vis1, done1, visiting@, visited@, adj@.len() as int, 0);
            assert forall|tt: int| 0 <= tt < t + 1 implies visited@[#[trigger] row@[tt] as int] && rk[row@[tt] as int] < ct by {
                if tt < t {
                    assert(done1[row@[tt] as int]);
                }
            }
        }
        t += 1;
    }
    let ghost vis2 = visiting@;
    let ghost done2 = visited@;
    visiting.set(n, false);
    visited.set(n, true);
    let ghost rk_final = rk.update(n as int, ct);
    let ghost ct_final = ct + 1;
    proof {
        assert(visiting@ =~= vis0);
        assert forall|i: int, tt: int|
            0 <= i < adj@.len() && visited@[i] && 0 <= tt < adj@[i]@.len() implies visited@[#[trigger] adj@[i]@[tt] as int]
                && rk_final[adj@[i]@[tt] as int] < rk_final[i] by {
            if i == n as int {
                assert(row@[tt] == adj@[i]@[tt]);
            } else {
                assert(done2[i]);
                assert(done2[adj@[i]@[tt] as int]);
            }
        }
    }
    (Ok(()), Ghost(rk_final), Ghost(ct_final))
}

/// Builds, for each task index, the indices of the tasks depending on it, in edge order.
fn build_adjacency(g: &TaskGraph) -> (adj: Vec<Vec<usize>>)
    requires
        task_ids(*g).no_duplicates(),
        deps_known(*g),
    ensures
        adj@.len() == g.tasks@.len(),
        adj_ok(adj@),
        forall|i: int, j: int| 0 <= i < g.tasks@.len() && 0 <= j < g.tasks@.len() ==> (aedge(adj@, i, j) <==> has_edge(*g, i, j)),
{
    let n = g.tasks.len();
    let mut from_idx: Vec<usize> = Vec::new();
    let mut to_idx: Vec<usize> = Vec::new();
    let mut k: usize = 0;
    while k < g.deps.len()
        invariant
            k <= g.deps@.len(),
            n == g.tasks@.len(),
            task_ids(*g).no_duplicates(),
            deps_known(*g),
            from_idx@.len() == k,
            to_idx@.len() == k,
            forall|kk: int| 0 <= kk < k ==> #[trigger] from_idx@[kk] < n && g.tasks@[from_idx@[kk] as int].id@ == g.deps@[kk].from@,
            forall|kk: int| 0 <= kk < k ==> #[trigger] to_idx@[kk] < n && g.tasks@[to_idx@[kk] as int].id@ == g.deps@[kk].to@,
        decreases g.deps@.len() - k,
    {
        proof {
            lemma_task_ids_contains(*g, g.deps@[k as int].from@);
            lemma_task_ids_contains(*g, g.deps@[k as int].to@);
        }
        let a = find_task(&g.tasks, &g.deps[k].from);
        let b = find_task(&g.tasks, &g.deps[k].to);
        match (a, b) {
            (Some(a), Some(b)) => {
                from_idx.push(a);
                to_idx.push(b);
            },
            _ => {
                proof { assert(false); }
                return Vec::new();
            },
        }
        k += 1;
    }
    let mut adj: Vec<Vec<usize>> = Vec::new();
    let mut i: usize = 0;
    while i < n
        invariant
            i <= n,
            n == g.tasks@.len(),
            from_idx@.len() == g.deps@.len(),
            to_idx@.len() == g.deps@.len(),
            forall|kk: int| 0 <= kk < g.deps@.len() ==> #[trigger] from_idx@[kk] < n && g.tasks@[from_idx@[kk] as int].id@ == g.deps@[kk].from@,
            forall|kk: int| 0 <= kk < g.deps@.len() ==> #[trigger] to_idx@[kk] < n && g.tasks@[to_idx@[kk] as int].id@ == g.deps@[kk].to@,
            adj@.len() == i,
            forall|a: int, t: int| 0 <= a < i && 0 <= t < adj@[a]@.len() ==> #[trigger] adj@[a]@[t] < n,
            forall|a: int, j: int| 0 <= a < i ==> (#[trigger] seq_has(adj@[a]@, j)
                <==> edge_listed(from_idx@, to_idx@, a, g.deps@.len() as int, j)),
        decreases n - i,
    {
        let mut row: Vec<usize> = Vec::new();
        let mut kk: usize = 0;
        while kk < g.deps.len()
            invariant
                kk <= g.deps@.len(),
                i < n,
                from_idx@.len() == g.deps@.len(),
                to_idx@.len() == g.deps@.len(),
                forall|q: int| 0 <= q < g.deps@.len() ==> #[trigger] to_idx@[q] < n,
                forall|t: int| 0 <= t < row@.len() ==> #[trigger] row@[t] < n,
                forall|j: int| #![trigger seq_has(row@, j)] #![trigger edge_listed(from_idx@, to_idx@, i as int, kk as int, j)]
                    seq_has(row@, j) <==> edge_listed(from_idx@, to_idx@, i as int, kk as int, j),
            decreases g.deps@.len() - kk,
        {
            let ghost old_row = row@;
            if from_idx[kk] == i {
                row.push(to_idx[kk]);
                proof {
                    assert forall|j: int| #![trigger seq_has(row@, j)] #![trigger edge_listed(from_idx@, to_idx@, i as int, kk + 1, j)]
                        seq_has(row@, j) <==> edge_listed(from_idx@, to_idx@, i as int, kk + 1, j) by {
                        if seq_has(row@, j) {
                            let t = choose|t: int| 0 <= t < row@.len() && #[trigger] row@[t] as int == j;
                            if t < old_row.len() {
                                assert(old_row[t] as int == j);
                                assert(seq_has(old_row, j));
                            } else {
                                assert(to_idx@[kk as int] as int == j);
                            }
                        }
                        if edge_listed(from_idx@, to_idx@, i as int, kk + 1, j) {
                            let q = choose|q: int| 0 <= q < kk + 1 && from_idx@[q] as int == i && #[trigger] to_idx@[q] as int == j;
                            if q < kk {
                                assert(edge_listed(from_idx@, to_idx@, i as int, kk as int, j));
                                let t = choose|t: int| 0 <= t < old_row.len() && #[trigger] old_row[t] as int == j;
                                assert(row@[t] as int == j);
                            } else {
                                assert(row@[old_row.len() as int] as int == j);
                            }
                        }
                    }
                }
            } else {
                proof {
                    assert forall|j: int| #![trigger seq_has(row@, j)] #![trigger edge_listed(from_idx@, to_idx@, i as int, kk + 1, j)]
                        seq_has(row@, j) <==> edge_listed(from_idx@, to_idx@, i as int, kk + 1, j) by {
                        if edge_listed(from_idx@, to_idx@, i as int, kk + 1, j) {
                            let q = choose|q: int| 0 <= q < kk + 1 && from_idx@[q] as int == i && #[trigger] to_idx@[q] as int == j;
                            assert(q < kk);
                            assert(edge_listed(from_idx@, to_idx@, i as int, kk as int, j));
                        }
                    }
                }
            }
            kk += 1;
        }
        adj.push(row);
        proof {
            assert forall|a: int, j: int| 0 <= a < i + 1 implies (#[trigger] seq_has(adj@[a]@, j)
                <==> edge_listed(from_idx@, to_idx@, a, g.deps@.len() as int, j)) by {
                if a == i as int {
                    assert(adj@[a]@ == row@);
                }
            }
        }
        i += 1;
    }
    proof {
        assert forall|i: int, j: int| 0 <= i < g.tasks@.len() && 0 <= j < g.tasks@.len() implies (aedge(adj@, i, j) <==> has_edge(*g, i, j)) by {
            if aedge(adj@, i, j) {
                assert(seq_has(adj@[i]@, j));
                assert(edge_listed(from_idx@, to_idx@, i, g.deps@.len() as int, j));
                let q = choose|q: int| 0 <= q < g.deps@.len() && from_idx@[q] as int == i && #[trigger] to_idx@[q] as int == j;
                assert(g.deps@[q].from@ == g.tasks@[i].id@);
            }
            if has_edge(*g, i, j) {
                let q = choose|q: int| 0 <= q < g.deps@.len() && #[trigger] g.deps@[q].from@ == g.tasks@[i].id@
                    && g.deps@[q].to@ == g.tasks@[j].id@;
                let a = from_idx@[q] as int;
                let b = to_idx@[q] as int;
                assert(task_ids(*g)[a] == task_ids(*g)[i]);
                assert(task_ids(*g)[b] == task_ids(*g)[j]);
                assert(a == i);
                assert(b == j);
                assert(edge_listed(from_idx@, to_idx@, i, g.deps@.len() as int, j));
                assert(seq_has(adj@[i]@, j));
            }
        }
    }
    adj
}

proof fn lemma_paths_agree(g: TaskGraph, adj: Seq<Vec<usize>>, p: Seq<int>)
    requires
        adj.len() == g.tasks@.len(),
        forall|i: int, j: int| 0 <= i < g.tasks@.len() && 0 <= j < g.tasks@.len() ==> (aedge(adj, i, j) <==> has_edge(g, i, j)),
    ensures
        apath(adj, p) <==> is_task_path(g, p),
{
    if apath(adj, p) {
        assert forall|k: int| 0 <= k < p.len() - 1 implies has_edge(g, #[trigger] p[k], p[k + 1]) by {
            assert(aedge(adj, p[k], p[k + 1]));
            assert(0 <= p[k + 1] < adj.len());
        }
    }
    if is_task_path(g, p) {
        assert forall|k: int| 0 <= k < p.len() - 1 implies aedge(adj, #[trigger] p[k], p[k + 1]) by {
            assert(has_edge(g, p[k], p[k + 1]));
            assert(0 <= p[k + 1] < adj.len());
        }
    }
}

/// Depth-first search over all tasks in order; reports the first task found
/// to be revisited while still on the search stack. A self edge is a cycle.
fn detect_cycle(g: &TaskGraph) -> (r: Result<(), CoreError>)
    requires
        task_ids(*g).no_duplicates(),
        deps_known(*g),
    ensures
        r is Ok <==> !has_cycle(*g),
        r matches Err(e) ==> exists|m: int| {
            &&& 0 <= m < g.tasks@.len()
            &&& e == CoreError::InvalidGraph(e->InvalidGraph_0)
            &&& e->InvalidGraph_0@ == "cycle at "@ + g.tasks@[m].id@
            &&& exists|c: Seq<int>| is_task_cycle_through(*g, c, m)
        },
{
    let adj = build_adjacency(g);
    let n = g.tasks.len();
    let mut visiting: Vec<bool> = vec![false; n];
    let mut visited: Vec<bool> = vec![false; n];
    let ghost mut rank: Seq<int> = Seq::new(n as nat, |i: int| 0);
    let ghost mut cnt: int = 0;
    let mut i: usize = 0;
    while i < n
        invariant
            n == g.tasks@.len(),
            adj@.len() == n,
            adj_ok(adj@),
            forall|a: int, b: int| 0 <= a < n && 0 <= b < n ==> (aedge(adj@, a, b) <==> has_edge(*g, a, b)),
            i <= n,
            visiting@ == Seq::new(n as nat, |k: int| false),
            visited@.len() == n,
            finished_ok(adj@, visited@, rank, cnt),
            forall|k: int| 0 <= k < i ==> #[trigger] visited@[k],
        decreases n - i,
    {
        proof {
            let empty = Seq::<int>::empty();
            assert(empty.push(i as int) =~= seq![i as int]);
            assert(apath(adj@, empty.push(i as int)));
            assert(stack_ok(adj@, visiting@, visited@, empty, i as int));
        }
        let ghost done0 = visited@;
        let (r, Ghost(rk), Ghost(ct)) = dfs(i, &adj, &mut visiting, &mut visited, Ghost(Seq::empty()), Ghost(rank), Ghost(cnt));
        match r {
            Err(m) => {
                let msg = join2("cycle at ", g.tasks[m].id.as_str());
                proof {
                    let c = choose|c: Seq<int>| acycle_through(adj@, c, m as int);
                    lemma_paths_agree(*g, adj@, c);
                    assert(is_task_cycle_through(*g, c, m as int));
                    assert(has_cycle(*g));
                }
                return Err(CoreError::InvalidGraph(msg));
            },
            Ok(()) => {},
        }
        proof {
            rank = rk;
            cnt = ct;
            assert forall|k: int| 0 <= k < i + 1 implies #[trigger] visited@[k] by {
                if k < i {
                    assert(done0[k]);
                }
            }
        }
        i += 1;
    }
    proof {
        if has_cycle(*g) {
            let (c, m) = choose|c: Seq<int>, m: int| is_task_cycle_through(*g, c, m);
            lemma_paths_agree(*g, adj@, c);
            lemma_rank_decreases(adj@, visited@, rank, cnt, c, c.len() - 1);
            assert(false);
        }
    }
    Ok(())
}

/// A graph that validation accepts.
pub open spec fn graph_valid(g: TaskGraph) -> bool {
    structural_problem(g) is None && !has_cycle(g)
}

/// `e` is an error validation may give for `g`: the first structural
/// problem, or else a cycle through some task.
pub open spec fn is_validation_error(g: TaskGraph, e: CoreError) -> bool {
    match structural_problem(g) {
        Some(m) => e matches CoreError::InvalidGraph(msg) && msg@ == m,
        None => exists|m: int| {
            &&& 0 <= m < g.tasks@.len()
            &&& e == CoreError::InvalidGraph(e->InvalidGraph_0)
            &&& e->InvalidGraph_0@ == "cycle at "@ + g.tasks@[m].id@
            &&& exists|c: Seq<int>| is_task_cycle_through(g, c, m)
        },
    }
}

/// Checks a task graph: at least one task, distinct task ids, every
/// dependency endpoint a known task, no self edge, and no cycle.
pub fn validate_graph(graph: &TaskGraph) -> (r: Result<(), CoreError>)
    ensures
        structural_problem(*graph) matches Some(m) ==> r matches Err(CoreError::InvalidGraph(msg)) && msg@ == m,
        structural_problem(*graph) is None ==> (r is Ok <==> !has_cycle(*graph)),
        structural_problem(*graph) is None ==> (r matches Err(e) ==> exists|m: int| {
            &&& 0 <= m < graph.tasks@.len()
            &&& e == CoreError::InvalidGraph(e->InvalidGraph_0)
            &&& e->InvalidGraph_0@ == "cycle at "@ + graph.tasks@[m].id@
            &&& exists|c: Seq<int>| is_task_cycle_through(*graph, c, m)
        }),
        r is Ok <==> graph_valid(*graph),
        r matches Err(e) ==> is_validation_error(*graph, e),
{
    if graph.tasks.len() == 0 {
        return Err(CoreError::InvalidGraph("no tasks".to_owned()));
    }
    if !ids_distinct(&graph.tasks) {
        return Err(CoreError::InvalidGraph("duplicate task id".to_owned()));
    }
    let mut k: usize = 0;
    while k < graph.deps.len()
        invariant
            k <= graph.deps@.len(),
            graph.tasks@.len() > 0,
            task_ids(*graph).no_duplicates(),
            dep_problem_from(*graph, 0) == dep_problem_from(*graph, k as int),
        decreases graph.deps@.len() - k,
    {
        let d = &graph.deps[k];
        proof {
            lemma_task_ids_contains(*graph, d.from@);
            lemma_task_ids_contains(*graph, d.to@);
        }
        if find_task(&graph.tasks, &d.from).is_none() {
            return Err(CoreError::InvalidGraph(join2("dep.from unknown: ", d.from.as_str())));
        }
        if find_task(&graph.tasks, &d.to).is_none() {
            return Err(CoreError::InvalidGraph(join2("dep.to unknown: ", d.to.as_str())));
        }
        if d.from == d.to {
            return Err(CoreError::InvalidGraph("self-dep".to_owned()));
        }
        k += 1;
    }
    proof { lemma_no_dep_problem(*graph, 0); }
    detect_cycle(graph)
}

/// The demo task graph: task `A` fixes `add` and produces the fixed
/// library; task `B` depends on it and adds tests.
pub const DEMO_TWO_TASK_YAML: &'static str = "\nname: fix-and-test\ntasks:\n  - id: A\n    title: Fix add function\n    prompt: |\n      Fix src/lib.rs so add(2,2) returns 4 (use a+b).\n      Produce the fixed file as artifact fixed_lib.\n    gate_command: \"cargo test --manifest-path Cargo.toml add_works\"\n    produces:\n      - id: fixed_lib\n        path: src/lib.rs\n        description: Fixed library source\n  - id: B\n    title: Write more tests\n    prompt: |\n      Add tests/extra.rs covering add(0,0) and add(-1,1).\n      Upstream fixed_lib must already be present in this worktree.\n    gate_command: \"test -f tests/extra.rs && cargo test --manifest-path Cargo.toml\"\n    produces:\n      - id: extra_tests\n        path: tests/extra.rs\ndeps:\n  - from: A\n    to: B\n    artifacts:\n      - id: fixed_lib\n        path: src/lib.rs\n";

/// The demo task graph's YAML text.
pub fn demo_two_task_yaml() -> (r: &'static str)
    ensures
        r@ == DEMO_TWO_TASK_YAML@,
{
    DEMO_TWO_TASK_YAML
}

} // verus!
