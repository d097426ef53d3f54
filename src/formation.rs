use vstd::prelude::*;

use crate::game::{Direction, CANVAS_LEFT_EDGE, CANVAS_RIGHT_EDGE};
use crate::invader::Invader;

verus! {

/// The invader has reached the edge it is heading for.
pub open spec fn at_edge(v: Invader) -> bool {
    ||| (v.game_object.rect.x >= CANVAS_RIGHT_EDGE && v.dir == Direction::Right)
    ||| (v.game_object.rect.x <= CANVAS_LEFT_EDGE && v.dir == Direction::Left)
}

pub open spec fn edge_reached(invs: Seq<Invader>) -> bool {
    exists|i: int| 0 <= i < invs.len() && at_edge(#[trigger] invs[i])
}

/// Index of the first invader at or after `i` that has reached its edge, or
/// -1.
pub open spec fn first_edge_from(invs: Seq<Invader>, i: int) -> int
    decreases invs.len() - i,
{
    if i < 0 || i >= invs.len() {
        -1
    } else if at_edge(invs[i]) {
        i
    } else {
        first_edge_from(invs, i + 1)
    }
}

pub open spec fn first_edge(invs: Seq<Invader>) -> int {
    first_edge_from(invs, 0)
}

proof fn first_edge_facts(invs: Seq<Invader>, i: int)
    requires
        0 <= i,
    ensures
        first_edge_from(invs, i) == -1 ==> forall|j: int| i <= j < invs.len() ==> !at_edge(#[trigger] invs[j]),
        first_edge_from(invs, i) != -1 ==> i <= first_edge_from(invs, i) < invs.len() && at_edge(
            invs[first_edge_from(invs, i)],
        ),
    decreases invs.len() - i,
{
    if i < invs.len() {
        first_edge_facts(invs, i + 1);
    }
}

/// `q` with the row of each invader pushed, in list order, unless already
/// present.
pub open spec fn rows_enqueued(invs: Seq<Invader>, q: Seq<u32>) -> Seq<u32>
    decreases invs.len(),
{
    if invs.len() == 0 {
        q
    } else {
        rows_enqueued(
            invs.subrange(1, invs.len() as int),
            if q.contains(invs[0].row) {
                q
            } else {
                q.push(invs[0].row)
            },
        )
    }
}

/// The row queued first when an edge is reached: that of the first invader
/// at its edge.
pub open spec fn edge_row(invs: Seq<Invader>) -> u32 {
    invs[first_edge(invs)].row
}

/// Rows owing a descent once this step's edge check is done. The check only
/// runs when no descent is pending; when it finds an invader at its edge,
/// that invader's row is queued first, then every other row once, in list
/// order.
pub open spec fn pending_rows(invs: Seq<Invader>, q: Seq<u32>) -> Seq<u32> {
    if q.len() == 0 && edge_reached(invs) {
        rows_enqueued(invs, seq![edge_row(invs)])
    } else {
        q
    }
}

impl Invader {
    /// One descent step, which also turns the invader around.
    pub open spec fn descended(self) -> Invader {
        Invader {
            dir: self.dir.flipped(),
            ..self.placed(self.game_object.rect.x as int, self.descended_y(), 1)
        }
    }
}

pub open spec fn descend_row(invs: Seq<Invader>, row: u32) -> Seq<Invader> {
    invs.map_values(|v: Invader| if v.row == row { v.descended() } else { v })
}

/// The formation after one interval step: with a descent pending, the row
/// at the front of the queue descends and nothing else moves; otherwise
/// every invader steps sideways.
pub open spec fn formation_after(invs: Seq<Invader>, q: Seq<u32>) -> Seq<Invader> {
    let p = pending_rows(invs, q);
    if p.len() == 0 {
        invs.map_values(|v: Invader| v.stepped())
    } else {
        descend_row(invs, p[0])
    }
}

pub open spec fn rows_after(invs: Seq<Invader>, q: Seq<u32>) -> Seq<u32> {
    let p = pending_rows(invs, q);
    if p.len() == 0 {
        p
    } else {
        p.subrange(1, p.len() as int)
    }
}

proof fn rows_enqueued_nonempty(invs: Seq<Invader>, q: Seq<u32>)
    ensures
        rows_enqueued(invs, q).len() >= q.len(),
        invs.len() > 0 ==> rows_enqueued(invs, q).len() > 0,
    decreases invs.len(),
{
    if invs.len() > 0 {
        let q1 = if q.contains(invs[0].row) {
            q
        } else {
            q.push(invs[0].row)
        };
        rows_enqueued_nonempty(invs.subrange(1, invs.len() as int), q1);
        if q.contains(invs[0].row) {
            assert(q.len() > 0);
        }
    }
}

/// `invs` after the rows in `rows` have each taken one descent step, in
/// order.
pub open spec fn descend_rows(invs: Seq<Invader>, rows: Seq<u32>) -> Seq<Invader>
    decreases rows.len(),
{
    if rows.len() == 0 {
        invs
    } else {
        descend_row(descend_rows(invs, rows.drop_last()), rows.last())
    }
}

/// `n` interval steps of the formation and its queue.
pub open spec fn formation_steps(invs: Seq<Invader>, q: Seq<u32>, n: nat) -> (Seq<Invader>, Seq<u32>)
    decreases n,
{
    if n == 0 {
        (invs, q)
    } else {
        let (a, b) = formation_steps(invs, q, (n - 1) as nat);
        (formation_after(a, b), rows_after(a, b))
    }
}

proof fn rows_enqueued_prefix(invs: Seq<Invader>, q: Seq<u32>)
    ensures
        rows_enqueued(invs, q).len() >= q.len(),
        forall|i: int| 0 <= i < q.len() ==> #[trigger] rows_enqueued(invs, q)[i] == q[i],
    decreases invs.len(),
{
    if invs.len() > 0 {
        let q1 = if q.contains(invs[0].row) {
            q
        } else {
            q.push(invs[0].row)
        };
        rows_enqueued_prefix(invs.subrange(1, invs.len() as int), q1);
        assert forall|i: int| 0 <= i < q.len() implies #[trigger] rows_enqueued(invs, q)[i] == q[i] by {
            assert(q1[i] == q[i]);
        }
    }
}

pub open spec fn no_repeats(q: Seq<u32>) -> bool {
    forall|i: int, j: int| 0 <= i < j < q.len() ==> q[i] != q[j]
}

/// Some invader stands in row `x`.
pub open spec fn has_row(invs: Seq<Invader>, x: u32) -> bool {
    exists|i: int| 0 <= i < invs.len() && (#[trigger] invs[i]).row == x
}

proof fn rows_enqueued_rows(invs: Seq<Invader>, q: Seq<u32>)
    ensures
        forall|x: u32|
            #[trigger] rows_enqueued(invs, q).contains(x) <==> (q.contains(x) || has_row(invs, x)),
        no_repeats(q) ==> no_repeats(rows_enqueued(invs, q)),
    decreases invs.len(),
{
    if invs.len() > 0 {
        let rest = invs.subrange(1, invs.len() as int);
        let q1 = if q.contains(invs[0].row) {
            q
        } else {
            q.push(invs[0].row)
        };
        rows_enqueued_rows(rest, q1);
        assert forall|x: u32| q1.contains(x) <==> (q.contains(x) || x == invs[0].row) by {
            if q1.contains(x) && !q.contains(x) {
                let k = choose|k: int| 0 <= k < q1.len() && q1[k] == x;
                assert(k == q.len());
            }
            if x == invs[0].row && !q.contains(x) {
                assert(q1[q.len() as int] == x);
            }
            if q.contains(x) {
                let k = choose|k: int| 0 <= k < q.len() && q[k] == x;
                assert(q1[k] == x);
            }
        }
        assert forall|x: u32| #[trigger] has_row(invs, x) <==> (x == invs[0].row || has_row(rest, x)) by {
            if has_row(invs, x) {
                let i = choose|i: int| 0 <= i < invs.len() && (#[trigger] invs[i]).row == x;
                if i > 0 {
                    assert(rest[i - 1].row == x);
                }
            }
            if has_row(rest, x) {
                let i = choose|i: int| 0 <= i < rest.len() && (#[trigger] rest[i]).row == x;
                assert(invs[i + 1].row == x);
            }
            if x == invs[0].row {
                assert(invs[0].row == x);
            }
        }
        assert(rows_enqueued(invs, q) == rows_enqueued(rest, q1));
        assert forall|x: u32|
            #[trigger] rows_enqueued(invs, q).contains(x) <==> (q.contains(x) || has_row(invs, x)) by {
            assert(q1.contains(x) <==> (q.contains(x) || x == invs[0].row));
            assert(has_row(invs, x) <==> (x == invs[0].row || has_row(rest, x)));
            assert(rows_enqueued(rest, q1).contains(x) <==> (q1.contains(x) || has_row(rest, x)));
        }
        if no_repeats(q) && !q.contains(invs[0].row) {
            assert forall|i: int, j: int| 0 <= i < j < q1.len() implies q1[i] != q1[j] by {
                if j == q.len() {
                    assert(q[i] == q1[i]);
                }
            }
        }
    }
}

/// Formation descent. Once an invader reaches its edge with no descent
/// pending, the next interval step lowers that invader's row (the first such
/// invader's, if several) and queues every other row of the formation once.
/// While rows are queued, each interval step lowers exactly the row at the
/// front of the queue and moves no invader sideways, so after as many steps
/// as rows were queued every queued row has descended once, in queue order,
/// and sideways movement can resume.
pub proof fn formation_descends_in_order(invs: Seq<Invader>, q: Seq<u32>, n: nat)
    requires
        n <= q.len(),
    ensures
        formation_steps(invs, q, n) == (descend_rows(invs, q.subrange(0, n as int)), q.subrange(
            n as int,
            q.len() as int,
        )),
        q.len() == 0 && edge_reached(invs) ==> {
            let e = first_edge(invs);
            let rest = rows_after(invs, q);
            &&& 0 <= e < invs.len()
            &&& at_edge(invs[e])
            &&& forall|j: int| 0 <= j < e ==> !at_edge(#[trigger] invs[j])
            &&& formation_after(invs, q) == descend_row(invs, invs[e].row)
            &&& no_repeats(rest)
            &&& !rest.contains(invs[e].row)
            &&& forall|i: int| 0 <= i < invs.len() && (#[trigger] invs[i]).row != invs[e].row ==> rest.contains(
                invs[i].row,
            )
            &&& forall|x: u32| #[trigger] rest.contains(x) ==> has_row(invs, x)
        },
    decreases n,
{
    if n > 0 {
        formation_descends_in_order(invs, q, (n - 1) as nat);
        let rest = q.subrange(n - 1, q.len() as int);
        assert(rest.len() > 0);
        assert(pending_rows(descend_rows(invs, q.subrange(0, n - 1)), rest) == rest);
        assert(q.subrange(0, n as int).drop_last() =~= q.subrange(0, n - 1));
        assert(q.subrange(0, n as int).last() == rest[0]);
        assert(rest.subrange(1, rest.len() as int) =~= q.subrange(n as int, q.len() as int));
    } else {
        assert(q.subrange(0, 0) =~= Seq::<u32>::empty());
        assert(q.subrange(0, q.len() as int) =~= q);
    }
    if q.len() == 0 && edge_reached(invs) {
        first_edge_facts(invs, 0);
        let e = first_edge(invs);
        if e == -1 {
            let j = choose|j: int| 0 <= j < invs.len() && at_edge(#[trigger] invs[j]);
            assert(!at_edge(invs[j]));
        }
        assert forall|j: int| 0 <= j < e implies !at_edge(#[trigger] invs[j]) by {
            first_edge_before(invs, 0, j);
        }
        let r = invs[e].row;
        let q1 = seq![r];
        let p = rows_enqueued(invs, q1);
        rows_enqueued_prefix(invs, q1);
        rows_enqueued_rows(invs, q1);
        assert(p[0] == r);
        let rest = p.subrange(1, p.len() as int);
        assert(rows_after(invs, q) == rest);
        assert forall|a: int, b: int| 0 <= a < b < rest.len() implies rest[a] != rest[b] by {
            assert(rest[a] == p[a + 1]);
            assert(rest[b] == p[b + 1]);
        }
        if rest.contains(r) {
            let k = choose|k: int| 0 <= k < rest.len() && rest[k] == r;
            assert(p[k + 1] == p[0]);
        }
        assert forall|i: int| 0 <= i < invs.len() && (#[trigger] invs[i]).row != r implies rest.contains(
            invs[i].row,
        ) by {
            assert(has_row(invs, invs[i].row));
            assert(p.contains(invs[i].row));
            let k = choose|k: int| 0 <= k < p.len() && p[k] == invs[i].row;
            assert(k != 0);
            assert(rest[k - 1] == invs[i].row);
        }
        assert forall|x: u32| #[trigger] rest.contains(x) implies has_row(invs, x) by {
            let k = choose|k: int| 0 <= k < rest.len() && rest[k] == x;
            assert(p[k + 1] == x);
            assert(p.contains(x));
            if q1.contains(x) {
                let m = choose|m: int| 0 <= m < q1.len() && q1[m] == x;
                assert(x == r);
                assert(p[0] == p[k + 1]);
            }
        }
    }
}

proof fn first_edge_before(invs: Seq<Invader>, i: int, j: int)
    requires
        0 <= i <= j,
        first_edge_from(invs, i) == -1 || j < first_edge_from(invs, i),
        j < invs.len(),
    ensures
        !at_edge(invs[j]),
    decreases j - i,
{
    if i < j {
        first_edge_before(invs, i + 1, j);
    }
}

fn contains_row(rows: &Vec<u32>, row: u32) -> (r: bool)
    ensures
        r == rows@.contains(row),
{
    let mut i: usize = 0;
    while i < rows.len()
        invariant
            i <= rows@.len(),
            forall|j: int| 0 <= j < i ==> rows@[j] != row,
        decreases rows@.len() - i,
    {
        if rows[i] == row {
            assert(rows@[i as int] == row);
            return true;
        }
        i = i + 1;
    }
    false
}

fn is_at_edge(v: &Invader) -> (r: bool)
    ensures
        r == at_edge(*v),
{
    (v.game_object.rect.x >= CANVAS_RIGHT_EDGE && v.dir == Direction::Right) || (
    v.game_object.rect.x <= CANVAS_LEFT_EDGE && v.dir == Direction::Left)
}

/// One interval step of the formation: the edge check, the queueing of
/// rows, then either one row's descent or a sideways step for everyone.
pub fn advance_formation(invaders: &mut Vec<Invader>, move_rows_down: &mut Vec<u32>)
    requires
        forall|i: int| 0 <= i < old(invaders)@.len() ==> (#[trigger] old(invaders)@[i]).is_in_bounds(),
    ensures
        final(invaders)@ == formation_after(old(invaders)@, old(move_rows_down)@),
        final(move_rows_down)@ == rows_after(old(invaders)@, old(move_rows_down)@),
        forall|i: int| 0 <= i < final(invaders)@.len() ==> (#[trigger] final(invaders)@[i]).is_in_bounds(),
{
    let ghost invs = invaders@;
    let ghost q0 = move_rows_down@;
    let n = invaders.len();

    let mut edge: Option<usize> = None;
    if move_rows_down.len() == 0 {
        let mut i: usize = 0;
        while i < n && edge.is_none()
            invariant
                i <= n,
                n == invs.len(),
                invs == invaders@,
                edge.is_none() ==> first_edge(invs) == first_edge_from(invs, i as int),
                edge.is_some() ==> edge.unwrap() == first_edge(invs) && edge.unwrap() < n,
            decreases n - i,
        {
            if is_at_edge(&invaders[i]) {
                edge = Some(i);
            }
            i = i + 1;
        }
    }
    proof {
        first_edge_facts(invs, 0);
        if q0.len() == 0 && edge.is_none() {
            first_edge_facts(invs, n as int);
            assert(first_edge(invs) == -1);
        }
        if edge_reached(invs) && first_edge(invs) == -1 {
            let j = choose|j: int| 0 <= j < invs.len() && at_edge(#[trigger] invs[j]);
            assert(!at_edge(invs[j]));
        }
    }
    assert(edge.is_some() == (q0.len() == 0 && edge_reached(invs)));

    if let Some(e) = edge {
        move_rows_down.push(invaders[e].row);
        let ghost start = move_rows_down@;
        assert(start =~= seq![edge_row(invs)]);
        proof {
            assert(invs.subrange(0, n as int) =~= invs);
        }
        let mut i: usize = 0;
        while i < n
            invariant
                i <= n,
                n == invs.len(),
                invs == invaders@,
                rows_enqueued(invs.subrange(i as int, n as int), move_rows_down@) == rows_enqueued(invs, start),
                start == seq![edge_row(invs)],
            decreases n - i,
        {
            let row = invaders[i].row;
            let ghost before = move_rows_down@;
            proof {
                let s = invs.subrange(i as int, n as int);
                assert(s.subrange(1, s.len() as int) =~= invs.subrange(i + 1, n as int));
                assert(s[0] == invs[i as int]);
            }
            if !contains_row(&move_rows_down, row) {
                move_rows_down.push(row);
            }
            i = i + 1;
        }
        proof {
            assert(invs.subrange(n as int, n as int) =~= seq![]);
        }
    }
    assert(move_rows_down@ == pending_rows(invs, q0));

    if move_rows_down.len() == 0 {
        proof {
            if q0.len() == 0 && edge_reached(invs) {
                rows_enqueued_nonempty(invs, seq![edge_row(invs)]);
            }
        }
        assert(!edge_reached(invs));
        let mut i: usize = 0;
        while i < n
            invariant
                i <= n,
                n == invs.len(),
                invaders@.len() == n,
                !edge_reached(invs),
                forall|j: int| 0 <= j < n ==> (#[trigger] invs[j]).is_in_bounds(),
                forall|j: int| 0 <= j < i ==> #[trigger] invaders@[j] == invs[j].stepped(),
                forall|j: int| i <= j < n ==> #[trigger] invaders@[j] == invs[j],
            decreases n - i,
        {
            assert(!at_edge(invs[i as int]));
            if invaders[i].dir == Direction::Right {
                invaders[i].move_x_right();
            } else {
                invaders[i].move_x_left();
            }
            i = i + 1;
        }
        proof {
            assert(invaders@ =~= invs.map_values(|v: Invader| v.stepped()));
            assert forall|j: int| 0 <= j < n implies (#[trigger] invaders@[j]).is_in_bounds() by {
                assert(!at_edge(invs[j]));
            }
        }
    } else {
        let front = move_rows_down[0];
        let mut i: usize = 0;
        while i < n
            invariant
                i <= n,
                n == invs.len(),
                invaders@.len() == n,
                forall|j: int| 0 <= j < i ==> #[trigger] invaders@[j] == (if invs[j].row == front {
                    invs[j].descended()
                } else {
                    invs[j]
                }),
                forall|j: int| i <= j < n ==> #[trigger] invaders@[j] == invs[j],
            decreases n - i,
        {
            if invaders[i].row == front {
                invaders[i].move_down();
                invaders[i].dir = if invaders[i].dir == Direction::Right {
                    Direction::Left
                } else {
                    Direction::Right
                };
            }
            i = i + 1;
        }
        move_rows_down.remove(0);
        proof {
            assert(invaders@ =~= descend_row(invs, front));
            assert(move_rows_down@ =~= pending_rows(invs, q0).subrange(1, pending_rows(invs, q0).len() as int));
        }
    }
}

} // verus!
