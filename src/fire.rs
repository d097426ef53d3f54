use vstd::prelude::*;

use crate::game::{Game, ROW_SIZE};
use crate::invader::Invader;
use crate::random::random_below;

verus! {

/// Index of the last of the first `n` invaders that stands in column `col`,
/// or -1 when none does.
pub open spec fn last_in_column(invs: Seq<Invader>, col: int, n: int) -> int
    decreases n,
{
    if n <= 0 {
        -1
    } else if invs[n - 1].column == col {
        n - 1
    } else {
        last_in_column(invs, col, n - 1)
    }
}

/// For each occupied column from `col` on, in column order, the index of its
/// frontmost invader (the last one listed, which stands lowest).
pub open spec fn frontline_from(invs: Seq<Invader>, col: int) -> Seq<int>
    decreases ROW_SIZE - col,
{
    if col >= ROW_SIZE {
        seq![]
    } else {
        let l = last_in_column(invs, col, invs.len() as int);
        (if l >= 0 {
            seq![l]
        } else {
            seq![]
        }) + frontline_from(invs, col + 1)
    }
}

/// The invaders allowed to fire: the front one of each occupied column.
pub open spec fn frontline(invs: Seq<Invader>) -> Seq<int> {
    frontline_from(invs, 0)
}

/// Some invader stands in column `col`.
pub open spec fn has_column(invs: Seq<Invader>, col: int) -> bool {
    exists|i: int| 0 <= i < invs.len() && (#[trigger] invs[i]).column == col
}

/// How many of the columns from `col` on hold an invader.
pub open spec fn occupied_from(invs: Seq<Invader>, col: int) -> int
    decreases ROW_SIZE - col,
{
    if col >= ROW_SIZE {
        0
    } else {
        (if has_column(invs, col) {
            1int
        } else {
            0int
        }) + occupied_from(invs, col + 1)
    }
}

/// How many columns of the formation hold an invader.
pub open spec fn occupied_columns(invs: Seq<Invader>) -> int {
    occupied_from(invs, 0)
}

proof fn last_in_column_found(invs: Seq<Invader>, col: int, n: int)
    requires
        0 <= n <= invs.len(),
    ensures
        last_in_column(invs, col, n) >= 0 <==> exists|i: int| 0 <= i < n && (#[trigger] invs[i]).column == col,
    decreases n,
{
    if n > 0 {
        last_in_column_found(invs, col, n - 1);
        if invs[n - 1].column != col {
            if exists|i: int| 0 <= i < n && (#[trigger] invs[i]).column == col {
                let i = choose|i: int| 0 <= i < n && (#[trigger] invs[i]).column == col;
                assert(i < n - 1);
            }
        }
    }
}

/// The frontline holds one invader per occupied column.
pub proof fn frontline_counts_columns(invs: Seq<Invader>, col: int)
    requires
        0 <= col,
    ensures
        frontline_from(invs, col).len() == occupied_from(invs, col),
    decreases ROW_SIZE - col,
{
    if col < ROW_SIZE {
        frontline_counts_columns(invs, col + 1);
        last_in_column_found(invs, col, invs.len() as int);
    }
}

pub open spec fn min_int(a: int, b: int) -> int {
    if a < b {
        a
    } else {
        b
    }
}

proof fn last_in_column_range(invs: Seq<Invader>, col: int, n: int)
    requires
        0 <= n <= invs.len(),
    ensures
        -1 <= last_in_column(invs, col, n) < n,
        last_in_column(invs, col, n) >= 0 ==> invs[last_in_column(invs, col, n)].column == col,
    decreases n,
{
    if n > 0 {
        last_in_column_range(invs, col, n - 1);
    }
}

proof fn frontline_from_facts(invs: Seq<Invader>, col: int)
    requires
        0 <= col,
    ensures
        frontline_from(invs, col).len() <= if col >= ROW_SIZE { 0 } else { ROW_SIZE - col },
        forall|k: int|
            0 <= k < frontline_from(invs, col).len() ==> 0 <= #[trigger] frontline_from(invs, col)[k]
                < invs.len(),
    decreases ROW_SIZE - col,
{
    if col < ROW_SIZE {
        frontline_from_facts(invs, col + 1);
        last_in_column_range(invs, col, invs.len() as int);
    }
}

/// The shooters picked by `draws`: the k-th is the frontline entry at
/// position `draws[k]`.
pub fn shooters_from(front: &Vec<usize>, draws: &Vec<usize>) -> (r: Vec<usize>)
    requires
        forall|k: int| 0 <= k < draws@.len() ==> #[trigger] draws@[k] < front@.len(),
    ensures
        r@.len() == draws@.len(),
        forall|k: int| 0 <= k < r@.len() ==> #[trigger] r@[k] == front@[draws@[k] as int],
{
    let mut r: Vec<usize> = Vec::new();
    let mut k: usize = 0;
    while k < draws.len()
        invariant
            k <= draws@.len(),
            r@.len() == k,
            forall|j: int| 0 <= j < draws@.len() ==> #[trigger] draws@[j] < front@.len(),
            forall|j: int| 0 <= j < k ==> #[trigger] r@[j] == front@[draws@[j] as int],
        decreases draws@.len() - k,
    {
        r.push(front[draws[k]]);
        k = k + 1;
    }
    r
}

impl Game {
    /// The frontline, as indices into `invaders`.
    pub fn get_last_invader_per_column(&self) -> (r: Vec<usize>)
        requires
            forall|i: int| 0 <= i < self.invaders@.len() ==> (#[trigger] self.invaders@[i]).column < ROW_SIZE,
        ensures
            r@.len() == frontline(self.invaders@).len(),
            forall|k: int| 0 <= k < r@.len() ==> r@[k] as int == #[trigger] frontline(self.invaders@)[k],
            r@.len() <= ROW_SIZE,
            forall|k: int| 0 <= k < r@.len() ==> #[trigger] r@[k] < self.invaders@.len(),
    {
        let ghost invs = self.invaders@;
        let mut columns: Vec<Option<usize>> = Vec::new();
        let mut c: usize = 0;
        while c < ROW_SIZE as usize
            invariant
                c <= ROW_SIZE,
                columns@.len() == c,
                forall|j: int| 0 <= j < c ==> (#[trigger] columns@[j]).is_none(),
            decreases ROW_SIZE - c,
        {
            columns.push(None);
            c = c + 1;
        }

        let n = self.invaders.len();
        let mut i: usize = 0;
        while i < n
            invariant
                i <= n,
                n == invs.len(),
                invs == self.invaders@,
                columns@.len() == ROW_SIZE,
                forall|j: int| 0 <= j < invs.len() ==> (#[trigger] invs[j]).column < ROW_SIZE,
                forall|j: int|
                    0 <= j < ROW_SIZE ==> (#[trigger] columns@[j]) == (if last_in_column(invs, j, i as int) >= 0 {
                        Some(last_in_column(invs, j, i as int) as usize)
                    } else {
                        None
                    }),
            decreases n - i,
        {
            let col = self.invaders[i].column as usize;
            columns.set(col, Some(i));
            i = i + 1;
        }

        let mut result: Vec<usize> = Vec::new();
        let mut c: usize = 0;
        proof {
            frontline_from_facts(invs, 0);
        }
        while c < ROW_SIZE as usize
            invariant
                c <= ROW_SIZE,
                n == invs.len(),
                invs == self.invaders@,
                columns@.len() == ROW_SIZE,
                forall|j: int|
                    0 <= j < ROW_SIZE ==> (#[trigger] columns@[j]) == (if last_in_column(invs, j, n as int) >= 0 {
                        Some(last_in_column(invs, j, n as int) as usize)
                    } else {
                        None
                    }),
                result@.map_values(|v: usize| v as int) + frontline_from(invs, c as int) == frontline(invs),
                result@.len() <= c,
            decreases ROW_SIZE - c,
        {
            let ghost before = result@.map_values(|v: usize| v as int);
            proof {
                last_in_column_range(invs, c as int, n as int);
            }
            match columns[c] {
                Some(idx) => {
                    result.push(idx);
                    proof {
                        assert(result@.map_values(|v: usize| v as int) =~= before.push(idx as int));
                        assert(before.push(idx as int) + frontline_from(invs, c + 1) =~= before
                            + frontline_from(invs, c as int));
                    }
                },
                None => {
                    proof {
                        assert(frontline_from(invs, c + 1) =~= frontline_from(invs, c as int));
                    }
                },
            }
            c = c + 1;
        }
        proof {
            frontline_from_facts(invs, 0);
            let m = result@.map_values(|v: usize| v as int);
            assert(frontline_from(invs, ROW_SIZE as int) =~= seq![]);
            assert(m =~= frontline(invs));
            assert forall|k: int| 0 <= k < result@.len() implies result@[k] as int == #[trigger] frontline(invs)[k] by {
                assert(m[k] == result@[k] as int);
            }
            assert forall|k: int| 0 <= k < result@.len() implies #[trigger] result@[k] < invs.len() by {
                assert(m[k] == result@[k] as int);
                assert(0 <= frontline(invs)[k] < invs.len());
            }
        }
        result
    }

    /// A random volley: when at least two columns are occupied, between one
    /// and `min(4, columns) - 1` shooters, each drawn from the frontline (the
    /// same one may be drawn twice); otherwise none.
    pub fn get_invader_shooters(&self) -> (r: Vec<usize>)
        requires
            forall|i: int| 0 <= i < self.invaders@.len() ==> (#[trigger] self.invaders@[i]).column < ROW_SIZE,
        ensures
            ({
                let m = min_int(4, occupied_columns(self.invaders@));
                if m > 1 {
                    1 <= r@.len() < m
                } else {
                    r@.len() == 0
                }
            }),
            ({
                let m = min_int(4, frontline(self.invaders@).len() as int);
                if m > 1 {
                    1 <= r@.len() < m
                } else {
                    r@.len() == 0
                }
            }),
            forall|k: int|
                0 <= k < r@.len() ==> frontline(self.invaders@).contains(#[trigger] r@[k] as int),
            forall|k: int| 0 <= k < r@.len() ==> #[trigger] r@[k] < self.invaders@.len(),
    {
        let invader_indices = self.get_last_invader_per_column();
        let ghost fl = frontline(self.invaders@);

        let mut max: usize = 4;
        if invader_indices.len() < max {
            max = invader_indices.len();
        }

        let mut draws: Vec<usize> = Vec::new();
        if max > 1 {
            let num = random_below(1, max);
            let mut k: usize = 0;
            while k < num
                invariant
                    k <= num,
                    1 < max <= invader_indices@.len(),
                    draws@.len() == k,
                    forall|j: int| 0 <= j < draws@.len() ==> #[trigger] draws@[j] < invader_indices@.len(),
                decreases num - k,
            {
                draws.push(random_below(0, invader_indices.len()));
                k = k + 1;
            }
        }
        let shooters = shooters_from(&invader_indices, &draws);
        proof {
            frontline_counts_columns(self.invaders@, 0);
            assert forall|j: int| 0 <= j < shooters@.len() implies fl.contains(#[trigger] shooters@[j] as int) by {
                assert(fl[draws@[j] as int] == shooters@[j] as int);
            }
        }
        shooters
    }
}

} // verus!
