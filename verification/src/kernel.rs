//! Propagation kernels on the voxel grid: the 26-neighbourhood used by
//! anisotropic propagation and the explicit move lists loaded from kernel
//! files, with the occupancy and swept-path checks that decide which moves
//! may be taken.

use crate::binary64::{f64_bits_positive_finite, positive_finite};
use crate::grid::Grid;
use crate::occupancy::is_occupied;
use vstd::prelude::*;

verus! {

/// How a kernel move is checked against the occupied volume.
#[derive(Clone, Copy, Debug, PartialEq, Eq, Structural)]
pub enum KernelPathCheck {
    /// Only the target voxel must be occupied.
    EndpointOccupied,
    /// The target and every voxel the move sweeps through must be occupied.
    SweptOccupied,
}

/// A kernel move: an integer voxel offset and the field distance it adds,
/// the latter held as the bit pattern of an IEEE-754 binary64 value.
#[derive(Clone, Copy, Debug)]
pub struct KernelMove {
    pub offset: [isize; 3],
    pub cost_bits: u64,
}

/// Why a move list cannot form a kernel.
#[derive(Clone, Copy, Debug, PartialEq, Eq, Structural)]
pub enum KernelError {
    NoMoves,
    ZeroOffset,
    InvalidCost,
}

/// The text of each kernel error.
pub open spec fn kernel_error_text(e: KernelError) -> Seq<char> {
    match e {
        KernelError::NoMoves => "kernel must contain at least one move"@,
        KernelError::ZeroOffset => "kernel move offset must not be [0, 0, 0]"@,
        KernelError::InvalidCost => "kernel move cost must be finite and greater than zero"@,
    }
}

impl KernelError {
    /// The human-readable description of the error.
    pub fn message(&self) -> (r: String)
        ensures
            r@ == kernel_error_text(*self),
    {
        match self {
            KernelError::NoMoves => String::from_str("kernel must contain at least one move"),
            KernelError::ZeroOffset => String::from_str("kernel move offset must not be [0, 0, 0]"),
            KernelError::InvalidCost => String::from_str(
                "kernel move cost must be finite and greater than zero",
            ),
        }
    }
}

/// The offset `[0, 0, 0]`.
pub open spec fn is_zero_offset(o: [isize; 3]) -> bool {
    o[0] == 0 && o[1] == 0 && o[2] == 0
}

/// The first error in a move list, checking moves in order and, for each
/// move, its offset before its cost.
pub open spec fn first_kernel_error(moves: Seq<KernelMove>, k: int) -> Option<KernelError>
    decreases moves.len() - k,
{
    if k >= moves.len() {
        None
    } else if is_zero_offset(moves[k].offset) {
        Some(KernelError::ZeroOffset)
    } else if !f64_bits_positive_finite(moves[k].cost_bits) {
        Some(KernelError::InvalidCost)
    } else {
        first_kernel_error(moves, k + 1)
    }
}

/// The error, if any, that makes a move list unusable as a kernel.
pub open spec fn kernel_error(moves: Seq<KernelMove>) -> Option<KernelError> {
    if moves.len() == 0 {
        Some(KernelError::NoMoves)
    } else {
        first_kernel_error(moves, 0)
    }
}

/// The target of a move from voxel `from`, when it lies in the grid.
pub open spec fn move_target(g: Grid, from: int, o: [isize; 3]) -> Option<int> {
    g.neighbor(from, o[0] as int, o[1] as int, o[2] as int)
}

/// Every voxel that the move sweeps through lies in the grid and is occupied.
pub open spec fn swept_clear(g: Grid, occ: Seq<u8>, from: int, swept: Seq<[isize; 3]>) -> bool {
    forall|s: int|
        0 <= s < swept.len() ==> match move_target(g, from, #[trigger] swept[s]) {
            Some(j) => is_occupied(occ, j),
            None => false,
        }
}

/// Whether move `k` may be taken from `from`: its target lies in the grid
/// and, when `require_occupied`, the target is occupied and (when swept
/// paths are checked) so is every swept voxel.
pub open spec fn move_admissible(
    g: Grid,
    occ: Seq<u8>,
    from: int,
    offsets: Seq<[isize; 3]>,
    swept: Option<Seq<Seq<[isize; 3]>>>,
    require_occupied: bool,
    k: int,
) -> bool {
    match move_target(g, from, offsets[k]) {
        Some(j) => !require_occupied || (is_occupied(occ, j) && match swept {
            Some(sw) => swept_clear(g, occ, from, sw[k]),
            None => true,
        }),
        None => false,
    }
}

/// The `(target, move index)` pairs of the admissible moves among the first
/// `n`, in move order.
pub open spec fn admissible_moves(
    g: Grid,
    occ: Seq<u8>,
    from: int,
    offsets: Seq<[isize; 3]>,
    swept: Option<Seq<Seq<[isize; 3]>>>,
    require_occupied: bool,
    n: int,
) -> Seq<(usize, usize)>
    decreases n,
{
    if n <= 0 {
        Seq::empty()
    } else {
        let prefix = admissible_moves(g, occ, from, offsets, swept, require_occupied, n - 1);
        if move_admissible(g, occ, from, offsets, swept, require_occupied, n - 1) {
            prefix.push((move_target(g, from, offsets[n - 1])->0 as usize, (n - 1) as usize))
        } else {
            prefix
        }
    }
}

/// The 26 neighbour offsets of the voxel box, with x varying fastest, then
/// y, then z (each from -1 to 1), skipping `[0, 0, 0]`.
pub open spec fn box_offset(k: int) -> [isize; 3] {
    let c = if k < 13 {
        k
    } else {
        k + 1
    };
    [(c % 3 - 1) as isize, ((c / 3) % 3 - 1) as isize, (c / 9 - 1) as isize]
}

/// The 26 neighbour offsets in visiting order.
pub fn box_offsets() -> (r: Vec<[isize; 3]>)
    ensures
        r@.len() == 26,
        forall|k: int| 0 <= k < 26 ==> #[trigger] r@[k] == box_offset(k),
{
    let mut offsets: Vec<[isize; 3]> = Vec::new();
    let mut c: usize = 0;
    while c < 27
        invariant
            c <= 27,
            offsets@.len() == if c <= 13 {
                c as int
            } else {
                c - 1
            },
            forall|k: int| 0 <= k < offsets@.len() ==> #[trigger] offsets@[k] == box_offset(k),
        decreases 27 - c,
    {
        if c != 13 {
            let offset = [(c % 3) as isize - 1, ((c / 3) % 3) as isize - 1, (c / 9) as isize - 1];
            proof {
                let k = offsets@.len() as int;
                assert(box_offset(k) =~= offset);
            }
            offsets.push(offset);
        }
        c += 1;
    }
    offsets
}

/// Every swept voxel of a move from `from` is inside the grid and occupied.
fn swept_is_clear(occupancy: &[u8], grid: &Grid, from: usize, swept: &[[isize; 3]]) -> (r: bool)
    requires
        grid.wf(),
        from < grid.spec_voxel_count(),
    ensures
        r == swept_clear(*grid, occupancy@, from as int, swept@),
{
    let mut s: usize = 0;
    while s < swept.len()
        invariant
            grid.wf(),
            from < grid.spec_voxel_count(),
            s <= swept@.len(),
            forall|t: int|
                0 <= t < s ==> match move_target(*grid, from as int, #[trigger] swept@[t]) {
                    Some(j) => is_occupied(occupancy@, j),
                    None => false,
                },
        decreases swept@.len() - s,
    {
        match grid.offset_index(from, swept[s]) {
            Some(j) => {
                if j >= occupancy.len() || occupancy[j] == 0 {
                    assert(!swept_clear(*grid, occupancy@, from as int, swept@)) by {
                        assert(move_target(*grid, from as int, swept@[s as int]) == Some(j as int));
                    }
                    return false;
                }
            },
            None => {
                assert(!swept_clear(*grid, occupancy@, from as int, swept@)) by {
                    assert(move_target(*grid, from as int, swept@[s as int]) is None);
                }
                return false;
            },
        }
        s += 1;
    }
    true
}

/// The `(target, move index)` pairs of the moves from `from` that are
/// admissible (see `move_admissible`), in move order.
pub fn admissible_targets(
    occupancy: &[u8],
    grid: &Grid,
    from: usize,
    offsets: &[[isize; 3]],
    swept: Option<&[Vec<[isize; 3]>]>,
    require_occupied: bool,
) -> (r: Vec<(usize, usize)>)
    requires
        grid.wf(),
        from < grid.spec_voxel_count(),
        swept matches Some(sw) ==> sw@.len() == offsets@.len(),
    ensures
        r@ == admissible_moves(
            *grid,
            occupancy@,
            from as int,
            offsets@,
            swept_view(swept),
            require_occupied,
            offsets@.len() as int,
        ),
        forall|t: int| 0 <= t < r@.len() ==> #[trigger] r@[t].0 < grid.spec_voxel_count(),
        require_occupied ==> forall|t: int|
            0 <= t < r@.len() ==> (#[trigger] r@[t]).0 < occupancy@.len() && occupancy@[r@[t].0 as int] != 0,
{
    let mut targets: Vec<(usize, usize)> = Vec::new();
    let mut k: usize = 0;
    while k < offsets.len()
        invariant
            grid.wf(),
            from < grid.spec_voxel_count(),
            swept matches Some(sw) ==> sw@.len() == offsets@.len(),
            k <= offsets@.len(),
            targets@ == admissible_moves(
                *grid,
                occupancy@,
                from as int,
                offsets@,
                swept_view(swept),
                require_occupied,
                k as int,
            ),
            forall|t: int| 0 <= t < targets@.len() ==> #[trigger] targets@[t].0 < grid.spec_voxel_count(),
        decreases offsets@.len() - k,
    {
        if let Some(target) = grid.offset_index(from, offsets[k]) {
            let admissible = if !require_occupied {
                true
            } else if target >= occupancy.len() || occupancy[target] == 0 {
                false
            } else {
                match swept {
                    Some(sw) => {
                        let clear = swept_is_clear(occupancy, grid, from, sw[k].as_slice());
                        proof {
                            assert(sw@[k as int]@ == swept_view(swept)->0[k as int]);
                        }
                        clear
                    },
                    None => true,
                }
            };
            if admissible {
                targets.push((target, k));
            }
        }
        k += 1;
    }
    let occupancy_len = occupancy.len();
    proof {
        assert(occupancy@.len() == occupancy_len);
        if require_occupied {
            assert forall|t: int| 0 <= t < targets@.len() implies (#[trigger] targets@[t]).0 < occupancy@.len()
                && occupancy@[targets@[t].0 as int] != 0 by {
                lemma_traversable_targets_occupied(
                    *grid,
                    occupancy@,
                    from as int,
                    offsets@,
                    swept_view(swept),
                    offsets@.len() as int,
                    t,
                );
            }
        }
    }
    targets
}

/// The views of the swept-offset lists, if given.
pub open spec fn swept_view(swept: Option<&[Vec<[isize; 3]>]>) -> Option<Seq<Seq<[isize; 3]>>> {
    match swept {
        Some(sw) => Some(sw@.map_values(|v: Vec<[isize; 3]>| v@)),
        None => None,
    }
}

/// An explicit propagation kernel: a non-empty list of validated moves (each
/// an offset, a cost and the voxels the move sweeps through) and the path
/// check that gates them.
#[derive(Clone, Debug)]
pub struct ExplicitKernelPropagation {
    offsets: Vec<[isize; 3]>,
    cost_bits: Vec<u64>,
    swept_offsets: Vec<Vec<[isize; 3]>>,
    path_check: KernelPathCheck,
}

impl ExplicitKernelPropagation {
    /// The offsets of the kernel's moves, in order.
    pub closed spec fn spec_offsets(&self) -> Seq<[isize; 3]> {
        self.offsets@
    }

    /// The cost bit patterns of the kernel's moves, in order.
    pub closed spec fn spec_cost_bits(&self) -> Seq<u64> {
        self.cost_bits@
    }

    /// The swept voxels of each move, in order.
    pub closed spec fn spec_swept(&self) -> Seq<Seq<[isize; 3]>> {
        self.swept_offsets@.map_values(|v: Vec<[isize; 3]>| v@)
    }

    /// The kernel's path check.
    pub closed spec fn spec_path_check(&self) -> KernelPathCheck {
        self.path_check
    }

    /// The three move lists have one entry per move.
    pub closed spec fn wf(&self) -> bool {
        &&& self.cost_bits@.len() == self.offsets@.len()
        &&& self.swept_offsets@.len() == self.offsets@.len()
    }

    /// Builds a kernel from `moves`, whose swept voxels are `swept_offsets`
    /// (one list per move), after checking that there is at least one move
    /// and that every move has a non-zero offset and a finite positive cost.
    pub fn new(
        moves: Vec<KernelMove>,
        swept_offsets: Vec<Vec<[isize; 3]>>,
        path_check: KernelPathCheck,
    ) -> (r: Result<Self, KernelError>)
        requires
            swept_offsets@.len() == moves@.len(),
        ensures
            r matches Err(e) ==> kernel_error(moves@) == Some(e),
            kernel_error(moves@) is Some ==> r is Err,
            r matches Ok(kernel) ==> {
                &&& kernel_error(moves@) is None
                &&& kernel.wf()
                &&& kernel.spec_path_check() == path_check
                &&& kernel.spec_offsets() == moves@.map_values(|m: KernelMove| m.offset)
                &&& kernel.spec_cost_bits() == moves@.map_values(|m: KernelMove| m.cost_bits)
                &&& kernel.spec_swept() == swept_offsets@.map_values(|v: Vec<[isize; 3]>| v@)
            },
    {
        if moves.len() == 0 {
            return Err(KernelError::NoMoves);
        }
        let mut offsets: Vec<[isize; 3]> = Vec::new();
        let mut cost_bits: Vec<u64> = Vec::new();
        let mut k: usize = 0;
        while k < moves.len()
            invariant
                k <= moves@.len(),
                moves@.len() > 0,
                first_kernel_error(moves@, 0) == first_kernel_error(moves@, k as int),
                offsets@ == moves@.subrange(0, k as int).map_values(|m: KernelMove| m.offset),
                cost_bits@ == moves@.subrange(0, k as int).map_values(|m: KernelMove| m.cost_bits),
            decreases moves@.len() - k,
        {
            let m = moves[k];
            if m.offset[0] == 0 && m.offset[1] == 0 && m.offset[2] == 0 {
                return Err(KernelError::ZeroOffset);
            }
            if !positive_finite(m.cost_bits) {
                return Err(KernelError::InvalidCost);
            }
            offsets.push(m.offset);
            cost_bits.push(m.cost_bits);
            proof {
                assert(moves@.subrange(0, k + 1).map_values(|m: KernelMove| m.offset) =~= moves@.subrange(
                    0,
                    k as int,
                ).map_values(|m: KernelMove| m.offset).push(m.offset));
                assert(moves@.subrange(0, k + 1).map_values(|m: KernelMove| m.cost_bits) =~= moves@.subrange(
                    0,
                    k as int,
                ).map_values(|m: KernelMove| m.cost_bits).push(m.cost_bits));
            }
            k += 1;
        }
        assert(moves@.subrange(0, moves@.len() as int) =~= moves@);
        Ok(ExplicitKernelPropagation { offsets, cost_bits, swept_offsets, path_check })
    }

    /// Number of moves in the kernel.
    pub fn move_count(&self) -> (r: usize)
        requires
            self.wf(),
        ensures
            r == self.spec_offsets().len(),
    {
        self.offsets.len()
    }

    /// The offsets of the kernel's moves.
    pub fn offsets(&self) -> (r: &[[isize; 3]])
        ensures
            r@ == self.spec_offsets(),
    {
        self.offsets.as_slice()
    }

    /// The cost bit patterns of the kernel's moves.
    pub fn cost_bits(&self) -> (r: &[u64])
        ensures
            r@ == self.spec_cost_bits(),
    {
        self.cost_bits.as_slice()
    }

    /// The kernel's path check.
    pub fn path_check(&self) -> (r: KernelPathCheck)
        ensures
            r == self.spec_path_check(),
    {
        self.path_check
    }

    /// The in-grid targets of every move from `index`, with the move index, in move order.
    pub fn neighbors(&self, grid: &Grid, index: usize) -> (r: Vec<(usize, usize)>)
        requires
            grid.wf(),
            index < grid.spec_voxel_count(),
        ensures
            r@ == admissible_moves(*grid, Seq::empty(), index as int, self.spec_offsets(), None, false, self.spec_offsets().len() as int),
    {
        let empty: [u8; 0] = [];
        let r = admissible_targets(empty.as_slice(), grid, index, self.offsets.as_slice(), None, false);
        proof {
            lemma_admissible_ignores_occupancy(*grid, empty@, Seq::empty(), index as int, self.offsets@, self.offsets@.len() as int);
        }
        r
    }

    /// The moves from `index` that propagation may take: the target is in the
    /// grid and occupied and, with `SweptOccupied`, every swept voxel is too.
    pub fn traversable_neighbors(&self, occupancy: &[u8], grid: &Grid, index: usize) -> (r: Vec<(usize, usize)>)
        requires
            self.wf(),
            grid.wf(),
            index < grid.spec_voxel_count(),
        ensures
            r@ == admissible_moves(
                *grid,
                occupancy@,
                index as int,
                self.spec_offsets(),
                if self.spec_path_check() == KernelPathCheck::SweptOccupied {
                    Some(self.spec_swept())
                } else {
                    None
                },
                true,
                self.spec_offsets().len() as int,
            ),
            forall|t: int|
                0 <= t < r@.len() ==> (#[trigger] r@[t]).0 < occupancy@.len() && occupancy@[r@[t].0 as int] != 0,
    {
        if self.path_check == KernelPathCheck::SweptOccupied {
            admissible_targets(occupancy, grid, index, self.offsets.as_slice(), Some(self.swept_offsets.as_slice()), true)
        } else {
            admissible_targets(occupancy, grid, index, self.offsets.as_slice(), None, true)
        }
    }
}

/// Without the occupancy requirement, admissibility does not depend on the occupancy.
proof fn lemma_admissible_ignores_occupancy(
    g: Grid,
    occ1: Seq<u8>,
    occ2: Seq<u8>,
    from: int,
    offsets: Seq<[isize; 3]>,
    n: int,
)
    ensures
        admissible_moves(g, occ1, from, offsets, None, false, n) == admissible_moves(g, occ2, from, offsets, None, false, n),
    decreases n,
{
    if n > 0 {
        lemma_admissible_ignores_occupancy(g, occ1, occ2, from, offsets, n - 1);
    }
}

/// The in-grid voxels of the 26-neighbourhood of `index`, each with its
/// position in `box_offsets()`, in visiting order.
pub fn box_neighbors(grid: &Grid, index: usize) -> (r: Vec<(usize, usize)>)
    requires
        grid.wf(),
        index < grid.spec_voxel_count(),
    ensures
        r@ == admissible_moves(
            *grid,
            Seq::empty(),
            index as int,
            Seq::new(26, |k: int| box_offset(k)),
            None,
            false,
            26,
        ),
{
    let offsets = box_offsets();
    assert(offsets@ =~= Seq::new(26, |k: int| box_offset(k)));
    let empty: [u8; 0] = [];
    let r = admissible_targets(empty.as_slice(), grid, index, offsets.as_slice(), None, false);
    proof {
        lemma_admissible_ignores_occupancy(*grid, empty@, Seq::empty(), index as int, offsets@, 26);
    }
    r
}

/// The occupied voxels of the 26-neighbourhood of `index`, each with its
/// position in `box_offsets()`, in visiting order.
pub fn box_traversable_neighbors(occupancy: &[u8], grid: &Grid, index: usize) -> (r: Vec<(usize, usize)>)
    requires
        grid.wf(),
        index < grid.spec_voxel_count(),
    ensures
        r@ == admissible_moves(
            *grid,
            occupancy@,
            index as int,
            Seq::new(26, |k: int| box_offset(k)),
            None,
            true,
            26,
        ),
        forall|t: int|
            0 <= t < r@.len() ==> (#[trigger] r@[t]).0 < occupancy@.len() && occupancy@[r@[t].0 as int] != 0,
{
    let offsets = box_offsets();
    assert(offsets@ =~= Seq::new(26, |k: int| box_offset(k)));
    admissible_targets(occupancy, grid, index, offsets.as_slice(), None, true)
}

/// Every pair in the list of admissible moves names one of the first `n`
/// moves, that move is admissible, and the pair's voxel is its target.
pub proof fn lemma_admissible_moves_sound(
    g: Grid,
    occ: Seq<u8>,
    from: int,
    offsets: Seq<[isize; 3]>,
    swept: Option<Seq<Seq<[isize; 3]>>>,
    require_occupied: bool,
    n: int,
    t: int,
)
    requires
        n <= offsets.len() <= usize::MAX,
        0 <= t < admissible_moves(g, occ, from, offsets, swept, require_occupied, n).len(),
    ensures
        ({
            let pair = admissible_moves(g, occ, from, offsets, swept, require_occupied, n)[t];
            &&& 0 <= pair.1 < n
            &&& move_admissible(g, occ, from, offsets, swept, require_occupied, pair.1 as int)
            &&& pair.0 == move_target(g, from, offsets[pair.1 as int])->0 as usize
        }),
    decreases n,
{
    if n > 0 {
        let prefix = admissible_moves(g, occ, from, offsets, swept, require_occupied, n - 1);
        if t < prefix.len() {
            lemma_admissible_moves_sound(g, occ, from, offsets, swept, require_occupied, n - 1, t);
        }
    }
}

/// With swept-path checking, a move whose path leaves the grid or crosses an
/// empty voxel is never taken, wherever its target lies.
pub proof fn lemma_blocked_sweep_rejects_move(
    g: Grid,
    occ: Seq<u8>,
    from: int,
    offsets: Seq<[isize; 3]>,
    sw: Seq<Seq<[isize; 3]>>,
    n: int,
    k: int,
)
    requires
        n <= offsets.len() <= usize::MAX,
        !swept_clear(g, occ, from, sw[k]),
    ensures
        forall|t: int|
            0 <= t < admissible_moves(g, occ, from, offsets, Some(sw), true, n).len() ==> #[trigger] admissible_moves(
                g,
                occ,
                from,
                offsets,
                Some(sw),
                true,
                n,
            )[t].1 != k,
{
    assert forall|t: int|
        0 <= t < admissible_moves(g, occ, from, offsets, Some(sw), true, n).len() implies #[trigger] admissible_moves(
            g,
            occ,
            from,
            offsets,
            Some(sw),
            true,
            n,
        )[t].1 != k by {
        lemma_admissible_moves_sound(g, occ, from, offsets, Some(sw), true, n, t);
    }
}

/// Propagation only ever moves into occupied voxels: every move that the
/// occupancy requirement admits lands on a voxel of the grid that is
/// occupied, whether or not swept paths are checked, and with swept paths
/// checked every voxel it sweeps through is in the grid and occupied as well.
pub proof fn lemma_traversable_targets_occupied(
    g: Grid,
    occ: Seq<u8>,
    from: int,
    offsets: Seq<[isize; 3]>,
    swept: Option<Seq<Seq<[isize; 3]>>>,
    n: int,
    t: int,
)
    requires
        n <= offsets.len() <= usize::MAX,
        occ.len() <= usize::MAX,
        0 <= t < admissible_moves(g, occ, from, offsets, swept, true, n).len(),
    ensures
        ({
            let pair = admissible_moves(g, occ, from, offsets, swept, true, n)[t];
            &&& (pair.0 as int) < occ.len()
            &&& occ[pair.0 as int] != 0
            &&& g.neighbor(from, offsets[pair.1 as int][0] as int, offsets[pair.1 as int][1] as int, offsets[pair.1 as int][2] as int)
                == Some(pair.0 as int)
            &&& swept matches Some(sw) ==> forall|s: int|
                0 <= s < sw[pair.1 as int].len() ==> match g.neighbor(
                    from,
                    (#[trigger] sw[pair.1 as int][s])[0] as int,
                    sw[pair.1 as int][s][1] as int,
                    sw[pair.1 as int][s][2] as int,
                ) {
                    Some(j) => 0 <= j < occ.len() && occ[j] != 0,
                    None => false,
                }
        }),
{
    lemma_admissible_moves_sound(g, occ, from, offsets, swept, true, n, t);
    let pair = admissible_moves(g, occ, from, offsets, swept, true, n)[t];
    let k = pair.1 as int;
    let j = move_target(g, from, offsets[k])->0;
    assert(is_occupied(occ, j));
    assert(pair.0 as int == j);
    if let Some(sw) = swept {
        assert forall|s: int| 0 <= s < sw[k].len() implies match g.neighbor(
            from,
            (#[trigger] sw[k][s])[0] as int,
            sw[k][s][1] as int,
            sw[k][s][2] as int,
        ) {
            Some(j) => 0 <= j < occ.len() && occ[j] != 0,
            None => false,
        } by {
            assert(swept_clear(g, occ, from, sw[k]));
            assert(match move_target(g, from, sw[k][s]) {
                Some(j) => is_occupied(occ, j),
                None => false,
            });
        }
    }
}

/// No admissible move is left out: a move among the first `n` whose target
/// lies in the grid is listed with that target whenever the occupancy
/// requirement is off, or the target is occupied and (with swept paths
/// checked) every voxel that the move sweeps through is in the grid and
/// occupied.
pub proof fn lemma_admissible_moves_complete(
    g: Grid,
    occ: Seq<u8>,
    from: int,
    offsets: Seq<[isize; 3]>,
    swept: Option<Seq<Seq<[isize; 3]>>>,
    require_occupied: bool,
    n: int,
    k: int,
    j: int,
)
    requires
        n <= offsets.len() <= usize::MAX,
        0 <= k < n,
        0 <= j <= usize::MAX,
        g.neighbor(from, offsets[k][0] as int, offsets[k][1] as int, offsets[k][2] as int) == Some(j),
        require_occupied ==> 0 <= j < occ.len() && occ[j] != 0,
        require_occupied ==> (swept matches Some(sw) ==> forall|s: int|
            0 <= s < sw[k].len() ==> match g.neighbor(
                from,
                (#[trigger] sw[k][s])[0] as int,
                sw[k][s][1] as int,
                sw[k][s][2] as int,
            ) {
                Some(i) => 0 <= i < occ.len() && occ[i] != 0,
                None => false,
            }),
    ensures
        admissible_moves(g, occ, from, offsets, swept, require_occupied, n).contains((j as usize, k as usize)),
    decreases n,
{
    let list = admissible_moves(g, occ, from, offsets, swept, require_occupied, n);
    let prefix = admissible_moves(g, occ, from, offsets, swept, require_occupied, n - 1);
    if k == n - 1 {
        if require_occupied {
            if let Some(sw) = swept {
                assert forall|s: int| 0 <= s < sw[k].len() implies match move_target(g, from, #[trigger] sw[k][s]) {
                    Some(i) => is_occupied(occ, i),
                    None => false,
                } by {}
            }
        }
        assert(move_admissible(g, occ, from, offsets, swept, require_occupied, k));
        assert(list[list.len() - 1] == (j as usize, k as usize));
    } else {
        lemma_admissible_moves_complete(g, occ, from, offsets, swept, require_occupied, n - 1, k, j);
        let t = choose|t: int| 0 <= t < prefix.len() && prefix[t] == (j as usize, k as usize);
        assert(list[t] == prefix[t]);
    }
}

} // verus!
