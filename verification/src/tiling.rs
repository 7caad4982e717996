//! The placement of the tiled windows of a workspace.
//!
//! A layout gives each handle of an ordered list a rectangle inside the
//! rectangle of the workspace. The last handle of the list is the newest
//! window. Sizes never go below 0 and coordinates never above `u16::MAX`: where
//! the gap is larger than a cell, the cell's window has size 0.

use vstd::arithmetic::div_mod::{lemma_basic_div, lemma_fundamental_div_mod};
use vstd::prelude::*;

use crate::client::{sat_sub, saturating_diff, Client, ClientOp};
use crate::context::{lemma_run_single_step, run_clients, Context, ContextView, Step};
use crate::slab::slot;
use crate::layout::Position;

verus! {

/// Width and height of a window that monocle keeps under the one in front.
pub const PARKED_SIZE: u16 = 30;

/// The ways to place the tiled windows.
#[derive(Debug, Clone, Copy, PartialEq, Eq, Structural)]
pub enum Layout {
    Grid,
    MasterLeft,
    MasterRight,
    MasterLeftGrid,
    MasterRightGrid,
    Monocle,
}

/// `v`, or `u16::MAX` where `v` is larger.
pub open spec fn clip16(v: int) -> u16 {
    if v >= 0xffff {
        0xffffu16
    } else if v <= 0 {
        0u16
    } else {
        v as u16
    }
}

/// The least `c` from `from` on with `c * c >= n`.
pub open spec fn sqrt_from(n: nat, from: nat) -> nat
    decreases n - from,
{
    if from >= n || from * from >= n {
        from
    } else {
        sqrt_from(n, from + 1)
    }
}

/// The square root of `n`, rounded up: the number of columns of a grid of `n`
/// cells.
pub open spec fn grid_cols(n: nat) -> nat {
    sqrt_from(n, 0)
}

/// The number of rows of a grid of `n` cells, `n` over the number of columns,
/// rounded up.
pub open spec fn grid_rows(n: nat) -> nat {
    if n == 0 {
        0
    } else {
        ((n - 1) / (grid_cols(n) as int) + 1) as nat
    }
}

/// The rectangle of cell `k` of a grid of `n` cells in `pos`, cells counted
/// row by row: the cell less the gap, half a gap from the cell's corner.
pub open spec fn grid_cell(k: int, n: int, gap: u16, pos: Position) -> Position {
    let cols = grid_cols(n as nat) as int;
    let rows = grid_rows(n as nat) as int;
    let cell_width = pos.width as int / cols;
    let cell_height = pos.height as int / rows;
    Position {
        x: clip16(pos.x + gap / 2 + (k % cols) * cell_width),
        y: clip16(pos.y + gap / 2 + (k / cols) * cell_height),
        width: sat_sub(cell_width, gap as int) as u16,
        height: sat_sub(cell_height, gap as int) as u16,
    }
}

/// The rectangle of the master: one half of `pos`, less the gap.
pub open spec fn master_rect(gap: u16, pos: Position, master_is_left: bool) -> Position {
    let half_width = pos.width as int / 2;
    Position {
        x: clip16(
            pos.x + gap / 2 + if master_is_left {
                0
            } else {
                half_width
            },
        ),
        y: clip16(pos.y + gap / 2),
        width: sat_sub(half_width, gap as int) as u16,
        height: sat_sub(pos.height as int, gap as int) as u16,
    }
}

/// The rectangle of window `i` of the `m` that are stacked in the half of
/// `pos` that the master leaves.
pub open spec fn stack_rect(i: int, m: int, gap: u16, pos: Position, master_is_left: bool) -> Position {
    let half_width = pos.width as int / 2;
    let row_height = pos.height as int / m;
    Position {
        x: clip16(
            pos.x + gap / 2 + if master_is_left {
                half_width
            } else {
                0
            },
        ),
        y: clip16(pos.y + gap / 2 + i * row_height),
        width: sat_sub(half_width, gap as int) as u16,
        height: sat_sub(row_height, gap as int) as u16,
    }
}

/// The half of `pos` that the master leaves.
pub open spec fn side_half(pos: Position, master_is_left: bool) -> Position {
    let half_width = pos.width / 2;
    Position {
        x: if master_is_left {
            clip16(pos.x + half_width)
        } else {
            pos.x
        },
        y: pos.y,
        width: half_width,
        height: pos.height,
    }
}

/// The whole of `pos`, less the gap.
pub open spec fn full_rect(gap: u16, pos: Position) -> Position {
    Position {
        x: clip16(pos.x + gap / 2),
        y: clip16(pos.y + gap / 2),
        width: sat_sub(pos.width as int, gap as int) as u16,
        height: sat_sub(pos.height as int, gap as int) as u16,
    }
}

/// Where monocle keeps a window that is not in front.
pub open spec fn parked_rect(gap: u16, pos: Position) -> Position {
    Position {
        x: clip16(pos.x + gap / 2),
        y: clip16(pos.y + gap / 2),
        width: PARKED_SIZE,
        height: PARKED_SIZE,
    }
}

/// `sqrt_from` finds the least square at or above `n`, given that none lies
/// below `from`.
pub proof fn lemma_sqrt_from(n: nat, from: nat)
    requires
        from == 0 || (from - 1) * (from - 1) < n,
        from <= n,
    ensures
        sqrt_from(n, from) * sqrt_from(n, from) >= n,
        sqrt_from(n, from) == 0 || (sqrt_from(n, from) - 1) * (sqrt_from(n, from) - 1) < n,
        from <= sqrt_from(n, from) <= n,
    decreases n - from,
{
    if from >= n {
        assert(from * from >= n) by (nonlinear_arith)
            requires
                from >= n,
                from == n,
        ;
    } else if from * from >= n {
    } else {
        lemma_sqrt_from(n, from + 1);
    }
}

/// The number of columns is the square root of the number of cells, rounded
/// up, and the number of rows is the number of cells over the number of
/// columns, rounded up.
pub proof fn lemma_grid_dimensions(n: nat)
    requires
        n >= 1,
    ensures
        1 <= grid_cols(n) <= n,
        grid_cols(n) * grid_cols(n) >= n,
        (grid_cols(n) - 1) * (grid_cols(n) - 1) < n,
        1 <= grid_rows(n) <= n,
        grid_rows(n) * grid_cols(n) >= n,
        (grid_rows(n) - 1) * grid_cols(n) < n,
{
    lemma_sqrt_from(n, 0);
    let c = grid_cols(n) as int;
    assert(c >= 1) by {
        if c == 0 {
            assert(grid_cols(n) * grid_cols(n) == 0) by (nonlinear_arith)
                requires
                    grid_cols(n) == 0,
            ;
        }
    }
    let q = (n - 1) / c;
    lemma_fundamental_div_mod(n - 1, c);
    assert(0 <= (n - 1) % c < c);
    assert(c * q <= n - 1);
    assert(q >= 0 && q <= n - 1) by (nonlinear_arith)
        requires
            c >= 1,
            c * q <= n - 1,
            c * q + c > n - 1,
            n >= 1,
    ;
    assert((q + 1) * c >= n && q * c < n) by (nonlinear_arith)
        requires
            n - 1 == c * q + (n - 1) % c,
            0 <= (n - 1) % c < c,
    ;
}

/// `base + margin + index * size`, or `u16::MAX` where that is larger.
pub fn offset_by(base: u16, margin: u16, index: usize, size: u16) -> (r: u16)
    ensures
        r == clip16(base + margin + index * size),
{
    let start: u32 = base as u32 + margin as u32;
    if size == 0 {
        assert(index * size == 0) by (nonlinear_arith)
            requires
                size == 0,
        ;
        if start > 0xffff {
            0xffff
        } else {
            start as u16
        }
    } else if index > 0xffff {
        assert(index * size >= 0x10000) by (nonlinear_arith)
            requires
                index >= 0x10000,
                size >= 1,
        ;
        0xffff
    } else {
        assert(index * size <= 0xffff * 0xffff) by (nonlinear_arith)
            requires
                0 <= index <= 0xffff,
                0 <= size <= 0xffff,
        ;
        let product: u32 = index as u32 * size as u32;
        let total: u64 = start as u64 + product as u64;
        if total > 0xffff {
            0xffff
        } else {
            total as u16
        }
    }
}

/// `extent` over `count`, rounded down.
pub fn cell_size(extent: u16, count: usize) -> (r: u16)
    requires
        count >= 1,
    ensures
        r == extent as int / count as int,
{
    if count > extent as usize {
        proof {
            lemma_basic_div(extent as int, count as int);
        }
        0
    } else {
        extent / (count as u16)
    }
}

/// The numbers of columns and of rows of a grid of `n` cells: none of
/// either for no cell.
pub fn grid_dimensions(n: usize) -> (r: (usize, usize))
    ensures
        r.0 == grid_cols(n as nat),
        r.1 == grid_rows(n as nat),
        n >= 1 ==> r.0 >= 1 && r.1 >= 1,
{
    if n == 0 {
        return (0, 0);
    }
    let mut cols: usize = 0;
    proof {
        lemma_grid_dimensions(n as nat);
    }
    loop
        invariant
            cols <= n,
            sqrt_from(n as nat, cols as nat) == grid_cols(n as nat),
        ensures
            cols == grid_cols(n as nat),
        decreases n - cols,
    {
        if cols >= n {
            break ;
        }
        assert(cols * cols <= 0xffff_ffff_ffff_ffff * 0xffff_ffff_ffff_ffff) by (nonlinear_arith)
            requires
                0 <= cols <= 0xffff_ffff_ffff_ffff,
        ;
        if (cols as u128) * (cols as u128) >= n as u128 {
            break ;
        }
        cols += 1;
    }
    let rows = (n - 1) / cols + 1;
    (cols, rows)
}

/// The steps that place `handles` in a grid in `pos`: the cells go to the
/// handles in the reverse of their order, so that the newest window has the
/// first cell.
pub open spec fn grid_plan(handles: Seq<usize>, gap: u16, pos: Position) -> Seq<Step> {
    let n = handles.len() as int;
    Seq::new(
        handles.len(),
        |k: int| Step { handle: handles[n - 1 - k], op: ClientOp::Update(grid_cell(k, n, gap, pos)) },
    )
}

/// The steps that stack `handles` in the half of `pos` that the master leaves,
/// the newest on top.
pub open spec fn stack_plan(handles: Seq<usize>, gap: u16, pos: Position, master_is_left: bool) -> Seq<
    Step,
> {
    let m = handles.len() as int;
    Seq::new(
        handles.len(),
        |i: int|
            Step {
                handle: handles[m - 1 - i],
                op: ClientOp::Update(stack_rect(i, m, gap, pos, master_is_left)),
            },
    )
}

/// The step that gives the last of `handles` the master's half of `pos`.
pub open spec fn master_step(handles: Seq<usize>, gap: u16, pos: Position, master_is_left: bool) -> Step {
    Step { handle: handles.last(), op: ClientOp::Update(master_rect(gap, pos, master_is_left)) }
}

/// The steps of a layout with a master and a stack: the master first, then the
/// others.
pub open spec fn master_plan(handles: Seq<usize>, gap: u16, pos: Position, master_is_left: bool) -> Seq<
    Step,
> {
    seq![master_step(handles, gap, pos, master_is_left)] + stack_plan(
        handles.drop_last(),
        gap,
        pos,
        master_is_left,
    )
}

/// The steps of a layout with a master and a grid: the master first, then the
/// others in a grid in the other half.
pub open spec fn master_grid_plan(
    handles: Seq<usize>,
    gap: u16,
    pos: Position,
    master_is_left: bool,
) -> Seq<Step> {
    seq![master_step(handles, gap, pos, master_is_left)] + grid_plan(
        handles.drop_last(),
        gap,
        side_half(pos, master_is_left),
    )
}

/// The steps of monocle: every handle but the last is parked, then the last
/// gets the whole of `pos`.
pub open spec fn monocle_plan(handles: Seq<usize>, gap: u16, pos: Position) -> Seq<Step> {
    Seq::new(
        handles.len(),
        |k: int|
            Step {
                handle: handles[k],
                op: ClientOp::Update(
                    if k == handles.len() - 1 {
                        full_rect(gap, pos)
                    } else {
                        parked_rect(gap, pos)
                    },
                ),
            },
    )
}

/// Doing the first `k` steps of a script and then step `k` is doing its first
/// `k + 1` steps.
pub proof fn lemma_run_next(c: ContextView, script: Seq<Step>, k: int)
    requires
        0 <= k < script.len(),
    ensures
        c.run(script.take(k)).run(seq![script[k]]) == c.run(script.take(k + 1)),
{
    c.lemma_run_concat(script.take(k), seq![script[k]]);
    assert(script.take(k) + seq![script[k]] =~= script.take(k + 1));
}

impl Layout {
    /// The layout that follows this one when the layouts are cycled through.
    pub open spec fn spec_next(self) -> Layout {
        match self {
            Layout::Grid => Layout::MasterLeft,
            Layout::MasterLeft => Layout::MasterRight,
            Layout::MasterRight => Layout::MasterLeftGrid,
            Layout::MasterLeftGrid => Layout::MasterRightGrid,
            Layout::MasterRightGrid => Layout::Monocle,
            Layout::Monocle => Layout::Grid,
        }
    }

    /// The layout that follows this one when the layouts are cycled through.
    pub fn next(self) -> (r: Layout)
        ensures
            r == self.spec_next(),
    {
        match self {
            Layout::Grid => Layout::MasterLeft,
            Layout::MasterLeft => Layout::MasterRight,
            Layout::MasterRight => Layout::MasterLeftGrid,
            Layout::MasterLeftGrid => Layout::MasterRightGrid,
            Layout::MasterRightGrid => Layout::Monocle,
            Layout::Monocle => Layout::Grid,
        }
    }

    /// The three characters that stand for the layout.
    pub open spec fn spec_symbol(self) -> Seq<char> {
        match self {
            Layout::Grid => "HHH"@,
            Layout::MasterLeft => "[]="@,
            Layout::MasterRight => "=[]"@,
            Layout::MasterLeftGrid => "[]H"@,
            Layout::MasterRightGrid => "H[]"@,
            Layout::Monocle => "[M]"@,
        }
    }

    /// The three characters that stand for the layout.
    pub fn symbol(self) -> (r: &'static str)
        ensures
            r@ == self.spec_symbol(),
    {
        match self {
            Layout::Grid => "HHH",
            Layout::MasterLeft => "[]=",
            Layout::MasterRight => "=[]",
            Layout::MasterLeftGrid => "[]H",
            Layout::MasterRightGrid => "H[]",
            Layout::Monocle => "[M]",
        }
    }

    /// The steps that place `handles` in `pos`: none for no handle, the whole
    /// of `pos` for a single one, else what the layout says.
    pub open spec fn plan(self, handles: Seq<usize>, gap: u16, pos: Position) -> Seq<Step> {
        if handles.len() == 0 {
            Seq::empty()
        } else if handles.len() == 1 {
            seq![Step { handle: handles[0], op: ClientOp::Update(full_rect(gap, pos)) }]
        } else {
            match self {
                Layout::Grid => grid_plan(handles, gap, pos),
                Layout::MasterLeft => master_plan(handles, gap, pos, true),
                Layout::MasterRight => master_plan(handles, gap, pos, false),
                Layout::MasterLeftGrid => master_grid_plan(handles, gap, pos, true),
                Layout::MasterRightGrid => master_grid_plan(handles, gap, pos, false),
                Layout::Monocle => monocle_plan(handles, gap, pos),
            }
        }
    }

    fn retile_grid(windows: &[usize], gap: u16, screen_position: Position, ctx: &mut Context)
        requires
            old(ctx).wf(),
        ensures
            final(ctx).wf(),
            final(ctx)@ == old(ctx)@.run(grid_plan(windows@, gap, screen_position)),
    {
        let len = windows.len();
        let ghost plan = grid_plan(windows@, gap, screen_position);
        proof {
            ctx@.lemma_run_nothing();
            assert(plan.take(0) =~= Seq::<Step>::empty());
        }
        if len == 0 {
            assert(plan =~= Seq::<Step>::empty());
            return ;
        }
        let half_gap = gap / 2;
        let (num_wins_horz, num_wins_vert) = grid_dimensions(len);
        let win_width = cell_size(screen_position.width, num_wins_horz);
        let win_height = cell_size(screen_position.height, num_wins_vert);
        let width = saturating_diff(win_width, gap);
        let height = saturating_diff(win_height, gap);
        for i in 0..len
            invariant
                ctx.wf(),
                ctx@ == old(ctx)@.run(plan.take(i as int)),
                len == windows@.len(),
                plan == grid_plan(windows@, gap, screen_position),
                num_wins_horz == grid_cols(len as nat),
                num_wins_vert == grid_rows(len as nat),
                num_wins_horz >= 1,
                win_width == screen_position.width as int / num_wins_horz as int,
                win_height == screen_position.height as int / num_wins_vert as int,
                width == sat_sub(win_width as int, gap as int),
                height == sat_sub(win_height as int, gap as int),
                half_gap == gap / 2,
        {
            let x = offset_by(screen_position.x, half_gap, i % num_wins_horz, win_width);
            let y = offset_by(screen_position.y, half_gap, i / num_wins_horz, win_height);
            ctx.apply(windows[len - 1 - i], ClientOp::Update(Position::new(x, y, width, height)));
            proof {
                lemma_run_next(old(ctx)@, plan, i as int);
            }
        }
        assert(plan.take(len as int) =~= plan);
    }

    fn retile_with_master(
        windows: &[usize],
        gap: u16,
        screen_position: Position,
        master_is_left: bool,
        ctx: &mut Context,
    )
        requires
            windows@.len() >= 2,
            old(ctx).wf(),
        ensures
            final(ctx).wf(),
            final(ctx)@ == old(ctx)@.run(master_plan(windows@, gap, screen_position, master_is_left)),
    {
        let half_gap = gap / 2;
        let half_width = screen_position.width / 2;
        let len = windows.len() - 1;
        let width = saturating_diff(half_width, gap);
        let ghost first = master_step(windows@, gap, screen_position, master_is_left);
        let ghost rest = stack_plan(windows@.drop_last(), gap, screen_position, master_is_left);
        Self::place_master(windows, gap, screen_position, master_is_left, ctx);
        let ghost mid = ctx@;
        let height_gapless = cell_size(screen_position.height, len);
        let height = saturating_diff(height_gapless, gap);
        let x = offset_by(
            screen_position.x,
            half_gap,
            if master_is_left {
                1
            } else {
                0
            },
            half_width,
        );
        proof {
            mid.lemma_run_nothing();
            assert(rest.take(0) =~= Seq::<Step>::empty());
            assert(1 * half_width == half_width as int && 0 * half_width == 0) by (nonlinear_arith);
        }
        for i in 0..len
            invariant
                ctx.wf(),
                ctx@ == mid.run(rest.take(i as int)),
                len == windows@.len() - 1,
                rest == stack_plan(windows@.drop_last(), gap, screen_position, master_is_left),
                height_gapless == screen_position.height as int / len as int,
                height == sat_sub(height_gapless as int, gap as int),
                width == sat_sub(screen_position.width as int / 2, gap as int),
                half_gap == gap / 2,
                x == clip16(
                    screen_position.x + gap / 2 + if master_is_left {
                        screen_position.width as int / 2
                    } else {
                        0
                    },
                ),
        {
            let y = offset_by(screen_position.y, half_gap, i, height_gapless);
            ctx.apply(windows[len - 1 - i], ClientOp::Update(Position::new(x, y, width, height)));
            proof {
                lemma_run_next(mid, rest, i as int);
            }
        }
        proof {
            assert(rest.take(len as int) =~= rest);
            old(ctx)@.lemma_run_concat(seq![first], rest);
        }
    }

    /// Gives the last of `windows` the master's half.
    fn place_master(
        windows: &[usize],
        gap: u16,
        screen_position: Position,
        master_is_left: bool,
        ctx: &mut Context,
    )
        requires
            windows@.len() >= 1,
            old(ctx).wf(),
        ensures
            final(ctx).wf(),
            final(ctx)@ == old(ctx)@.run(
                seq![master_step(windows@, gap, screen_position, master_is_left)],
            ),
    {
        let half_width = screen_position.width / 2;
        let x = offset_by(
            screen_position.x,
            gap / 2,
            if master_is_left {
                0
            } else {
                1
            },
            half_width,
        );
        let y = offset_by(screen_position.y, gap / 2, 0, 0);
        proof {
            assert(1 * half_width == half_width as int && 0 * half_width == 0 && 0 * 0 == 0)
                by (nonlinear_arith);
        }
        ctx.apply(
            windows[windows.len() - 1],
            ClientOp::Update(
                Position::new(
                    x,
                    y,
                    saturating_diff(half_width, gap),
                    saturating_diff(screen_position.height, gap),
                ),
            ),
        );
    }

    fn retile_with_master_grid(
        windows: &[usize],
        gap: u16,
        screen_position: Position,
        master_is_left: bool,
        ctx: &mut Context,
    )
        requires
            windows@.len() >= 2,
            old(ctx).wf(),
        ensures
            final(ctx).wf(),
            final(ctx)@ == old(ctx)@.run(
                master_grid_plan(windows@, gap, screen_position, master_is_left),
            ),
    {
        let half_width = screen_position.width / 2;
        let len = windows.len() - 1;
        Self::place_master(windows, gap, screen_position, master_is_left, ctx);
        let side_x = if master_is_left {
            offset_by(screen_position.x, 0, 1, half_width)
        } else {
            screen_position.x
        };
        proof {
            assert(1 * half_width == half_width as int) by (nonlinear_arith);
        }
        let side = Position::new(side_x, screen_position.y, half_width, screen_position.height);
        assert(side == side_half(screen_position, master_is_left));
        let others = &windows[0..len];
        assert(others@ =~= windows@.drop_last());
        Self::retile_grid(others, gap, side, ctx);
        proof {
            old(ctx)@.lemma_run_concat(
                seq![master_step(windows@, gap, screen_position, master_is_left)],
                grid_plan(windows@.drop_last(), gap, side),
            );
        }
    }

    fn retile_monocle(windows: &[usize], gap: u16, screen_position: Position, ctx: &mut Context)
        requires
            windows@.len() >= 1,
            old(ctx).wf(),
        ensures
            final(ctx).wf(),
            final(ctx)@ == old(ctx)@.run(monocle_plan(windows@, gap, screen_position)),
    {
        let len = windows.len() - 1;
        let x = offset_by(screen_position.x, gap / 2, 0, 0);
        let y = offset_by(screen_position.y, gap / 2, 0, 0);
        let ghost plan = monocle_plan(windows@, gap, screen_position);
        proof {
            assert(0 * 0 == 0) by (nonlinear_arith);
            ctx@.lemma_run_nothing();
            assert(plan.take(0) =~= Seq::<Step>::empty());
        }
        for i in 0..len
            invariant
                ctx.wf(),
                ctx@ == old(ctx)@.run(plan.take(i as int)),
                len == windows@.len() - 1,
                plan == monocle_plan(windows@, gap, screen_position),
                x == clip16(screen_position.x + gap / 2),
                y == clip16(screen_position.y + gap / 2),
        {
            ctx.apply(windows[i], ClientOp::Update(Position::new(x, y, PARKED_SIZE, PARKED_SIZE)));
            proof {
                lemma_run_next(old(ctx)@, plan, i as int);
            }
        }
        ctx.apply(
            windows[len],
            ClientOp::Update(
                Position::new(
                    x,
                    y,
                    saturating_diff(screen_position.width, gap),
                    saturating_diff(screen_position.height, gap),
                ),
            ),
        );
        proof {
            lemma_run_next(old(ctx)@, plan, len as int);
            assert(plan.take(len + 1) =~= plan);
        }
    }

    /// Gives each client of `windows` its rectangle in `pos` and sends it.
    /// Nothing is done for an empty list, and a single window gets the whole
    /// of `pos`.
    pub fn retile(self, windows: &[usize], gap: u16, pos: Position, ctx: &mut Context)
        requires
            old(ctx).wf(),
        ensures
            final(ctx).wf(),
            final(ctx)@ == old(ctx)@.run(self.plan(windows@, gap, pos)),
    {
        if windows.len() < 1 {
            proof {
                ctx@.lemma_run_nothing();
            }
            return ;
        } else if windows.len() == 1 {
            let x = offset_by(pos.x, gap / 2, 0, 0);
            let y = offset_by(pos.y, gap / 2, 0, 0);
            proof {
                assert(0 * 0 == 0) by (nonlinear_arith);
            }
            ctx.apply(
                windows[0],
                ClientOp::Update(
                    Position::new(
                        x,
                        y,
                        saturating_diff(pos.width, gap),
                        saturating_diff(pos.height, gap),
                    ),
                ),
            );
            return ;
        }
        match self {
            Layout::Grid => Self::retile_grid(windows, gap, pos, ctx),
            Layout::MasterLeft => Self::retile_with_master(windows, gap, pos, true, ctx),
            Layout::MasterRight => Self::retile_with_master(windows, gap, pos, false, ctx),
            Layout::MasterLeftGrid => Self::retile_with_master_grid(windows, gap, pos, true, ctx),
            Layout::MasterRightGrid => Self::retile_with_master_grid(windows, gap, pos, false, ctx),
            Layout::Monocle => Self::retile_monocle(windows, gap, pos, ctx),
        }
    }
}

/// The rectangle that `step` gives its client.
pub open spec fn rect_of(step: Step) -> Position {
    match step.op {
        ClientOp::Update(p) => p,
        _ => Position { x: 0, y: 0, width: 0, height: 0 },
    }
}

/// `count` cells of size `extent / count` fit into `extent`: cell `index`
/// ends at or before `extent`.
pub proof fn lemma_cell_span(index: int, count: int, extent: int)
    requires
        0 <= index < count,
        0 <= extent,
    ensures
        0 <= index * (extent / count),
        (index + 1) * (extent / count) <= extent,
        index * (extent / count) + extent / count == (index + 1) * (extent / count),
{
    let size = extent / count;
    lemma_fundamental_div_mod(extent, count);
    assert(0 <= extent % count < count);
    assert(size >= 0 && 0 <= index * size && (index + 1) * size <= extent && index * size + size
        == (index + 1) * size) by (nonlinear_arith)
        requires
            extent == count * size + extent % count,
            0 <= extent % count < count,
            0 <= index < count,
            0 <= extent,
    ;
}

/// Cell `k` of `n` lies in a column and in a row of the grid.
pub proof fn lemma_cell_place(k: int, n: int)
    requires
        0 <= k < n,
    ensures
        0 <= k % (grid_cols(n as nat) as int) < grid_cols(n as nat),
        0 <= k / (grid_cols(n as nat) as int) < grid_rows(n as nat),
{
    lemma_grid_dimensions(n as nat);
    let c = grid_cols(n as nat) as int;
    lemma_fundamental_div_mod(k, c);
    lemma_fundamental_div_mod(n - 1, c);
    let a = k / c;
    let b = (n - 1) / c;
    assert(0 <= a <= b) by (nonlinear_arith)
        requires
            k == c * a + k % c,
            n - 1 == c * b + (n - 1) % c,
            0 <= k % c < c,
            0 <= (n - 1) % c < c,
            0 <= k <= n - 1,
            c >= 1,
    ;
}

/// Where the gap is smaller than a cell, every cell of a grid has pixels and
/// lies within the rectangle of the grid, half a gap from its edges, and no
/// coordinate is cut off.
pub proof fn lemma_grid_cell_within(k: int, n: int, gap: u16, pos: Position)
    requires
        0 <= k < n,
        pos.on_screen(),
        gap < pos.width as int / (grid_cols(n as nat) as int),
        gap < pos.height as int / (grid_rows(n as nat) as int),
    ensures
        grid_cell(k, n, gap, pos).is_positive(),
        grid_cell(k, n, gap, pos).within(pos, gap as int / 2),
        grid_cell(k, n, gap, pos).width == pos.width as int / (grid_cols(n as nat) as int) - gap,
        grid_cell(k, n, gap, pos).height == pos.height as int / (grid_rows(n as nat) as int) - gap,
        grid_cell(k, n, gap, pos).x == pos.x + gap / 2 + (k % (grid_cols(n as nat) as int)) * (
        pos.width as int / (grid_cols(n as nat) as int)),
        grid_cell(k, n, gap, pos).y == pos.y + gap / 2 + (k / (grid_cols(n as nat) as int)) * (
        pos.height as int / (grid_rows(n as nat) as int)),
{
    lemma_grid_dimensions(n as nat);
    lemma_cell_place(k, n);
    let cols = grid_cols(n as nat) as int;
    let rows = grid_rows(n as nat) as int;
    lemma_cell_span(k % cols, cols, pos.width as int);
    lemma_cell_span(k / cols, rows, pos.height as int);
}

/// The grid has as many columns as the square root of the number of windows,
/// rounded up, and as many rows as that number over the number of columns,
/// rounded up; and the cells go to the handles in the reverse of their order.
pub proof fn law_grid_symmetry(handles: Seq<usize>, gap: u16, pos: Position, k: int)
    requires
        0 <= k < handles.len(),
    ensures
        grid_cols(handles.len()) * grid_cols(handles.len()) >= handles.len(),
        (grid_cols(handles.len()) - 1) * (grid_cols(handles.len()) - 1) < handles.len(),
        grid_rows(handles.len()) * grid_cols(handles.len()) >= handles.len(),
        (grid_rows(handles.len()) - 1) * grid_cols(handles.len()) < handles.len(),
        grid_plan(handles, gap, pos).len() == handles.len(),
        grid_plan(handles, gap, pos)[k].handle == handles[handles.len() - 1 - k],
        rect_of(grid_plan(handles, gap, pos)[k]) == grid_cell(k, handles.len() as int, gap, pos),
{
    lemma_grid_dimensions(handles.len());
}

/// With a master and a stack, where the gap is smaller than half the width
/// and than the height of a stacked window: the last handle is the master,
/// the master and each stacked window are as wide as half the rectangle less
/// the gap, and every window has pixels and lies within the rectangle, half a
/// gap from its edges.
pub proof fn law_master_coverage(
    handles: Seq<usize>,
    gap: u16,
    pos: Position,
    master_is_left: bool,
    k: int,
)
    requires
        handles.len() >= 2,
        0 <= k < handles.len(),
        pos.on_screen(),
        gap < pos.width as int / 2,
        gap < pos.height as int / (handles.len() - 1),
    ensures
        master_plan(handles, gap, pos, master_is_left).len() == handles.len(),
        master_plan(handles, gap, pos, master_is_left)[0].handle == handles.last(),
        master_plan(handles, gap, pos, master_is_left)[k].handle == handles[handles.len() - 1 - k],
        rect_of(master_plan(handles, gap, pos, master_is_left)[k]).width == pos.width as int / 2
            - gap,
        rect_of(master_plan(handles, gap, pos, master_is_left)[k]).is_positive(),
        rect_of(master_plan(handles, gap, pos, master_is_left)[k]).within(pos, gap as int / 2),
        k == 0 ==> rect_of(master_plan(handles, gap, pos, master_is_left)[k]).x == pos.x + gap / 2
            + if master_is_left {
            0
        } else {
            pos.width as int / 2
        },
        k > 0 ==> rect_of(master_plan(handles, gap, pos, master_is_left)[k]).x == pos.x + gap / 2
            + if master_is_left {
            pos.width as int / 2
        } else {
            0
        },
{
    let m = handles.len() - 1;
    if k > 0 {
        lemma_cell_span(k - 1, m, pos.height as int);
    } else {
        lemma_cell_span(0, m, pos.height as int);
    }
}

/// With a master and a grid, where the gap is smaller than a cell of the
/// grid: the last handle is the master, which is as wide as half the
/// rectangle less the gap; every other window lies within the other half,
/// half a gap from its edges, in its column of the grid, and is as wide as a
/// column less the gap; and every window has pixels and lies within the
/// rectangle, half a gap from its edges.
pub proof fn law_master_grid_coverage(
    handles: Seq<usize>,
    gap: u16,
    pos: Position,
    master_is_left: bool,
    k: int,
)
    requires
        handles.len() >= 2,
        0 <= k < handles.len(),
        pos.on_screen(),
        gap < (pos.width as int / 2) / (grid_cols((handles.len() - 1) as nat) as int),
        gap < pos.height as int / (grid_rows((handles.len() - 1) as nat) as int),
    ensures
        master_grid_plan(handles, gap, pos, master_is_left).len() == handles.len(),
        master_grid_plan(handles, gap, pos, master_is_left)[0].handle == handles.last(),
        master_grid_plan(handles, gap, pos, master_is_left)[k].handle == handles[handles.len() - 1
            - k],
        rect_of(master_grid_plan(handles, gap, pos, master_is_left)[0]).width == pos.width as int
            / 2 - gap,
        k > 0 ==> rect_of(master_grid_plan(handles, gap, pos, master_is_left)[k]).within(
            side_half(pos, master_is_left),
            gap as int / 2,
        ),
        k > 0 ==> rect_of(master_grid_plan(handles, gap, pos, master_is_left)[k]).width == (
        pos.width as int / 2) / (grid_cols((handles.len() - 1) as nat) as int) - gap,
        k > 0 ==> rect_of(master_grid_plan(handles, gap, pos, master_is_left)[k]).x == side_half(
            pos,
            master_is_left,
        ).x + gap / 2 + ((k - 1) % (grid_cols((handles.len() - 1) as nat) as int)) * ((
        pos.width as int / 2) / (grid_cols((handles.len() - 1) as nat) as int)),
        rect_of(master_grid_plan(handles, gap, pos, master_is_left)[k]).is_positive(),
        rect_of(master_grid_plan(handles, gap, pos, master_is_left)[k]).within(pos, gap as int / 2),
{
    let m = handles.len() - 1;
    let side = side_half(pos, master_is_left);
    lemma_grid_dimensions(m as nat);
    let cols = grid_cols(m as nat) as int;
    let rows = grid_rows(m as nat) as int;
    let half = pos.width as int / 2;
    lemma_cell_span(0, cols, half);
    lemma_cell_span(0, rows, pos.height as int);
    assert(gap < half && gap < pos.height) by (nonlinear_arith)
        requires
            gap < half / cols,
            gap < pos.height as int / rows,
            1 * (half / cols) <= half,
            1 * (pos.height as int / rows) <= pos.height,
    ;
    if k > 0 {
        lemma_grid_cell_within(k - 1, m, gap, side);
    }
}

/// Under monocle the last handle gets the whole rectangle less the gap, and
/// every other handle is parked, 30 by 30, half a gap from the corner of the
/// rectangle. Unless the whole rectangle happens to be 30 by 30 itself,
/// exactly one window has the full size.
pub proof fn law_monocle_focus(handles: Seq<usize>, gap: u16, pos: Position, k: int)
    requires
        0 <= k < handles.len(),
    ensures
        monocle_plan(handles, gap, pos).len() == handles.len(),
        monocle_plan(handles, gap, pos)[k].handle == handles[k],
        k == handles.len() - 1 ==> rect_of(monocle_plan(handles, gap, pos)[k]) == full_rect(
            gap,
            pos,
        ),
        k < handles.len() - 1 ==> rect_of(monocle_plan(handles, gap, pos)[k]) == parked_rect(
            gap,
            pos,
        ),
        parked_rect(gap, pos).width == 30 && parked_rect(gap, pos).height == 30,
        pos.x + gap / 2 <= 0xffff ==> parked_rect(gap, pos).x == pos.x + gap / 2 && full_rect(
            gap,
            pos,
        ).x == pos.x + gap / 2,
        pos.y + gap / 2 <= 0xffff ==> parked_rect(gap, pos).y == pos.y + gap / 2 && full_rect(
            gap,
            pos,
        ).y == pos.y + gap / 2,
        full_rect(gap, pos).width == sat_sub(pos.width as int, gap as int),
        full_rect(gap, pos).height == sat_sub(pos.height as int, gap as int),
        (full_rect(gap, pos).width != 30 || full_rect(gap, pos).height != 30) ==> (rect_of(
            monocle_plan(handles, gap, pos)[k],
        ).width == full_rect(gap, pos).width && rect_of(
            monocle_plan(handles, gap, pos)[k],
        ).height == full_rect(gap, pos).height <==> k == handles.len() - 1),
{
}

/// The place in the list of handles of the handle that step `k` of a plan for
/// `n` handles is for: monocle goes through the handles in their order, every
/// other layout in the reverse of it.
pub open spec fn turn(layout: Layout, n: int, k: int) -> int {
    if n >= 2 && layout == Layout::Monocle {
        k
    } else {
        n - 1 - k
    }
}

/// A plan has one step for each handle, and each step gives a rectangle.
pub proof fn lemma_plan_steps(layout: Layout, handles: Seq<usize>, gap: u16, pos: Position, k: int)
    requires
        0 <= k < handles.len(),
    ensures
        layout.plan(handles, gap, pos).len() == handles.len(),
        0 <= turn(layout, handles.len() as int, k) < handles.len(),
        layout.plan(handles, gap, pos)[k].handle == handles[turn(layout, handles.len() as int, k)],
        layout.plan(handles, gap, pos)[k].op == ClientOp::Update(
            rect_of(layout.plan(handles, gap, pos)[k]),
        ),
{
}

/// After the windows of a list without duplicates were tiled, each client of
/// the list has the rectangle that the plan of the layout gives it.
pub proof fn law_plan_places(
    layout: Layout,
    handles: Seq<usize>,
    gap: u16,
    pos: Position,
    clients: Seq<Option<Client>>,
    k: int,
)
    requires
        handles.no_duplicates(),
        0 <= k < handles.len(),
        slot(clients, layout.plan(handles, gap, pos)[k].handle as int) is Some,
    ensures
        slot(
            run_clients(clients, layout.plan(handles, gap, pos)),
            layout.plan(handles, gap, pos)[k].handle as int,
        ) is Some,
        slot(
            run_clients(clients, layout.plan(handles, gap, pos)),
            layout.plan(handles, gap, pos)[k].handle as int,
        ).unwrap().geometry() == rect_of(layout.plan(handles, gap, pos)[k]),
{
    let plan = layout.plan(handles, gap, pos);
    let n = handles.len() as int;
    lemma_plan_steps(layout, handles, gap, pos, k);
    assert forall|j: int| 0 <= j < plan.len() && j != k implies (#[trigger] plan[j]).handle
        != plan[k].handle by {
        lemma_plan_steps(layout, handles, gap, pos, j);
        assert(turn(layout, n, j) != turn(layout, n, k));
    }
    lemma_run_single_step(clients, plan, k);
}

} // verus!
