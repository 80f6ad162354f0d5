//! The grid model: a row-major arrangement of cells centred on the origin,
//! each owning exactly one visual, and the render commands that keep a
//! renderer's live visuals in step with the cells.
use vstd::prelude::*;

use crate::geometry::{Point, Rect};

verus! {

/// A request to lay the grid out anew: `grid_width` columns and
/// `grid_height` rows of square cells with side `tile_size`.
#[derive(Clone, Copy, Debug, PartialEq, Eq, Structural)]
pub struct ResizeEvent {
    pub tile_size: u32,
    pub grid_width: u32,
    pub grid_height: u32,
}

impl ResizeEvent {
    /// The width of the enclosing rectangle.
    pub open spec fn width(self) -> int {
        self.tile_size * self.grid_width
    }

    /// The height of the enclosing rectangle.
    pub open spec fn height(self) -> int {
        self.tile_size * self.grid_height
    }

    /// The number of cells.
    pub open spec fn cell_count(self) -> int {
        self.grid_width * self.grid_height
    }

    /// Half the width, rounded down: the rectangle spans `-half_width ..= width - half_width`.
    pub open spec fn half_width(self) -> int {
        self.width() / 2
    }

    /// Half the height, rounded down.
    pub open spec fn half_height(self) -> int {
        self.height() / 2
    }

    /// The enclosing rectangle's coordinates fit an `i64` and the cells can
    /// be counted in a `usize`.
    pub open spec fn fits(self) -> bool {
        &&& self.width() <= i64::MAX
        &&& self.height() <= i64::MAX
        &&& self.cell_count() <= usize::MAX
    }

    /// Every cell has positive size and there is at least one.
    pub open spec fn nonempty(self) -> bool {
        &&& self.tile_size >= 1
        &&& self.grid_width >= 1
        &&& self.grid_height >= 1
    }

    /// `p` lies in the enclosing rectangle, edges included.
    pub open spec fn encloses(self, p: Point) -> bool {
        &&& -self.half_width() <= p.x <= self.width() - self.half_width()
        &&& -self.half_height() <= p.y <= self.height() - self.half_height()
    }

    /// `r` is the bounds of the cell in column `x` and row `y`.
    pub open spec fn cell_rect(self, x: int, y: int, r: Rect) -> bool {
        &&& r.min_x == x * self.tile_size - self.half_width()
        &&& r.max_x == (x + 1) * self.tile_size - self.half_width()
        &&& r.min_y == y * self.tile_size - self.half_height()
        &&& r.max_y == (y + 1) * self.tile_size - self.half_height()
    }

    /// `r` is the bounds of the cell at row-major position `i`.
    pub open spec fn cell_at(self, i: int, r: Rect) -> bool {
        self.cell_rect(i % (self.grid_width as int), i / (self.grid_width as int), r)
    }
}

/// A texture cut from an atlas: the atlas and the sub-tile index.
#[derive(Clone, Copy, Debug, PartialEq, Eq)]
pub struct AtlasTexture {
    pub atlas: u64,
    pub index: usize,
}

/// What a visual shows.
#[derive(Clone, Copy, Debug, PartialEq, Eq)]
pub enum VisualKind {
    /// The blank quad of a cell that was never painted.
    Placeholder,
    /// A painted tile, cut from an atlas or untextured.
    Sprite(Option<AtlasTexture>),
}

/// A renderable item; `id` is its identity with the renderer.
#[derive(Clone, Copy, Debug, PartialEq, Eq)]
pub struct Visual {
    pub id: u64,
    pub kind: VisualKind,
    pub bounds: Rect,
}

/// An instruction to the renderer.
#[derive(Clone, Copy, Debug, PartialEq, Eq)]
pub enum RenderCommand {
    /// Destroy the visual with this id.
    Despawn(u64),
    /// Create this visual.
    Spawn(Visual),
}

/// One cell of the grid and the visual that occupies it.
#[derive(Clone, Copy, Debug, PartialEq, Eq)]
pub struct GridCell {
    pub bounds: Rect,
    pub visual: Visual,
}

/// The ids of the visuals of `cells`.
pub open spec fn visual_ids(cells: Seq<GridCell>) -> Set<u64> {
    Set::new(|id: u64| exists|i: int| 0 <= i < cells.len() && cells[i].visual.id == id)
}

/// The ids of the visuals of `cells[from..]`.
pub open spec fn visual_ids_from(cells: Seq<GridCell>, from: int) -> Set<u64> {
    Set::new(|id: u64| exists|i: int| from <= i < cells.len() && cells[i].visual.id == id)
}

/// The live visuals after one command.
pub open spec fn apply_command(live: Set<u64>, c: RenderCommand) -> Set<u64> {
    match c {
        RenderCommand::Despawn(id) => live.remove(id),
        RenderCommand::Spawn(v) => live.insert(v.id),
    }
}

/// A command destroys a live visual or creates one whose id is not live.
pub open spec fn command_ok(live: Set<u64>, c: RenderCommand) -> bool {
    match c {
        RenderCommand::Despawn(id) => live.contains(id),
        RenderCommand::Spawn(v) => !live.contains(v.id),
    }
}

/// The live visuals after the commands, in order.
pub open spec fn apply_commands(live: Set<u64>, cmds: Seq<RenderCommand>) -> Set<u64>
    decreases cmds.len(),
{
    if cmds.len() == 0 {
        live
    } else {
        apply_command(apply_commands(live, cmds.drop_last()), cmds.last())
    }
}

/// No command destroys a visual that is not live, nor creates one twice.
pub open spec fn commands_ok(live: Set<u64>, cmds: Seq<RenderCommand>) -> bool
    decreases cmds.len(),
{
    if cmds.len() == 0 {
        true
    } else {
        &&& commands_ok(live, cmds.drop_last())
        &&& command_ok(apply_commands(live, cmds.drop_last()), cmds.last())
    }
}

/// Appending one command.
proof fn lemma_commands_push(live: Set<u64>, cmds: Seq<RenderCommand>, c: RenderCommand)
    ensures
        apply_commands(live, cmds.push(c)) == apply_command(apply_commands(live, cmds), c),
        commands_ok(live, cmds.push(c)) == (commands_ok(live, cmds) && command_ok(
            apply_commands(live, cmds),
            c,
        )),
{
    assert(cmds.push(c).drop_last() =~= cmds);
}

/// Running two batches of commands one after the other is running their
/// concatenation.
pub proof fn lemma_commands_concat(live: Set<u64>, a: Seq<RenderCommand>, b: Seq<RenderCommand>)
    ensures
        apply_commands(live, a + b) == apply_commands(apply_commands(live, a), b),
        commands_ok(live, a + b) == (commands_ok(live, a) && commands_ok(
            apply_commands(live, a),
            b,
        )),
    decreases b.len(),
{
    if b.len() == 0 {
        assert(a + b =~= a);
    } else {
        let b0 = b.drop_last();
        lemma_commands_concat(live, a, b0);
        assert((a + b0).push(b.last()) =~= a + b);
        assert(b0.push(b.last()) =~= b);
        lemma_commands_push(live, a + b0, b.last());
        lemma_commands_push(apply_commands(live, a), b0, b.last());
    }
}

/// The grid: its dimensions, its cells in row-major order, and the next
/// fresh visual id.
#[derive(Clone, Debug)]
pub struct GridModel {
    pub size: ResizeEvent,
    pub cells: Vec<GridCell>,
    pub next_visual: u64,
}

impl GridModel {
    /// The cells tile the grid as `size` says, each visual sits on its cell,
    /// and visual ids are distinct and below `next_visual`.
    pub open spec fn wf(self) -> bool {
        &&& self.size.fits()
        &&& self.cells@.len() == self.size.cell_count()
        &&& forall|i: int|
            0 <= i < self.cells@.len() ==> self.size.cell_at(i, (#[trigger] self.cells@[i]).bounds)
        &&& forall|i: int|
            0 <= i < self.cells@.len() ==> (#[trigger] self.cells@[i]).visual.bounds
                == self.cells@[i].bounds
        &&& forall|i: int|
            0 <= i < self.cells@.len() ==> (#[trigger] self.cells@[i]).visual.id < self.next_visual
        &&& forall|i: int, j: int|
            0 <= i < self.cells@.len() && 0 <= j < self.cells@.len() && i != j
                ==> (#[trigger] self.cells@[i]).visual.id != (#[trigger] self.cells@[j]).visual.id
    }

    /// The ids of the visuals that the grid owns.
    pub open spec fn owned_visuals(self) -> Set<u64> {
        visual_ids(self.cells@)
    }

    /// A grid with no cells.
    pub fn empty() -> (r: GridModel)
        ensures
            r.wf(),
            r.cells@.len() == 0,
            r.next_visual == 0,
            r.size == (ResizeEvent { tile_size: 0, grid_width: 0, grid_height: 0 }),
    {
        GridModel {
            size: ResizeEvent { tile_size: 0, grid_width: 0, grid_height: 0 },
            cells: Vec::new(),
            next_visual: 0,
        }
    }

    /// How many visuals can still be given a fresh id.
    pub fn ids_left(&self) -> (r: u64)
        ensures
            r == u64::MAX - self.next_visual,
    {
        u64::MAX - self.next_visual
    }
}

/// The ids of the visuals of `cells[..upto]`.
spec fn visual_ids_before(cells: Seq<GridCell>, upto: int) -> Set<u64> {
    Set::new(|id: u64| exists|i: int| 0 <= i < upto && cells[i].visual.id == id)
}

/// Along one axis, the `k`-th of `count` cells of side `ts` lies within
/// `0 ..= count * ts`.
pub(crate) proof fn lemma_axis(k: int, count: int, ts: int)
    requires
        0 <= k < count,
        ts >= 0,
    ensures
        0 <= k * ts,
        k * ts + ts == (k + 1) * ts,
        (k + 1) * ts <= count * ts,
{
    assert(0 <= k * ts) by (nonlinear_arith)
        requires
            0 <= k,
            ts >= 0,
    ;
    assert((k + 1) * ts <= count * ts) by (nonlinear_arith)
        requires
            k + 1 <= count,
            ts >= 0,
    ;
    assert(k * ts + ts == (k + 1) * ts) by (nonlinear_arith);
}

/// Row-major position `i` of a grid with `cols` columns and `rows` rows
/// has its column below `cols` and its row below `rows`.
pub(crate) proof fn lemma_position(i: int, cols: int, rows: int)
    requires
        0 <= i < cols * rows,
        cols > 0,
    ensures
        0 <= i % cols < cols,
        0 <= i / cols < rows,
        i == (i / cols) * cols + i % cols,
{
    vstd::arithmetic::div_mod::lemma_fundamental_div_mod(i, cols);
    vstd::arithmetic::div_mod::lemma_mod_bound(i, cols);
    vstd::arithmetic::div_mod::lemma_div_pos_is_pos(i, cols);
    let q = i / cols;
    if q >= rows {
        assert(cols * q >= cols * rows) by (nonlinear_arith)
            requires
                q >= rows,
                cols > 0,
        ;
    }
    assert(cols * q == q * cols) by (nonlinear_arith);
}

/// Fresh cells laid out as `s` says, each holding a placeholder visual with
/// id `base + i`.
fn layout(s: ResizeEvent, base: u64) -> (cells: Vec<GridCell>)
    requires
        s.fits(),
        base + s.cell_count() <= u64::MAX,
    ensures
        cells@.len() == s.cell_count(),
        forall|i: int|
            0 <= i < cells@.len() ==> {
                &&& s.cell_at(i, (#[trigger] cells@[i]).bounds)
                &&& cells@[i].visual == (Visual {
                    id: (base + i) as u64,
                    kind: VisualKind::Placeholder,
                    bounds: cells@[i].bounds,
                })
            },
{
    let cols: usize = s.grid_width as usize;
    let n: usize = cols * (s.grid_height as usize);
    let ts: i64 = s.tile_size as i64;
    let w: i64 = ts * (s.grid_width as i64);
    let h: i64 = ts * (s.grid_height as i64);
    let hw: i64 = w / 2;
    let hh: i64 = h / 2;
    let mut cells: Vec<GridCell> = Vec::new();
    let mut i: usize = 0;
    while i < n
        invariant
            s.fits(),
            base + s.cell_count() <= u64::MAX,
            cols == s.grid_width,
            n == s.cell_count(),
            ts == s.tile_size,
            w == s.width(),
            h == s.height(),
            hw == s.half_width(),
            hh == s.half_height(),
            0 <= i <= n,
            cells@.len() == i,
            forall|k: int|
                0 <= k < i ==> {
                    &&& s.cell_at(k, (#[trigger] cells@[k]).bounds)
                    &&& cells@[k].visual == (Visual {
                        id: (base + k) as u64,
                        kind: VisualKind::Placeholder,
                        bounds: cells@[k].bounds,
                    })
                },
        decreases n - i,
    {
        proof {
            lemma_position(i as int, cols as int, s.grid_height as int);
            lemma_axis((i % cols) as int, cols as int, ts as int);
            lemma_axis((i / cols) as int, s.grid_height as int, ts as int);
        }
        let x: usize = i % cols;
        let y: usize = i / cols;
        let x0: i64 = (x as i64) * ts;
        let y0: i64 = (y as i64) * ts;
        let bounds = Rect { min_x: x0 - hw, min_y: y0 - hh, max_x: x0 + ts - hw, max_y: y0 + ts - hh };
        let visual = Visual { id: base + (i as u64), kind: VisualKind::Placeholder, bounds };
        cells.push(GridCell { bounds, visual });
        i += 1;
    }
    cells
}

impl GridModel {
    /// Discards every cell and visual and lays out `s` afresh: the commands
    /// destroy each old visual, in cell order, and then create a placeholder
    /// for each new cell, in cell order.
    pub fn resize(&mut self, s: ResizeEvent) -> (cmds: Vec<RenderCommand>)
        requires
            old(self).wf(),
            s.fits(),
            old(self).next_visual + s.cell_count() <= u64::MAX,
        ensures
            final(self).wf(),
            final(self).size == s,
            final(self).next_visual == old(self).next_visual + s.cell_count(),
            forall|i: int|
                0 <= i < final(self).cells@.len() ==> (#[trigger] final(self).cells@[i]).visual.kind
                    == VisualKind::Placeholder && final(self).cells@[i].visual.id
                    == old(self).next_visual + i,
            cmds@.len() == old(self).cells@.len() + final(self).cells@.len(),
            forall|k: int|
                0 <= k < old(self).cells@.len() ==> #[trigger] cmds@[k] == RenderCommand::Despawn(
                    old(self).cells@[k].visual.id,
                ),
            forall|k: int|
                0 <= k < final(self).cells@.len() ==> cmds@[old(self).cells@.len() + k]
                    == RenderCommand::Spawn((#[trigger] final(self).cells@[k]).visual),
            commands_ok(old(self).owned_visuals(), cmds@),
            apply_commands(old(self).owned_visuals(), cmds@) == final(self).owned_visuals(),
            forall|id: u64|
                #[trigger] old(self).owned_visuals().contains(id)
                    ==> !final(self).owned_visuals().contains(id),
    {
        let ghost live0 = self.owned_visuals();
        let ghost olds = self.cells@;
        let mut cmds: Vec<RenderCommand> = Vec::new();
        let n_old = self.cells.len();
        assert(visual_ids_from(olds, 0) =~= live0);
        let mut k: usize = 0;
        while k < n_old
            invariant
                *self == *old(self),
                olds == self.cells@,
                live0 == visual_ids(olds),
                self.wf(),
                n_old == olds.len(),
                0 <= k <= n_old,
                cmds@.len() == k,
                forall|j: int|
                    0 <= j < k ==> #[trigger] cmds@[j] == RenderCommand::Despawn(olds[j].visual.id),
                commands_ok(live0, cmds@),
                apply_commands(live0, cmds@) == visual_ids_from(olds, k as int),
            decreases n_old - k,
        {
            let id = self.cells[k].visual.id;
            proof {
                lemma_commands_push(live0, cmds@, RenderCommand::Despawn(id));
                assert(visual_ids_from(olds, k as int).contains(id));
                assert forall|v: u64|
                    visual_ids_from(olds, k as int).remove(id).contains(v) <==> visual_ids_from(
                        olds,
                        k + 1,
                    ).contains(v) by {
                    if visual_ids_from(olds, k as int).remove(id).contains(v) {
                        let i = choose|i: int| k <= i < olds.len() && olds[i].visual.id == v;
                        assert(i != k);
                    }
                    if visual_ids_from(olds, k + 1).contains(v) {
                        let i = choose|i: int| k + 1 <= i < olds.len() && olds[i].visual.id == v;
                        assert(olds[i].visual.id != olds[k as int].visual.id);
                    }
                }
                assert(visual_ids_from(olds, k as int).remove(id) =~= visual_ids_from(olds, k + 1));
            }
            cmds.push(RenderCommand::Despawn(id));
            k += 1;
        }
        assert(visual_ids_from(olds, n_old as int) =~= Set::empty());
        let base = self.next_visual;
        let cells = layout(s, base);
        assert(visual_ids_before(cells@, 0) =~= Set::empty());
        let mut m: usize = 0;
        while m < cells.len()
            invariant
                *self == *old(self),
                olds == self.cells@,
                n_old == olds.len(),
                base == old(self).next_visual,
                0 <= m <= cells@.len(),
                cmds@.len() == n_old + m,
                forall|j: int|
                    0 <= j < n_old ==> #[trigger] cmds@[j] == RenderCommand::Despawn(olds[j].visual.id),
                forall|j: int|
                    0 <= j < m ==> cmds@[n_old + j] == RenderCommand::Spawn((#[trigger] cells@[j]).visual),
                forall|i: int|
                    0 <= i < cells@.len() ==> (#[trigger] cells@[i]).visual.id == base + i,
                commands_ok(live0, cmds@),
                apply_commands(live0, cmds@) == visual_ids_before(cells@, m as int),
            decreases cells@.len() - m,
        {
            let v = cells[m].visual;
            proof {
                lemma_commands_push(live0, cmds@, RenderCommand::Spawn(v));
                assert(!visual_ids_before(cells@, m as int).contains(v.id));
                assert(visual_ids_before(cells@, m as int).insert(v.id) =~= visual_ids_before(
                    cells@,
                    m + 1,
                ));
            }
            cmds.push(RenderCommand::Spawn(v));
            m += 1;
        }
        assert(visual_ids_before(cells@, cells@.len() as int) =~= visual_ids(cells@));
        self.cells = cells;
        self.size = s;
        self.next_visual = base + (self.cells.len() as u64);
        assert forall|id: u64| #[trigger] live0.contains(id) implies !self.owned_visuals().contains(
            id,
        ) by {
            let i = choose|i: int| 0 <= i < olds.len() && olds[i].visual.id == id;
            assert(olds[i].visual.id < base);
        }
        cmds
    }
}

/// Cell `i` is the first, in cell order, whose bounds hold `p`.
pub open spec fn is_first_hit(cells: Seq<GridCell>, p: Point, i: int) -> bool {
    &&& 0 <= i < cells.len()
    &&& cells[i].bounds.contains_spec(p)
    &&& forall|k: int| 0 <= k < i ==> !(#[trigger] cells[k]).bounds.contains_spec(p)
}

/// Some cell's bounds hold `p`.
pub open spec fn some_cell_holds(cells: Seq<GridCell>, p: Point) -> bool {
    exists|i: int| 0 <= i < cells.len() && (#[trigger] cells[i]).bounds.contains_spec(p)
}

/// The first cell, in cell order, whose bounds hold `p`, if any.
pub open spec fn hit(cells: Seq<GridCell>, p: Point) -> Option<int> {
    if exists|i: int| is_first_hit(cells, p, i) {
        Some(choose|i: int| is_first_hit(cells, p, i))
    } else {
        None
    }
}

/// There is at most one first hit, and there is one exactly when some cell
/// holds the point.
pub proof fn lemma_hit(cells: Seq<GridCell>, p: Point)
    ensures
        forall|i: int| is_first_hit(cells, p, i) <==> hit(cells, p) == Some(i),
        hit(cells, p) is Some <==> some_cell_holds(cells, p),
{
    assert forall|i: int| is_first_hit(cells, p, i) implies hit(cells, p) == Some(i) by {
        let j = choose|j: int| is_first_hit(cells, p, j);
        if j < i {
            assert(!cells[j].bounds.contains_spec(p));
        } else if i < j {
            assert(!cells[i].bounds.contains_spec(p));
        }
    }
    if some_cell_holds(cells, p) {
        let k = choose|k: int| 0 <= k < cells.len() && (#[trigger] cells[k]).bounds.contains_spec(p);
        lemma_first_hit_below(cells, p, k);
    }
}

/// A cell that holds `p` has a first hit at or before it.
proof fn lemma_first_hit_below(cells: Seq<GridCell>, p: Point, k: int)
    requires
        0 <= k < cells.len(),
        cells[k].bounds.contains_spec(p),
    ensures
        exists|i: int| 0 <= i <= k && is_first_hit(cells, p, i),
    decreases k,
{
    if exists|j: int| 0 <= j < k && (#[trigger] cells[j]).bounds.contains_spec(p) {
        let j = choose|j: int| 0 <= j < k && (#[trigger] cells[j]).bounds.contains_spec(p);
        lemma_first_hit_below(cells, p, j);
    } else {
        assert(is_first_hit(cells, p, k));
    }
}

impl GridModel {
    /// The first cell, in cell order, whose bounds hold `p` (edges
    /// included), or `None` when no cell does.
    pub fn find_cell(&self, p: Point) -> (r: Option<usize>)
        ensures
            match r {
                Some(i) => hit(self.cells@, p) == Some(i as int) && is_first_hit(self.cells@, p, i as int),
                None => hit(self.cells@, p) is None && !some_cell_holds(self.cells@, p),
            },
    {
        proof {
            lemma_hit(self.cells@, p);
        }
        let mut i: usize = 0;
        while i < self.cells.len()
            invariant
                0 <= i <= self.cells@.len(),
                forall|k: int| 0 <= k < i ==> !(#[trigger] self.cells@[k]).bounds.contains_spec(p),
            decreases self.cells@.len() - i,
        {
            if self.cells[i].bounds.contains(p) {
                assert(is_first_hit(self.cells@, p, i as int));
                return Some(i);
            }
            i += 1;
        }
        None
    }
}

/// The visual that replaces the one of cell `i`: fresh id, same place.
pub open spec fn replacement(g: GridModel, i: int, kind: VisualKind) -> Visual {
    Visual { id: g.next_visual, kind, bounds: g.cells@[i].bounds }
}

/// `after` is `before` with the visual of cell `i` replaced by one of `kind`.
pub open spec fn replaced(before: GridModel, i: int, kind: VisualKind, after: GridModel) -> bool {
    &&& after.size == before.size
    &&& after.next_visual == before.next_visual + 1
    &&& after.cells@ == before.cells@.update(
        i,
        GridCell { bounds: before.cells@[i].bounds, visual: replacement(before, i, kind) },
    )
}

/// The commands of a replacement: destroy the old visual, then create the new.
pub open spec fn replace_commands(g: GridModel, i: int, kind: VisualKind) -> Seq<RenderCommand> {
    seq![RenderCommand::Despawn(g.cells@[i].visual.id), RenderCommand::Spawn(replacement(g, i, kind))]
}

/// A replacement keeps the grid well formed, and its commands take the
/// renderer from the old visuals to the new ones.
pub proof fn lemma_replace(before: GridModel, i: int, kind: VisualKind, after: GridModel)
    requires
        before.wf(),
        0 <= i < before.cells@.len(),
        before.next_visual < u64::MAX,
        replaced(before, i, kind, after),
    ensures
        after.wf(),
        after.cells@.len() == before.cells@.len(),
        commands_ok(before.owned_visuals(), replace_commands(before, i, kind)),
        apply_commands(before.owned_visuals(), replace_commands(before, i, kind))
            == after.owned_visuals(),
{
    let cmds = replace_commands(before, i, kind);
    let old_id = before.cells@[i].visual.id;
    let new_id = before.next_visual;
    let live = before.owned_visuals();
    let none = Seq::<RenderCommand>::empty();
    assert(cmds =~= none.push(cmds[0]).push(cmds[1]));
    lemma_commands_push(live, none, cmds[0]);
    lemma_commands_push(live, none.push(cmds[0]), cmds[1]);
    assert(apply_commands(live, cmds) == live.remove(old_id).insert(new_id));
    assert(live.contains(old_id));
    assert(!live.remove(old_id).contains(new_id));
    assert forall|v: u64| live.remove(old_id).insert(new_id).contains(v)
        <==> after.owned_visuals().contains(v) by {
        if after.owned_visuals().contains(v) {
            let j = choose|j: int| 0 <= j < after.cells@.len() && after.cells@[j].visual.id == v;
            if j != i {
                assert(before.cells@[j].visual.id != old_id);
            }
        }
        if live.remove(old_id).contains(v) && v != new_id {
            let j = choose|j: int| 0 <= j < before.cells@.len() && before.cells@[j].visual.id == v;
            assert(after.cells@[j].visual.id == v);
        }
        if v == new_id {
            assert(after.cells@[i].visual.id == v);
        }
    }
    assert(live.remove(old_id).insert(new_id) =~= after.owned_visuals());
}

/// What one paint action does to the grid: when `p` lies in a cell and a
/// brush is ready, the first such cell gets a new visual of the brush's kind;
/// otherwise nothing changes and no command is issued.
pub open spec fn paint_step(
    before: GridModel,
    p: Point,
    brush: Option<VisualKind>,
    after: GridModel,
    cmds: Seq<RenderCommand>,
) -> bool {
    match (hit(before.cells@, p), brush) {
        (Some(i), Some(kind)) => {
            &&& replaced(before, i, kind, after)
            &&& cmds == replace_commands(before, i, kind)
        },
        _ => after == before && cmds.len() == 0,
    }
}

/// One paint action keeps the grid well formed and keeps the renderer's
/// live visuals equal to the grid's.
pub proof fn lemma_paint_step(
    before: GridModel,
    p: Point,
    brush: Option<VisualKind>,
    after: GridModel,
    cmds: Seq<RenderCommand>,
)
    requires
        before.wf(),
        before.next_visual < u64::MAX,
        paint_step(before, p, brush, after, cmds),
    ensures
        after.wf(),
        after.size == before.size,
        after.cells@.len() == before.cells@.len(),
        after.next_visual <= before.next_visual + 1,
        commands_ok(before.owned_visuals(), cmds),
        apply_commands(before.owned_visuals(), cmds) == after.owned_visuals(),
{
    lemma_hit(before.cells@, p);
    match (hit(before.cells@, p), brush) {
        (Some(i), Some(kind)) => {
            lemma_replace(before, i, kind, after);
        },
        _ => {
            assert(cmds =~= Seq::<RenderCommand>::empty());
        },
    }
}

/// Painting twice, with any two brushes, leaves exactly one visual per
/// cell: the renderer ends up holding exactly the grid's visuals, no command
/// destroys a visual twice or creates one twice, and when both actions hit
/// the same cell, the first new visual is destroyed before the second is
/// created.
pub proof fn lemma_paint_twice(
    g0: GridModel,
    p1: Point,
    b1: Option<VisualKind>,
    g1: GridModel,
    c1: Seq<RenderCommand>,
    p2: Point,
    b2: Option<VisualKind>,
    g2: GridModel,
    c2: Seq<RenderCommand>,
)
    requires
        g0.wf(),
        g0.next_visual + 2 <= u64::MAX,
        paint_step(g0, p1, b1, g1, c1),
        paint_step(g1, p2, b2, g2, c2),
    ensures
        g2.wf(),
        g2.cells@.len() == g0.cells@.len(),
        commands_ok(g0.owned_visuals(), c1 + c2),
        apply_commands(g0.owned_visuals(), c1 + c2) == g2.owned_visuals(),
        c1.len() == 2 && c2.len() == 2 && hit(g0.cells@, p1) == hit(g1.cells@, p2) ==> {
            &&& c1 + c2 == seq![
                RenderCommand::Despawn(g0.cells@[hit(g0.cells@, p1).unwrap()].visual.id),
                c1[1],
                RenderCommand::Despawn(g1.cells@[hit(g0.cells@, p1).unwrap()].visual.id),
                c2[1],
            ]
            &&& c1[1] == RenderCommand::Spawn(g1.cells@[hit(g0.cells@, p1).unwrap()].visual)
        },
{
    lemma_paint_step(g0, p1, b1, g1, c1);
    lemma_paint_step(g1, p2, b2, g2, c2);
    lemma_commands_concat(g0.owned_visuals(), c1, c2);
    if c1.len() == 2 && c2.len() == 2 && hit(g0.cells@, p1) == hit(g1.cells@, p2) {
        assert(c1 + c2 =~= seq![c1[0], c1[1], c2[0], c2[1]]);
    }
}

impl GridModel {
    /// Replaces the visual of cell `i` by a new one of `kind`, with a fresh
    /// id, on the same bounds; the commands destroy the old visual and then
    /// create the new one.
    pub fn replace_visual(&mut self, i: usize, kind: VisualKind) -> (cmds: Vec<RenderCommand>)
        requires
            old(self).wf(),
            i < old(self).cells@.len(),
            old(self).next_visual < u64::MAX,
        ensures
            replaced(*old(self), i as int, kind, *final(self)),
            cmds@ == replace_commands(*old(self), i as int, kind),
            final(self).wf(),
            commands_ok(old(self).owned_visuals(), cmds@),
            apply_commands(old(self).owned_visuals(), cmds@) == final(self).owned_visuals(),
    {
        let ghost before = *self;
        let bounds = self.cells[i].bounds;
        let old_id = self.cells[i].visual.id;
        let visual = Visual { id: self.next_visual, kind, bounds };
        self.cells.set(i, GridCell { bounds, visual });
        self.next_visual = self.next_visual + 1;
        let mut cmds: Vec<RenderCommand> = Vec::new();
        cmds.push(RenderCommand::Despawn(old_id));
        cmds.push(RenderCommand::Spawn(visual));
        proof {
            assert(cmds@ =~= replace_commands(before, i as int, kind));
            lemma_replace(before, i as int, kind, *self);
        }
        cmds
    }
}

} // verus!
