//! Laws of the grid layout: the cells of a well-formed grid tile the
//! enclosing rectangle exactly, and every point of it is found in a cell.
use vstd::prelude::*;

use crate::geometry::Point;
use crate::grid::{hit, is_first_hit, lemma_axis, lemma_hit, lemma_position, some_cell_holds, GridCell, GridModel};

verus! {

/// `a <= b` scales by a non-negative factor.
proof fn lemma_scale(a: int, b: int, t: int)
    requires
        a <= b,
        t >= 0,
    ensures
        a * t <= b * t,
{
    assert(a * t <= b * t) by (nonlinear_arith)
        requires
            a <= b,
            t >= 0,
    ;
}

/// Column and row of the cell at row-major position `i` of a well-formed grid.
proof fn lemma_cell_axes(g: GridModel, i: int)
    requires
        g.wf(),
        0 <= i < g.cells@.len(),
    ensures
        g.size.grid_width > 0,
        0 <= i % (g.size.grid_width as int) < g.size.grid_width,
        0 <= i / (g.size.grid_width as int) < g.size.grid_height,
        i == (i / (g.size.grid_width as int)) * g.size.grid_width + i % (g.size.grid_width as int),
        0 <= (i % (g.size.grid_width as int)) * g.size.tile_size,
        (i % (g.size.grid_width as int) + 1) * g.size.tile_size <= g.size.width(),
        0 <= (i / (g.size.grid_width as int)) * g.size.tile_size,
        (i / (g.size.grid_width as int) + 1) * g.size.tile_size <= g.size.height(),
        g.cells@[i].bounds.area() == g.size.tile_size * g.size.tile_size,
{
    let s = g.size;
    let cols = s.grid_width as int;
    if cols == 0 {
        assert(s.cell_count() == 0) by (nonlinear_arith)
            requires
                cols == 0,
                s.cell_count() == cols * s.grid_height,
        ;
    }
    lemma_position(i, cols, s.grid_height as int);
    let x = i % cols;
    let y = i / cols;
    lemma_axis(x, cols, s.tile_size as int);
    lemma_axis(y, s.grid_height as int, s.tile_size as int);
    assert(s.cell_at(i, g.cells@[i].bounds));
    assert(s.width() == cols * s.tile_size) by (nonlinear_arith)
        requires
            s.width() == s.tile_size * s.grid_width,
            cols == s.grid_width,
    ;
    assert(s.height() == s.grid_height * s.tile_size) by (nonlinear_arith)
        requires
            s.height() == s.tile_size * s.grid_height,
    ;
}

/// Every cell lies within the enclosing rectangle.
proof fn lemma_cell_within(g: GridModel, i: int, p: Point)
    requires
        g.wf(),
        0 <= i < g.cells@.len(),
        g.cells@[i].bounds.contains_spec(p),
    ensures
        g.size.encloses(p),
{
    lemma_cell_axes(g, i);
}

/// A point strictly inside one cell is in no other cell.
proof fn lemma_interior_exclusive(g: GridModel, i: int, j: int, p: Point)
    requires
        g.wf(),
        0 <= i < g.cells@.len(),
        0 <= j < g.cells@.len(),
        i != j,
        g.cells@[i].bounds.interior_contains(p),
    ensures
        !g.cells@[j].bounds.contains_spec(p),
{
    lemma_cell_axes(g, i);
    lemma_cell_axes(g, j);
    let s = g.size;
    let cols = s.grid_width as int;
    let ts = s.tile_size as int;
    let (xi, yi, xj, yj) = (i % cols, i / cols, j % cols, j / cols);
    assert(s.cell_rect(xi, yi, g.cells@[i].bounds));
    assert(s.cell_rect(xj, yj, g.cells@[j].bounds));
    if xi < xj {
        lemma_scale(xi + 1, xj, ts);
    } else if xj < xi {
        lemma_scale(xj + 1, xi, ts);
    } else if yi < yj {
        lemma_scale(yi + 1, yj, ts);
    } else if yj < yi {
        lemma_scale(yj + 1, yi, ts);
    }
}

/// Every point of the enclosing rectangle of a grid with cells lies in the
/// cell whose column and row are found by dividing by the tile size.
proof fn lemma_point_located(g: GridModel, p: Point) -> (i: int)
    requires
        g.wf(),
        g.size.nonempty(),
        g.size.encloses(p),
    ensures
        0 <= i < g.cells@.len(),
        g.cells@[i].bounds.contains_spec(p),
{
    let s = g.size;
    let cols = s.grid_width as int;
    let rows = s.grid_height as int;
    let ts = s.tile_size as int;
    let x = locate_axis(p.x + s.half_width(), cols, ts);
    let y = locate_axis(p.y + s.half_height(), rows, ts);
    let i = y * cols + x;
    assert(i < cols * rows) by (nonlinear_arith)
        requires
            i == y * cols + x,
            0 <= x < cols,
            0 <= y < rows,
    ;
    assert(0 <= i) by (nonlinear_arith)
        requires
            i == y * cols + x,
            0 <= x,
            0 <= y,
            cols > 0,
    ;
    assert(s.cell_count() == cols * rows);
    vstd::arithmetic::div_mod::lemma_fundamental_div_mod_converse(i, cols, y, x);
    assert(s.cell_at(i, g.cells@[i].bounds));
    assert(s.width() == cols * ts) by (nonlinear_arith)
        requires
            s.width() == ts * cols,
    ;
    assert(s.height() == rows * ts) by (nonlinear_arith)
        requires
            s.height() == ts * rows,
    ;
    i
}

/// For `0 <= u <= count * ts`, the index `k < count` of the segment
/// `k * ts ..= (k + 1) * ts` that holds `u`.
proof fn locate_axis(u: int, count: int, ts: int) -> (k: int)
    requires
        count >= 1,
        ts >= 1,
        0 <= u <= count * ts,
    ensures
        0 <= k < count,
        k * ts <= u <= (k + 1) * ts,
{
    let q = u / ts;
    vstd::arithmetic::div_mod::lemma_fundamental_div_mod(u, ts);
    vstd::arithmetic::div_mod::lemma_mod_bound(u, ts);
    vstd::arithmetic::div_mod::lemma_div_pos_is_pos(u, ts);
    assert(q * ts <= u < (q + 1) * ts) by (nonlinear_arith)
        requires
            u == ts * q + u % ts,
            0 <= u % ts < ts,
    ;
    if q < count {
        q
    } else {
        lemma_scale(count, q, ts);
        assert((count - 1) * ts == count * ts - ts) by (nonlinear_arith);
        count - 1
    }
}

/// The sum of the cells' areas.
pub open spec fn total_area(cells: Seq<GridCell>) -> int
    decreases cells.len(),
{
    if cells.len() == 0 {
        0
    } else {
        total_area(cells.drop_last()) + cells.last().bounds.area()
    }
}

/// The areas of `n` cells of area `a` each add up to `n * a`.
proof fn lemma_total_area(cells: Seq<GridCell>, a: int)
    requires
        forall|i: int| 0 <= i < cells.len() ==> (#[trigger] cells[i]).bounds.area() == a,
    ensures
        total_area(cells) == cells.len() * a,
    decreases cells.len(),
{
    if cells.len() > 0 {
        let front = cells.drop_last();
        assert forall|i: int| 0 <= i < front.len() implies (#[trigger] front[i]).bounds.area() == a by {
            assert(front[i] == cells[i]);
        }
        lemma_total_area(front, a);
        assert(front.len() * a + a == cells.len() * a) by (nonlinear_arith)
            requires
                front.len() + 1 == cells.len(),
        ;
    }
}

/// A well-formed grid has `columns * rows` cells that tile the enclosing
/// rectangle exactly: each cell lies within it, no point strictly inside
/// one cell belongs to another, every point of the rectangle belongs to some
/// cell, and the cells' areas add up to the rectangle's area.
pub proof fn lemma_cells_tile_rectangle(g: GridModel)
    requires
        g.wf(),
    ensures
        g.cells@.len() == g.size.grid_width * g.size.grid_height,
        total_area(g.cells@) == g.size.width() * g.size.height(),
        forall|i: int, p: Point|
            0 <= i < g.cells@.len() && #[trigger] g.cells@[i].bounds.contains_spec(p)
                ==> g.size.encloses(p),
        forall|i: int, j: int, p: Point|
            0 <= i < g.cells@.len() && 0 <= j < g.cells@.len() && i != j
                && #[trigger] g.cells@[i].bounds.interior_contains(p)
                ==> !#[trigger] g.cells@[j].bounds.contains_spec(p),
        g.size.nonempty() ==> forall|p: Point| #[trigger]
            g.size.encloses(p) ==> some_cell_holds(g.cells@, p),
{
    let s = g.size;
    let ts = s.tile_size as int;
    assert forall|i: int| 0 <= i < g.cells@.len() implies (#[trigger] g.cells@[i]).bounds.area()
        == ts * ts by {
        lemma_cell_axes(g, i);
    }
    lemma_total_area(g.cells@, ts * ts);
    assert(s.cell_count() * (ts * ts) == s.width() * s.height()) by (nonlinear_arith)
        requires
            s.cell_count() == s.grid_width * s.grid_height,
            s.width() == ts * s.grid_width,
            s.height() == ts * s.grid_height,
    ;
    assert forall|i: int, p: Point|
        0 <= i < g.cells@.len() && #[trigger] g.cells@[i].bounds.contains_spec(p)
            implies g.size.encloses(p) by {
        lemma_cell_within(g, i, p);
    }
    assert forall|i: int, j: int, p: Point|
        0 <= i < g.cells@.len() && 0 <= j < g.cells@.len() && i != j
            && #[trigger] g.cells@[i].bounds.interior_contains(p)
            implies !#[trigger] g.cells@[j].bounds.contains_spec(p) by {
        lemma_interior_exclusive(g, i, j, p);
    }
    if s.nonempty() {
        assert forall|p: Point| #[trigger] g.size.encloses(p) implies some_cell_holds(g.cells@, p) by {
            let i = lemma_point_located(g, p);
        }
    }
}

/// On a grid with cells, `find_cell` finds a cell exactly for the points
/// of the enclosing rectangle; a point strictly inside a cell is found in
/// that cell and no other cell holds it.
pub proof fn lemma_find_cell_total(g: GridModel, p: Point)
    requires
        g.wf(),
        g.size.nonempty(),
    ensures
        hit(g.cells@, p) is Some <==> g.size.encloses(p),
        forall|i: int|
            0 <= i < g.cells@.len() && #[trigger] g.cells@[i].bounds.interior_contains(p) ==> {
                &&& hit(g.cells@, p) == Some(i)
                &&& forall|j: int|
                    0 <= j < g.cells@.len() && j != i ==> !(#[trigger] g.cells@[j]).bounds.contains_spec(
                        p,
                    )
            },
{
    lemma_hit(g.cells@, p);
    lemma_cells_tile_rectangle(g);
    if hit(g.cells@, p) is Some {
        let i = hit(g.cells@, p).unwrap();
        assert(is_first_hit(g.cells@, p, i));
        lemma_cell_within(g, i, p);
    }
    assert forall|i: int|
        0 <= i < g.cells@.len() && #[trigger] g.cells@[i].bounds.interior_contains(p) implies {
        &&& hit(g.cells@, p) == Some(i)
        &&& forall|j: int|
            0 <= j < g.cells@.len() && j != i ==> !#[trigger] g.cells@[j].bounds.contains_spec(p)
    } by {
        assert forall|j: int| 0 <= j < g.cells@.len() && j != i implies !(#[trigger] g.cells@[
            j
        ]).bounds.contains_spec(p) by {
            lemma_interior_exclusive(g, i, j, p);
        }
        assert(is_first_hit(g.cells@, p, i));
    }
}

} // verus!
