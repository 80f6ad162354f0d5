//! Editor-level state: the load state, the grid settings of the side
//! panel, the cell-features panel, and routing one click to the painter or
//! the inspector.
use vstd::prelude::*;

use crate::geometry::Point;
use crate::grid::{apply_commands, commands_ok, hit, paint_step, GridModel, RenderCommand, ResizeEvent};
use crate::input::ClickEvent;
use crate::paint::brush_kind;
use crate::registry::AtlasRegistry;
use crate::selection::Selection;

verus! {

/// Whether the catalog has been loaded yet.
#[derive(Clone, Copy, Debug, PartialEq, Eq, Structural)]
pub enum AppState {
    Loading,
    Painting,
}

impl AppState {
    /// The state after a catalog load that succeeded or not: a successful
    /// load moves `Loading` to `Painting`; nothing else changes the state.
    pub fn after_load(self, loaded: bool) -> (r: AppState)
        ensures
            r == (if loaded { AppState::Painting } else { self }),
    {
        if loaded {
            AppState::Painting
        } else {
            self
        }
    }
}

/// The grid dimensions edited in the side panel, sent on "Apply".
#[derive(Clone, Copy, Debug, PartialEq, Eq, Structural)]
pub struct GridSettings {
    pub tile_size: u32,
    pub grid_width: u32,
    pub grid_height: u32,
}

impl Default for GridSettings {
    /// Six columns and four rows of 64-unit cells.
    fn default() -> (r: GridSettings)
        ensures
            r == (GridSettings { tile_size: 64, grid_width: 6, grid_height: 4 }),
    {
        GridSettings { tile_size: 64, grid_width: 6, grid_height: 4 }
    }
}

impl From<GridSettings> for ResizeEvent {
    fn from(value: GridSettings) -> (r: ResizeEvent) {
        ResizeEvent {
            tile_size: value.tile_size,
            grid_width: value.grid_width,
            grid_height: value.grid_height,
        }
    }
}

impl vstd::std_specs::convert::FromSpecImpl<GridSettings> for ResizeEvent {
    open spec fn obeys_from_spec() -> bool {
        true
    }

    open spec fn from_spec(value: GridSettings) -> ResizeEvent {
        ResizeEvent {
            tile_size: value.tile_size,
            grid_width: value.grid_width,
            grid_height: value.grid_height,
        }
    }
}

/// The panel that shows a cell's features; a secondary click on a cell
/// opens it.
#[derive(Clone, Copy, Debug, PartialEq, Eq, Structural)]
pub struct FeaturePanel {
    pub open: bool,
}

impl FeaturePanel {
    /// Opens the panel when some cell holds `p`, and returns that cell.
    pub fn inspect(&mut self, grid: &GridModel, p: Point) -> (r: Option<usize>)
        ensures
            r matches Some(i) ==> hit(grid.cells@, p) == Some(i as int),
            r is None <==> hit(grid.cells@, p) is None,
            final(self).open == (old(self).open || r is Some),
    {
        let r = grid.find_cell(p);
        if r.is_some() {
            self.open = true;
        }
        r
    }
}

/// Routes one click: a primary click paints the active brush, a secondary
/// click inspects the cell under it and issues no command.
pub fn handle_click(
    grid: &mut GridModel,
    panel: &mut FeaturePanel,
    sel: &Selection,
    reg: &AtlasRegistry,
    click: ClickEvent,
) -> (cmds: Vec<RenderCommand>)
    requires
        old(grid).wf(),
        old(grid).next_visual < u64::MAX,
        reg.wf(),
    ensures
        final(grid).wf(),
        commands_ok(old(grid).owned_visuals(), cmds@),
        apply_commands(old(grid).owned_visuals(), cmds@) == final(grid).owned_visuals(),
        match click {
            ClickEvent::LeftClick(p) => {
                &&& paint_step(*old(grid), p, brush_kind(*sel, *reg), *final(grid), cmds@)
                &&& *final(panel) == *old(panel)
            },
            ClickEvent::RightClick(p) => {
                &&& *final(grid) == *old(grid)
                &&& cmds@.len() == 0
                &&& final(panel).open == (old(panel).open || hit(old(grid).cells@, p) is Some)
            },
        },
{
    match click {
        ClickEvent::LeftClick(p) => grid.paint(p, sel, reg),
        ClickEvent::RightClick(p) => {
            panel.inspect(grid, p);
            let cmds: Vec<RenderCommand> = Vec::new();
            proof {
                assert(cmds@ =~= Seq::<RenderCommand>::empty());
            }
            cmds
        },
    }
}

} // verus!
