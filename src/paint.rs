//! The painter: stamping the active brush onto the cell under a click.
use vstd::prelude::*;

use crate::geometry::Point;
use crate::grid::{
    hit, is_first_hit, lemma_hit, paint_step, apply_commands, commands_ok, AtlasTexture,
    GridModel, RenderCommand, VisualKind,
};
use crate::registry::AtlasRegistry;
use crate::selection::Selection;

verus! {

/// What the active brush paints, or `None` when it is not ready: no tile is
/// selected, or the tile's atlas is not registered yet. A tile without an
/// atlas paints an untextured sprite; one with an atlas paints the selected
/// sub-tile, the first when no index is selected.
pub open spec fn brush_kind(sel: Selection, reg: AtlasRegistry) -> Option<VisualKind> {
    match sel.tile {
        None => None,
        Some(t) => match t.atlas_definition {
            None => Some(VisualKind::Sprite(None)),
            Some(_) => match reg.handle_for(t.path@) {
                None => None,
                Some(h) => Some(
                    VisualKind::Sprite(
                        Some(
                            AtlasTexture {
                                atlas: h,
                                index: match sel.atlas_index {
                                    Some(i) => i,
                                    None => 0,
                                },
                            },
                        ),
                    ),
                ),
            },
        },
    }
}

/// What the active brush paints, or `None` when it is not ready.
pub fn brush(sel: &Selection, reg: &AtlasRegistry) -> (r: Option<VisualKind>)
    requires
        reg.wf(),
    ensures
        r == brush_kind(*sel, *reg),
{
    match &sel.tile {
        None => None,
        Some(t) => match &t.atlas_definition {
            None => Some(VisualKind::Sprite(None)),
            Some(_) => match reg.get(&t.path) {
                None => None,
                Some(h) => {
                    let index: usize = match sel.atlas_index {
                        Some(i) => i,
                        None => 0,
                    };
                    Some(VisualKind::Sprite(Some(AtlasTexture { atlas: h, index })))
                },
            },
        },
    }
}

impl GridModel {
    /// Paints the active brush onto the first cell that holds `p`: its
    /// visual is destroyed and a new one of the brush's kind created on the
    /// same bounds. Nothing happens when no cell holds `p` or the brush is
    /// not ready.
    pub fn paint(&mut self, p: Point, sel: &Selection, reg: &AtlasRegistry) -> (cmds: Vec<
        RenderCommand,
    >)
        requires
            old(self).wf(),
            old(self).next_visual < u64::MAX,
            reg.wf(),
        ensures
            paint_step(*old(self), p, brush_kind(*sel, *reg), *final(self), cmds@),
            final(self).wf(),
            commands_ok(old(self).owned_visuals(), cmds@),
            apply_commands(old(self).owned_visuals(), cmds@) == final(self).owned_visuals(),
    {
        proof {
            lemma_hit(self.cells@, p);
        }
        let target = self.find_cell(p);
        let kind = brush(sel, reg);
        match (target, kind) {
            (Some(i), Some(k)) => self.replace_visual(i, k),
            _ => {
                let cmds: Vec<RenderCommand> = Vec::new();
                proof {
                    assert(cmds@ =~= Seq::<RenderCommand>::empty());
                }
                cmds
            },
        }
    }
}

/// Selecting a tile that has an atlas, with a sub-index, and then painting
/// a cell gives that cell a visual cut from the tile's atlas at exactly the
/// selected sub-index.
pub proof fn lemma_paint_uses_selected_index(
    g0: GridModel,
    p: Point,
    sel: Selection,
    reg: AtlasRegistry,
    g1: GridModel,
    cmds: Seq<RenderCommand>,
    index: usize,
)
    requires
        sel.tile matches Some(t) && t.atlas_definition is Some && reg.handle_for(t.path@) is Some,
        sel.atlas_index == Some(index),
        paint_step(g0, p, brush_kind(sel, reg), g1, cmds),
        hit(g0.cells@, p) is Some,
    ensures
        ({
            let i = hit(g0.cells@, p).unwrap();
            let t = sel.tile.unwrap();
            &&& g1.cells@[i].visual.kind == VisualKind::Sprite(
                Some(AtlasTexture { atlas: reg.handle_for(t.path@).unwrap(), index }),
            )
            &&& cmds[1] == RenderCommand::Spawn(g1.cells@[i].visual)
        }),
{
    let i = hit(g0.cells@, p).unwrap();
    lemma_hit(g0.cells@, p);
    assert(is_first_hit(g0.cells@, p, i));
    assert(g1.cells@[i] == g0.cells@.update(i, g1.cells@[i])[i]);
}

} // verus!
