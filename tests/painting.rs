use std::collections::HashSet;

use tilemap_editor::catalog::{AtlasDefinition, Size2, Tile, TileDefinition};
use tilemap_editor::editor::{handle_click, FeaturePanel};
use tilemap_editor::geometry::{Point, Rect};
use tilemap_editor::grid::{AtlasTexture, GridModel, RenderCommand, ResizeEvent, Visual, VisualKind};
use tilemap_editor::input::ClickEvent;
use tilemap_editor::paint::brush;
use tilemap_editor::registry::AtlasRegistry;
use tilemap_editor::selection::Selection;

fn grass() -> Tile {
    Tile {
        name: String::from("grass"),
        path: String::from("grass.png"),
        atlas_definition: Some(AtlasDefinition {
            tile_size: Size2 { width: 32, height: 32 },
            columns: 2,
            rows: 1,
            padding: None,
            offset: None,
        }),
    }
}

fn plain(name: &str) -> Tile {
    Tile { name: String::from(name), path: format!("{}.png", name), atlas_definition: None }
}

fn default_grid() -> GridModel {
    let mut g = GridModel::empty();
    g.resize(ResizeEvent { tile_size: 64, grid_width: 6, grid_height: 4 });
    g
}

/// Plays commands on a set of live visual ids, failing on a despawn of a
/// dead id or a spawn of a live one.
fn play(live: &mut HashSet<u64>, cmds: &[RenderCommand]) {
    for c in cmds {
        match c {
            RenderCommand::Despawn(id) => assert!(live.remove(id)),
            RenderCommand::Spawn(v) => assert!(live.insert(v.id)),
        }
    }
}

fn owned(g: &GridModel) -> HashSet<u64> {
    g.cells.iter().map(|c| c.visual.id).collect()
}

#[test]
fn grass_scenario_paints_atlas_index_one_at_origin() {
    let catalog = TileDefinition::from_tiles(vec![grass()]).unwrap();
    let mut reg = AtlasRegistry::new();
    for i in catalog.atlas_tiles() {
        reg.register(catalog.tiles[i].path.clone(), 7);
    }
    let mut sel = Selection::new();
    sel.select(catalog.tiles[0].clone(), Some(1));
    let mut g = default_grid();
    let cmds = g.paint(Point { x: 0, y: 0 }, &sel, &reg);
    let cell = g.find_cell(Point { x: 0, y: 0 }).unwrap();
    assert_eq!(cell, 8);
    let bounds = Rect { min_x: -64, min_y: -64, max_x: 0, max_y: 0 };
    assert_eq!(g.cells[cell].bounds, bounds);
    let painted = Visual {
        id: 24,
        kind: VisualKind::Sprite(Some(AtlasTexture { atlas: 7, index: 1 })),
        bounds,
    };
    assert_eq!(g.cells[cell].visual, painted);
    assert_eq!(cmds, vec![RenderCommand::Despawn(8), RenderCommand::Spawn(painted)]);
}

#[test]
fn click_outside_every_cell_changes_nothing() {
    let mut reg = AtlasRegistry::new();
    reg.register(String::from("grass.png"), 7);
    let mut sel = Selection::new();
    sel.select(grass(), Some(1));
    let mut g = default_grid();
    let before = g.clone();
    for p in [Point { x: 193, y: 0 }, Point { x: 0, y: -129 }, Point { x: -1000, y: 1000 }] {
        assert_eq!(g.find_cell(p), None);
        let cmds = g.paint(p, &sel, &reg);
        assert!(cmds.is_empty());
        assert_eq!(g.cells, before.cells);
        assert_eq!(g.next_visual, before.next_visual);
    }
}

#[test]
fn painting_twice_leaves_one_visual_per_cell() {
    let mut reg = AtlasRegistry::new();
    reg.register(String::from("grass.png"), 3);
    let mut g = default_grid();
    let mut live = owned(&g);
    let mut sel = Selection::new();
    sel.select(grass(), Some(0));
    let c1 = g.paint(Point { x: 10, y: 10 }, &sel, &reg);
    play(&mut live, &c1);
    sel.select(plain("sand"), None);
    let c2 = g.paint(Point { x: 10, y: 10 }, &sel, &reg);
    assert_eq!(c2[0], RenderCommand::Despawn(match c1[1] {
        RenderCommand::Spawn(v) => v.id,
        RenderCommand::Despawn(_) => unreachable!(),
    }));
    play(&mut live, &c2);
    assert_eq!(live, owned(&g));
    assert_eq!(live.len(), 24);
    let i = g.find_cell(Point { x: 10, y: 10 }).unwrap();
    assert_eq!(g.cells[i].visual.kind, VisualKind::Sprite(None));
}

#[test]
fn selected_index_reaches_the_painted_visual() {
    let mut reg = AtlasRegistry::new();
    reg.register(String::from("grass.png"), 11);
    let mut sel = Selection::new();
    sel.select(grass(), Some(5));
    let mut g = default_grid();
    g.paint(Point { x: -150, y: 100 }, &sel, &reg);
    let i = g.find_cell(Point { x: -150, y: 100 }).unwrap();
    assert_eq!(i, 18);
    assert_eq!(
        g.cells[i].visual.kind,
        VisualKind::Sprite(Some(AtlasTexture { atlas: 11, index: 5 }))
    );
}

#[test]
fn missing_index_paints_the_first_sub_tile() {
    let mut reg = AtlasRegistry::new();
    reg.register(String::from("grass.png"), 2);
    let mut sel = Selection::new();
    sel.select(grass(), None);
    assert_eq!(
        brush(&sel, &reg),
        Some(VisualKind::Sprite(Some(AtlasTexture { atlas: 2, index: 0 })))
    );
}

#[test]
fn resize_after_painting_discards_everything() {
    let mut reg = AtlasRegistry::new();
    reg.register(String::from("grass.png"), 1);
    let mut sel = Selection::new();
    sel.select(grass(), Some(1));
    let mut g = GridModel::empty();
    let mut live = HashSet::new();
    play(&mut live, &g.resize(ResizeEvent { tile_size: 64, grid_width: 6, grid_height: 4 }));
    play(&mut live, &g.paint(Point { x: 1, y: 1 }, &sel, &reg));
    play(&mut live, &g.paint(Point { x: -100, y: -100 }, &sel, &reg));
    let old_ids = owned(&g);
    let cmds = g.resize(ResizeEvent { tile_size: 10, grid_width: 3, grid_height: 2 });
    assert_eq!(cmds.len(), 24 + 6);
    play(&mut live, &cmds);
    assert_eq!(live, owned(&g));
    assert!(old_ids.is_disjoint(&live));
    assert_eq!(g.cells.len(), 6);
    for c in &g.cells {
        assert_eq!(c.visual.kind, VisualKind::Placeholder);
        assert_eq!(c.visual.bounds, c.bounds);
    }
    assert_eq!(g.cells[0].bounds, Rect { min_x: -15, min_y: -10, max_x: -5, max_y: 0 });
    assert_eq!(g.cells[5].bounds, Rect { min_x: 5, min_y: 0, max_x: 15, max_y: 10 });
}

#[test]
fn no_selection_paints_nothing() {
    let reg = AtlasRegistry::new();
    let sel = Selection::new();
    let mut g = default_grid();
    assert!(g.paint(Point { x: 0, y: 0 }, &sel, &reg).is_empty());
    assert_eq!(g.next_visual, 24);
}

#[test]
fn unregistered_atlas_skips_painting() {
    let mut reg = AtlasRegistry::new();
    reg.register(String::from("other.png"), 4);
    let mut sel = Selection::new();
    sel.select(grass(), Some(1));
    let mut g = default_grid();
    assert!(g.paint(Point { x: 0, y: 0 }, &sel, &reg).is_empty());
    assert_eq!(g.cells[8].visual.kind, VisualKind::Placeholder);
}

#[test]
fn tile_without_atlas_paints_untextured_sprite() {
    let reg = AtlasRegistry::new();
    let mut sel = Selection::new();
    sel.select(plain("water"), Some(3));
    let mut g = default_grid();
    let cmds = g.paint(Point { x: 191, y: 127 }, &sel, &reg);
    assert_eq!(cmds.len(), 2);
    assert_eq!(g.cells[23].visual.kind, VisualKind::Sprite(None));
    assert_eq!(g.cells[23].visual.id, 24);
    assert_eq!(g.next_visual, 25);
}

#[test]
fn right_click_opens_features_only_on_a_cell() {
    let reg = AtlasRegistry::new();
    let sel = Selection::new();
    let mut g = default_grid();
    let mut panel = FeaturePanel { open: false };
    let cmds = handle_click(&mut g, &mut panel, &sel, &reg, ClickEvent::RightClick(Point { x: 500, y: 0 }));
    assert!(cmds.is_empty());
    assert!(!panel.open);
    let cmds = handle_click(&mut g, &mut panel, &sel, &reg, ClickEvent::RightClick(Point { x: 5, y: 5 }));
    assert!(cmds.is_empty());
    assert!(panel.open);
    assert_eq!(panel.inspect(&g, Point { x: 5, y: 5 }), Some(15));
}

#[test]
fn left_click_paints_through_handle_click() {
    let reg = AtlasRegistry::new();
    let mut sel = Selection::new();
    sel.select(plain("sand"), None);
    let mut g = default_grid();
    let mut panel = FeaturePanel { open: false };
    let cmds = handle_click(&mut g, &mut panel, &sel, &reg, ClickEvent::LeftClick(Point { x: -192, y: -128 }));
    assert_eq!(cmds[0], RenderCommand::Despawn(0));
    assert_eq!(g.cells[0].visual.kind, VisualKind::Sprite(None));
    assert!(!panel.open);
}
