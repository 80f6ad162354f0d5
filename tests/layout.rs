use tilemap_editor::editor::{AppState, GridSettings};
use tilemap_editor::geometry::{Point, Rect};
use tilemap_editor::grid::{GridModel, RenderCommand, ResizeEvent, VisualKind};
use tilemap_editor::input::{translate_clicks, ClickEvent};

#[test]
fn grid_has_columns_times_rows_cells_tiling_the_rectangle() {
    let mut g = GridModel::empty();
    let cmds = g.resize(ResizeEvent { tile_size: 64, grid_width: 6, grid_height: 4 });
    assert_eq!(g.cells.len(), 24);
    assert_eq!(cmds.len(), 24);
    let area: i64 = g
        .cells
        .iter()
        .map(|c| (c.bounds.max_x - c.bounds.min_x) * (c.bounds.max_y - c.bounds.min_y))
        .sum();
    assert_eq!(area, 384 * 256);
    for (i, c) in g.cells.iter().enumerate() {
        let x = (i % 6) as i64;
        let y = (i / 6) as i64;
        assert_eq!(
            c.bounds,
            Rect { min_x: x * 64 - 192, min_y: y * 64 - 128, max_x: x * 64 - 128, max_y: y * 64 - 64 }
        );
        assert_eq!(cmds[i], RenderCommand::Spawn(c.visual));
        assert_eq!(c.visual.id, i as u64);
        assert_eq!(c.visual.kind, VisualKind::Placeholder);
    }
}

#[test]
fn every_point_of_the_rectangle_finds_a_cell() {
    let mut g = GridModel::empty();
    g.resize(ResizeEvent { tile_size: 5, grid_width: 3, grid_height: 2 });
    for x in -7..=8 {
        for y in -5..=5 {
            let found = g.find_cell(Point { x, y });
            let i = found.unwrap();
            assert!(g.cells[i].bounds.contains(Point { x, y }));
            for k in 0..i {
                assert!(!g.cells[k].bounds.contains(Point { x, y }));
            }
        }
    }
    for (x, y) in [(-8, 0), (9, 0), (0, -6), (0, 6), (100, 100)] {
        assert_eq!(g.find_cell(Point { x, y }), None);
    }
}

#[test]
fn interior_point_lies_in_one_cell_only() {
    let mut g = GridModel::empty();
    g.resize(ResizeEvent { tile_size: 4, grid_width: 2, grid_height: 2 });
    let p = Point { x: -2, y: 1 };
    let holders: Vec<usize> = (0..4).filter(|&i| g.cells[i].bounds.contains(p)).collect();
    assert_eq!(holders, vec![2]);
    let corner = Point { x: 0, y: 0 };
    let holders: Vec<usize> = (0..4).filter(|&i| g.cells[i].bounds.contains(corner)).collect();
    assert_eq!(holders, vec![0, 1, 2, 3]);
    assert_eq!(g.find_cell(corner), Some(0));
}

#[test]
fn odd_width_rounds_the_half_width_down() {
    let mut g = GridModel::empty();
    g.resize(ResizeEvent { tile_size: 3, grid_width: 1, grid_height: 1 });
    assert_eq!(g.cells[0].bounds, Rect { min_x: -1, min_y: -1, max_x: 2, max_y: 2 });
}

#[test]
fn zero_columns_or_rows_give_an_empty_grid() {
    let mut g = GridModel::empty();
    g.resize(ResizeEvent { tile_size: 64, grid_width: 6, grid_height: 4 });
    let cmds = g.resize(ResizeEvent { tile_size: 64, grid_width: 0, grid_height: 4 });
    assert_eq!(cmds.len(), 24);
    assert!(cmds.iter().all(|c| matches!(c, RenderCommand::Despawn(_))));
    assert!(g.cells.is_empty());
    assert_eq!(g.find_cell(Point { x: 0, y: 0 }), None);
    g.resize(ResizeEvent { tile_size: 64, grid_width: 6, grid_height: 0 });
    assert!(g.cells.is_empty());
}

#[test]
fn visual_ids_keep_growing_across_resizes() {
    let mut g = GridModel::empty();
    assert_eq!(g.ids_left(), u64::MAX);
    g.resize(ResizeEvent { tile_size: 1, grid_width: 2, grid_height: 2 });
    g.resize(ResizeEvent { tile_size: 1, grid_width: 1, grid_height: 3 });
    assert_eq!(g.next_visual, 7);
    assert_eq!(g.ids_left(), u64::MAX - 7);
    let ids: Vec<u64> = g.cells.iter().map(|c| c.visual.id).collect();
    assert_eq!(ids, vec![4, 5, 6]);
}

#[test]
fn rect_contains_includes_edges() {
    let r = Rect { min_x: 0, min_y: 0, max_x: 10, max_y: 5 };
    assert!(r.contains(Point { x: 0, y: 0 }));
    assert!(r.contains(Point { x: 10, y: 5 }));
    assert!(!r.contains(Point { x: 11, y: 5 }));
    assert!(!r.contains(Point { x: 3, y: -1 }));
}

#[test]
fn clicks_follow_pressed_buttons() {
    let p = Point { x: 3, y: -4 };
    assert_eq!(translate_clicks(true, true, Some(p)), vec![ClickEvent::LeftClick(p), ClickEvent::RightClick(p)]);
    assert_eq!(translate_clicks(false, true, Some(p)), vec![ClickEvent::RightClick(p)]);
    assert_eq!(translate_clicks(true, false, Some(p)), vec![ClickEvent::LeftClick(p)]);
    assert!(translate_clicks(false, false, Some(p)).is_empty());
    assert!(translate_clicks(true, true, None).is_empty());
}

#[test]
fn successful_load_starts_painting() {
    assert_eq!(AppState::Loading.after_load(true), AppState::Painting);
    assert_eq!(AppState::Loading.after_load(false), AppState::Loading);
    assert_eq!(AppState::Painting.after_load(false), AppState::Painting);
}

#[test]
fn default_settings_become_a_resize_request() {
    let s = GridSettings::default();
    assert_eq!(s, GridSettings { tile_size: 64, grid_width: 6, grid_height: 4 });
    assert_eq!(ResizeEvent::from(s), ResizeEvent { tile_size: 64, grid_width: 6, grid_height: 4 });
}
