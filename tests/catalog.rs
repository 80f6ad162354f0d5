use tilemap_editor::catalog::{AtlasDefinition, DefinitionFileError, Size2, Tile, TileDefinition};
use tilemap_editor::registry::AtlasRegistry;
use tilemap_editor::selection::{BrushState, Selection};

fn atlas(columns: usize, rows: usize) -> AtlasDefinition {
    AtlasDefinition {
        tile_size: Size2 { width: 16, height: 16 },
        columns,
        rows,
        padding: Some(Size2 { width: 1, height: 1 }),
        offset: None,
    }
}

fn tile(name: &str, a: Option<AtlasDefinition>) -> Tile {
    Tile { name: String::from(name), path: format!("{}.png", name), atlas_definition: a }
}

#[test]
fn catalog_keeps_tiles_in_order() {
    let d = TileDefinition::from_tiles(vec![tile("a", None), tile("b", Some(atlas(2, 3)))]).unwrap();
    assert_eq!(d.tiles.len(), 2);
    assert_eq!(d.tiles[0].name, "a");
    assert_eq!(d.tiles[1].name, "b");
    assert_eq!(d.atlas_tiles(), vec![1]);
}

#[test]
fn empty_catalog_is_accepted() {
    let d = TileDefinition::from_tiles(Vec::new()).unwrap();
    assert!(d.tiles.is_empty());
    assert!(d.atlas_tiles().is_empty());
}

#[test]
fn repeated_name_is_rejected() {
    let r = TileDefinition::from_tiles(vec![
        tile("a", None),
        tile("b", None),
        tile("a", Some(atlas(1, 1))),
        tile("b", None),
    ]);
    assert!(matches!(r, Err(DefinitionFileError::DuplicateName { first: 0, second: 2 })));
}

#[test]
fn atlas_without_sub_tiles_is_rejected() {
    let r = TileDefinition::from_tiles(vec![tile("a", Some(atlas(2, 2))), tile("b", Some(atlas(0, 4)))]);
    assert!(matches!(r, Err(DefinitionFileError::InvalidAtlas { tile: 1 })));
    let r = TileDefinition::from_tiles(vec![tile("c", Some(atlas(3, 0)))]);
    assert!(matches!(r, Err(DefinitionFileError::InvalidAtlas { tile: 0 })));
}

#[test]
fn first_broken_tile_is_reported() {
    let r = TileDefinition::from_tiles(vec![tile("a", None), tile("a", None), tile("z", Some(atlas(0, 0)))]);
    assert!(matches!(r, Err(DefinitionFileError::DuplicateName { first: 0, second: 1 })));
    let r = TileDefinition::from_tiles(vec![tile("a", None), tile("a", Some(atlas(0, 1)))]);
    assert!(matches!(r, Err(DefinitionFileError::InvalidAtlas { tile: 1 })));
}

#[test]
fn atlas_counts_its_sub_tiles() {
    let a = atlas(4, 3);
    assert!(a.is_well_formed());
    assert_eq!(a.tile_count(), 12);
    assert!(a.contains_index(11));
    assert!(!a.contains_index(12));
    assert!(!atlas(usize::MAX, 2).is_well_formed());
    assert!(atlas(usize::MAX, 1).is_well_formed());
    assert!(!atlas(1, 0).is_well_formed());
}

#[test]
fn registry_maps_paths_to_handles() {
    let mut r = AtlasRegistry::new();
    assert_eq!(r.get(&String::from("a.png")), None);
    r.register(String::from("a.png"), 1);
    r.register(String::from("b.png"), 2);
    r.register(String::from("a.png"), 3);
    assert_eq!(r.get(&String::from("a.png")), Some(3));
    assert_eq!(r.get(&String::from("b.png")), Some(2));
    assert_eq!(r.get(&String::from("c.png")), None);
    assert_eq!(r.entries.len(), 2);
}

#[test]
fn selection_last_write_wins() {
    let mut s = Selection::new();
    assert!(!s.is_selected(&String::from("a")));
    s.select(tile("a", None), Some(9));
    s.set_mode(BrushState::Fill);
    s.select(tile("b", Some(atlas(1, 1))), Some(40));
    assert!(s.is_selected(&String::from("b")));
    assert!(!s.is_selected(&String::from("a")));
    assert_eq!(s.atlas_index, Some(40));
    assert_eq!(s.mode, BrushState::Fill);
    s.set_mode(BrushState::Single);
    assert_eq!(s.mode, BrushState::Single);
    assert_eq!(s.tile.as_ref().unwrap().name, "b");
}

#[test]
fn copied_tile_is_equal_field_by_field() {
    let t = tile("grass", Some(atlas(2, 1)));
    let c = t.copied();
    assert_eq!(c.name, t.name);
    assert_eq!(c.path, t.path);
    assert_eq!(c.atlas_definition, t.atlas_definition);
}
