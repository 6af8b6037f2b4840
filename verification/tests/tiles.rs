use houtu::atlas::{
    attachment_label, count, fragment_shader_defs, get_array_texture_size, vertex_shader_defs,
    AttachmentSize, ShaderDefines,
};
use houtu::decimal::u32_to_decimal;
use houtu::imagery_range::{clamp_imagery_level, trim_tile_range, EdgeContact, TileRange};
use houtu::load_queue::{Queue, QueueType};
use houtu::tile_imagery::TileImageryVec;
use houtu::tile_key::TileKey;
use houtu::tiling::GeographicTilingScheme;
use houtu::visibility::{
    compute_tile_visibility_update, nearest_ancestor_with_mesh, Intersect, VisibilityUpdate,
    on_tile_visibility_action, should_mark_renderable, visit_if_visible_queue_type, TileVisibility,
    VisibilityAction,
};

#[test]
fn decimal_text_of_integers() {
    assert_eq!(u32_to_decimal(0), "0");
    assert_eq!(u32_to_decimal(7), "7");
    assert_eq!(u32_to_decimal(10), "10");
    assert_eq!(u32_to_decimal(1907), "1907");
    assert_eq!(u32_to_decimal(u32::MAX), u32::MAX.to_string());
}

#[test]
fn children_and_parent_of_a_tile() {
    let key = TileKey::new(3, 5, 2);
    assert_eq!(key, TileKey { x: 3, y: 5, level: 2 });
    assert_eq!(key.northwest(), TileKey { x: 6, y: 10, level: 3 });
    assert_eq!(key.northeast(), TileKey { x: 7, y: 10, level: 3 });
    assert_eq!(key.southwest(), TileKey { x: 6, y: 11, level: 3 });
    assert_eq!(key.southeast(), TileKey { x: 7, y: 11, level: 3 });
    for child in [key.northwest(), key.northeast(), key.southwest(), key.southeast()] {
        assert_eq!(child.parent(), Some(key));
    }
    assert_eq!(TileKey::new(1, 0, 0).parent(), None);
}

#[test]
fn tile_counts_double_per_level() {
    let scheme = GeographicTilingScheme::default();
    assert_eq!(scheme.number_of_level_zero_tiles_x, 2);
    assert_eq!(scheme.number_of_level_zero_tiles_y, 1);
    assert_eq!(scheme.get_number_of_x_tiles_at_level(0), 2);
    assert_eq!(scheme.get_number_of_y_tiles_at_level(0), 1);
    assert_eq!(scheme.get_number_of_x_tiles_at_level(3), 16);
    assert_eq!(scheme.get_number_of_y_tiles_at_level(3), 8);
    assert_eq!(scheme.get_number_of_tiles_at_level(3), 128);
    assert_eq!(scheme.get_number_of_x_tiles_at_level(31), 0);
    assert_eq!(scheme.get_number_of_y_tiles_at_level(31), 1u32 << 31);
}

#[test]
fn positions_past_the_edge_fall_into_the_last_tile() {
    let scheme = GeographicTilingScheme::default();
    assert_eq!(scheme.clamp_tile_x_y(1, 0, 0), (1, 0));
    assert_eq!(scheme.clamp_tile_x_y(2, 1, 0), (1, 0));
    assert_eq!(scheme.clamp_tile_x_y(3, 3, 1), (3, 1));
    assert_eq!(scheme.clamp_tile_x_y(u32::MAX, 5, 2), (7, 3));
}

#[test]
fn root_tiles_row_by_row() {
    let scheme = GeographicTilingScheme { number_of_level_zero_tiles_x: 3, number_of_level_zero_tiles_y: 2 };
    let keys = scheme.level_zero_keys();
    let expected: Vec<TileKey> = vec![(0, 0), (1, 0), (2, 0), (0, 1), (1, 1), (2, 1)]
        .into_iter()
        .map(|(x, y)| TileKey { x, y, level: 0 })
        .collect();
    assert_eq!(keys, expected);
    assert_eq!(GeographicTilingScheme::default().level_zero_keys().len(), 2);
}

#[test]
fn queue_by_priority() {
    let mut queue = Queue::new();
    assert!(queue.empty());
    queue.enqueue(&QueueType::High, 1);
    queue.enqueue(&QueueType::Low, 2);
    queue.enqueue(&QueueType::NoQueue, 3);
    queue.enqueue(&QueueType::High, 4);
    queue.enqueue(&QueueType::Medium, 5);
    assert_eq!(queue.tile_load_queue_high, vec![1, 4]);
    assert_eq!(queue.tile_load_queue_medium, vec![5]);
    assert_eq!(queue.tile_load_queue_low, vec![2]);
    assert_eq!(queue.size(), 4);
    assert!(!queue.empty());
    queue.clear();
    assert_eq!(queue.size(), 0);
    assert!(queue.empty());
    assert_eq!(QueueType::default(), QueueType::NoQueue);
}

#[test]
fn imagery_level_limits() {
    assert_eq!(clamp_imagery_level(5, 0, 17), 5);
    assert_eq!(clamp_imagery_level(20, 0, 17), 17);
    assert_eq!(clamp_imagery_level(1, 3, 17), 3);
    assert_eq!(clamp_imagery_level(20, 10, 5), 10);
}

#[test]
fn tile_range_trimming() {
    let range = TileRange { west: 2, north: 4, east: 5, south: 6 };
    let all = EdgeContact { north: true, west: true, south: true, east: true };
    assert_eq!(trim_tile_range(range, all), TileRange { west: 3, north: 5, east: 4, south: 5 });
    let none = EdgeContact { north: false, west: false, south: false, east: false };
    assert_eq!(trim_tile_range(range, none), range);
    let single = TileRange { west: 1, north: 1, east: 1, south: 1 };
    assert_eq!(trim_tile_range(single, all), single);
    let two = TileRange { west: 1, north: 1, east: 2, south: 2 };
    assert_eq!(trim_tile_range(two, all), TileRange { west: 2, north: 2, east: 2, south: 2 });
}

#[test]
fn texture_array_extent() {
    let attachments = vec![
        AttachmentSize { width: 256, height: 256 },
        AttachmentSize { width: 512, height: 128 },
        AttachmentSize { width: 64, height: 64 },
    ];
    assert_eq!(get_array_texture_size(&attachments), (512, 448, 3));
    assert_eq!(get_array_texture_size(&vec![]), (0, 0, 0));
    assert_eq!(count(&attachments), 3);
    assert_eq!(attachment_label(&TileKey { x: 12, y: 0, level: 7 }), "terrain_atlas_attachment_12_0_7");
}

#[test]
fn shader_definitions() {
    let mut defines = ShaderDefines {
        apply_brightness: false,
        apply_contrast: true,
        apply_hue: false,
        apply_saturation: false,
        apply_gamma: true,
        apply_alpha: false,
        apply_day_night_alpha: true,
        apply_split: true,
        apply_cutout: true,
        apply_color_to_alpha: true,
        apply_quantization_bits12: false,
        apply_webmercator_t: true,
    };
    assert_eq!(fragment_shader_defs(&defines), vec!["APPLY_CONTRAST", "APPLY_GAMMA", "APPLY_DAY_NIGHT_ALPHA"]);
    assert!(vertex_shader_defs(&defines).is_empty());
    defines.apply_quantization_bits12 = true;
    assert_eq!(vertex_shader_defs(&defines), vec!["QUANTIZATION_BITS12"]);
}

#[test]
fn visibility_decisions() {
    let key = TileKey { x: 1, y: 1, level: 1 };
    assert_eq!(on_tile_visibility_action(TileVisibility::NONE, false, &key), VisibilityAction::Despawn);
    assert_eq!(on_tile_visibility_action(TileVisibility::FULL, true, &key), VisibilityAction::Keep);
    assert_eq!(
        on_tile_visibility_action(TileVisibility::PARTIAL, false, &key),
        VisibilityAction::SpawnChildren {
            southeast: TileKey { x: 3, y: 3, level: 2 },
            southwest: TileKey { x: 2, y: 3, level: 2 },
            northwest: TileKey { x: 2, y: 2, level: 2 },
            northeast: TileKey { x: 3, y: 2, level: 2 },
        }
    );
    assert!(should_mark_renderable(TileVisibility::FULL, true, true));
    assert!(!should_mark_renderable(TileVisibility::NONE, true, true));
    assert!(!should_mark_renderable(TileVisibility::PARTIAL, false, true));
    assert_eq!(visit_if_visible_queue_type(false, QueueType::NoQueue), QueueType::High);
    assert_eq!(visit_if_visible_queue_type(true, QueueType::Low), QueueType::Low);
}

#[test]
fn tile_imagery_list_insert_and_remove() {
    let mut list = TileImageryVec::new();
    list.add("a", None);
    list.add("c", None);
    list.add("b", Some(1));
    assert_eq!(list.0, vec!["a", "b", "c"]);
    assert_eq!(list.len(), 3);
    assert_eq!(list.remove(1), "b");
    assert_eq!(list.0, vec!["a", "c"]);
}

#[test]
fn visibility_from_culling_and_occlusion() {
    let high = QueueType::High;
    assert_eq!(
        compute_tile_visibility_update(QueueType::NoQueue, true, true, true, Intersect::INSIDE, true, true),
        VisibilityUpdate { visibility: None, reset_clipped: false }
    );
    assert_eq!(
        compute_tile_visibility_update(high, false, false, true, Intersect::INSIDE, true, true),
        VisibilityUpdate { visibility: Some(TileVisibility::PARTIAL), reset_clipped: false }
    );
    assert_eq!(
        compute_tile_visibility_update(high, true, false, false, Intersect::OUTSIDE, true, true),
        VisibilityUpdate { visibility: Some(TileVisibility::PARTIAL), reset_clipped: true }
    );
    assert_eq!(
        compute_tile_visibility_update(high, true, false, true, Intersect::OUTSIDE, true, true),
        VisibilityUpdate { visibility: Some(TileVisibility::NONE), reset_clipped: true }
    );
    assert_eq!(
        compute_tile_visibility_update(high, false, true, true, Intersect::INTERSECTING, false, false),
        VisibilityUpdate { visibility: Some(TileVisibility::PARTIAL), reset_clipped: true }
    );
    assert_eq!(
        compute_tile_visibility_update(high, true, true, true, Intersect::INSIDE, true, false),
        VisibilityUpdate { visibility: Some(TileVisibility::NONE), reset_clipped: true }
    );
    assert_eq!(
        compute_tile_visibility_update(high, true, true, true, Intersect::INSIDE, true, true),
        VisibilityUpdate { visibility: Some(TileVisibility::FULL), reset_clipped: true }
    );
    assert_eq!(nearest_ancestor_with_mesh(&vec![false, true, true]), Some(1));
    assert_eq!(nearest_ancestor_with_mesh(&vec![false, false]), None);
    assert_eq!(nearest_ancestor_with_mesh(&vec![]), None);
}
