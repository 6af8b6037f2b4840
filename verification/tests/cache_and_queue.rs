use houtu::imagery_cache::{ImageryCache, ImageryInternal, ImageryKey};
use houtu::imagery_state::ImageryState;
use houtu::load_queue::{enqueue_update, Queue, QueueType, TileLoad};
use houtu::tile_key::TileKey;

#[test]
fn enqueue_update_queues_each_tile_in_its_class() {
    let mut queue = Queue::new();
    queue.enqueue(&QueueType::Low, 7);
    let mut tiles = vec![
        TileLoad { entity: 1, queue_type: QueueType::High },
        TileLoad { entity: 2, queue_type: QueueType::NoQueue },
        TileLoad { entity: 3, queue_type: QueueType::Low },
        TileLoad { entity: 4, queue_type: QueueType::High },
        TileLoad { entity: 5, queue_type: QueueType::Medium },
    ];
    enqueue_update(&mut queue, &mut tiles);
    assert_eq!(queue.tile_load_queue_high, vec![1, 4]);
    assert_eq!(queue.tile_load_queue_medium, vec![5]);
    assert_eq!(queue.tile_load_queue_low, vec![7, 3]);
    assert_eq!(queue.size(), 5);
    assert!(tiles.iter().all(|t| t.queue_type == QueueType::NoQueue));
    assert_eq!(tiles.iter().map(|t| t.entity).collect::<Vec<_>>(), vec![1, 2, 3, 4, 5]);
    enqueue_update(&mut queue, &mut tiles);
    assert_eq!(queue.size(), 5);
}

#[test]
fn imagery_cache_links_parents_and_forgets_removed() {
    let mut cache = ImageryCache::new();
    let root = TileKey::new(0, 0, 0);
    let child = TileKey::new(1, 1, 1);
    let added_root = cache.add(9, &root);
    assert_eq!(added_root.parent, None);
    assert_eq!(added_root.state, ImageryState::UNLOADED);
    assert_eq!(added_root.texture, None);
    assert_eq!(added_root.reference_count, 0);
    let added_child = cache.add(9, &child);
    assert_eq!(added_child.parent, Some(ImageryKey::new(root, 9)));
    assert_eq!(added_child.key, ImageryKey::new(child, 9));
    assert_eq!(cache.get_cloned(&ImageryKey::new(child, 9)), Some(added_child));
    assert_eq!(cache.get_cloned(&ImageryKey::new(child, 8)), None);
    assert_eq!(cache.remove(&ImageryKey::new(child, 9)), Some(added_child));
    assert_eq!(cache.get_cloned(&ImageryKey::new(child, 9)), None);
    assert_eq!(cache.remove(&ImageryKey::new(child, 9)), None);
    assert_eq!(cache.get_cloned(&ImageryKey::new(root, 9)), Some(added_root));
}

#[test]
fn imagery_cache_add_replaces_same_key() {
    let mut cache = ImageryCache::default();
    let root = TileKey::new(0, 0, 0);
    cache.add(1, &root);
    cache.add(2, &root);
    let again = cache.add(1, &root);
    assert_eq!(cache.get_cloned(&ImageryKey::new(root, 1)), Some(again));
    assert!(cache.get_cloned(&ImageryKey::new(root, 2)).is_some());
    cache.remove(&ImageryKey::new(root, 1));
    assert_eq!(cache.get_cloned(&ImageryKey::new(root, 1)), None);
    assert!(cache.get_cloned(&ImageryKey::new(root, 2)).is_some());
}

#[test]
fn imagery_records_texture_and_reports_key() {
    let key = ImageryKey::new(TileKey::new(3, 2, 2), 5);
    let mut imagery = ImageryInternal::new(key, None);
    imagery.set_texture(42);
    assert_eq!(imagery.texture, Some(42));
    assert_eq!(imagery.get_state(), ImageryState::UNLOADED);
    assert_eq!(imagery.get_layer_id(), 5);
    assert_eq!(*imagery.get_tile_key(), TileKey::new(3, 2, 2));
}
