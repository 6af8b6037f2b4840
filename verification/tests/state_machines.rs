use houtu::imagery_state::{
    decide_tile_imagery, finish_imagery_progress, imagery_walk_step, observe_tile_imagery,
    process_imagery_step, start_imagery_progress, start_imagery_walk, AncestorStatus,
    ImageLoadStatus, ImageryAction, ImageryEvent, ImageryState, ImageryWalkEvent,
    TileImageryDecision, TileImageryObservation,
};
use houtu::terrain_state::{
    prepare_terrain_state, process_quadtree_tile_step, process_terrain_step, QuadtreeTileLoadState,
    QuadtreeTileStep, TerrainState, TerrainStep,
};

fn run(state: ImageryState, skip: bool, need_geo: bool, accepted: bool, status: ImageLoadStatus) -> (ImageryState, usize) {
    let (mut s, mut a) = process_imagery_step(state, ImageryEvent::Begin, skip, need_geo);
    let mut steps = 1;
    while a != ImageryAction::Finished {
        let event = match a {
            ImageryAction::RequestImage => ImageryEvent::RequestSent { accepted },
            _ => ImageryEvent::LoadChecked { status },
        };
        let next = process_imagery_step(s, event, skip, need_geo);
        s = next.0;
        a = next.1;
        steps += 1;
    }
    (s, steps)
}

#[test]
fn imagery_request_then_load() {
    assert_eq!(
        process_imagery_step(ImageryState::UNLOADED, ImageryEvent::Begin, false, false),
        (ImageryState::REQUESTING, ImageryAction::RequestImage)
    );
    assert_eq!(
        process_imagery_step(ImageryState::REQUESTING, ImageryEvent::RequestSent { accepted: true }, false, false),
        (ImageryState::REQUESTING, ImageryAction::CheckLoadState)
    );
    assert_eq!(
        process_imagery_step(ImageryState::REQUESTING, ImageryEvent::LoadChecked { status: ImageLoadStatus::Loaded }, false, false),
        (ImageryState::READY, ImageryAction::Finished)
    );
    assert_eq!(run(ImageryState::UNLOADED, false, false, true, ImageLoadStatus::Loaded), (ImageryState::READY, 3));
    assert_eq!(run(ImageryState::UNLOADED, false, false, true, ImageLoadStatus::Pending), (ImageryState::REQUESTING, 3));
    assert_eq!(run(ImageryState::UNLOADED, false, false, true, ImageLoadStatus::Failed), (ImageryState::FAILED, 3));
    assert_eq!(run(ImageryState::UNLOADED, false, false, false, ImageLoadStatus::Loaded), (ImageryState::UNLOADED, 2));
    assert_eq!(run(ImageryState::UNLOADED, true, false, true, ImageLoadStatus::Loaded), (ImageryState::UNLOADED, 1));
}

#[test]
fn only_ready_imagery_is_reprojected() {
    assert_eq!(run(ImageryState::UNLOADED, true, true, true, ImageLoadStatus::Loaded), (ImageryState::UNLOADED, 1));
    assert_eq!(run(ImageryState::UNLOADED, false, true, false, ImageLoadStatus::Pending), (ImageryState::UNLOADED, 2));
    assert_eq!(run(ImageryState::FAILED, false, true, true, ImageLoadStatus::Pending), (ImageryState::FAILED, 1));
    assert_eq!(run(ImageryState::FAILED, false, false, true, ImageLoadStatus::Pending), (ImageryState::FAILED, 1));
    assert_eq!(run(ImageryState::INVALID, false, true, true, ImageLoadStatus::Loaded), (ImageryState::INVALID, 1));
    assert_eq!(run(ImageryState::UNLOADED, false, true, true, ImageLoadStatus::Pending), (ImageryState::REQUESTING, 3));
    assert_eq!(run(ImageryState::RECEIVED, false, false, true, ImageLoadStatus::Pending), (ImageryState::READY, 1));
    assert_eq!(run(ImageryState::READY, false, true, true, ImageLoadStatus::Failed), (ImageryState::READY, 1));
    assert_eq!(
        process_imagery_step(ImageryState::UNLOADED, ImageryEvent::Begin, true, true),
        (ImageryState::UNLOADED, ImageryAction::Finished)
    );
}

#[test]
fn tile_imagery_falls_back_to_ancestors() {
    let ready = AncestorStatus { state: ImageryState::READY, has_texture: true };
    let ready_no_texture = AncestorStatus { state: ImageryState::READY, has_texture: false };
    let failed = AncestorStatus { state: ImageryState::FAILED, has_texture: false };
    let loading = AncestorStatus { state: ImageryState::REQUESTING, has_texture: false };
    assert_eq!(decide_tile_imagery(ImageryState::READY, &vec![failed], false), TileImageryDecision::Promote);
    assert_eq!(
        decide_tile_imagery(ImageryState::REQUESTING, &vec![failed, ready_no_texture, ready], false),
        TileImageryDecision::Fallback { ready_ancestor: Some(2), process_ancestor: None, done_loading: false }
    );
    assert_eq!(
        decide_tile_imagery(ImageryState::REQUESTING, &vec![failed, ready_no_texture, ready], true),
        TileImageryDecision::Fallback { ready_ancestor: Some(1), process_ancestor: None, done_loading: false }
    );
    assert_eq!(
        decide_tile_imagery(ImageryState::FAILED, &vec![failed, loading, ready], false),
        TileImageryDecision::Fallback { ready_ancestor: Some(2), process_ancestor: Some(1), done_loading: false }
    );
    assert_eq!(
        decide_tile_imagery(ImageryState::INVALID, &vec![failed, ready], false),
        TileImageryDecision::Fallback { ready_ancestor: Some(1), process_ancestor: None, done_loading: true }
    );
    assert_eq!(
        decide_tile_imagery(ImageryState::FAILED, &vec![], false),
        TileImageryDecision::Fallback { ready_ancestor: None, process_ancestor: None, done_loading: true }
    );
}

#[test]
fn imagery_progress_of_a_tile() {
    let start = start_imagery_progress(true);
    let p = observe_tile_imagery(start, TileImageryObservation::Processed {
        placeholder_not_ready: false,
        done_loading: true,
        has_ready_imagery: true,
        still_loading: true,
        loading_failed: true,
    });
    assert!(p.is_upsampled_only && p.is_any_tile_loaded && p.is_done_loading);
    let q = observe_tile_imagery(p, TileImageryObservation::Processed {
        placeholder_not_ready: false,
        done_loading: false,
        has_ready_imagery: false,
        still_loading: true,
        loading_failed: false,
    });
    assert!(!q.is_upsampled_only && q.is_any_tile_loaded && !q.is_done_loading);
    assert_eq!(finish_imagery_progress(q, true), (false, true));
    let r = observe_tile_imagery(start_imagery_progress(true), TileImageryObservation::NoLoadingImagery);
    assert!(!r.is_upsampled_only && !r.is_any_tile_loaded && r.is_done_loading);
    assert_eq!(finish_imagery_progress(r, false), (false, false));
}

#[test]
fn terrain_rounds() {
    let loading = QuadtreeTileLoadState::LOADING;
    assert_eq!(
        process_terrain_step(loading, TerrainState::UNLOADED, false, false, false),
        TerrainStep { terrain_state: TerrainState::RECEIVED, upsample_from_parent: false, request_geometry: true, create_mesh: false }
    );
    assert_eq!(
        process_terrain_step(loading, TerrainState::RECEIVED, false, false, true),
        TerrainStep { terrain_state: TerrainState::READY, upsample_from_parent: false, request_geometry: false, create_mesh: true }
    );
    assert_eq!(
        process_terrain_step(loading, TerrainState::FAILED, true, true, false),
        TerrainStep { terrain_state: TerrainState::FAILED, upsample_from_parent: true, request_geometry: false, create_mesh: false }
    );
    assert_eq!(
        process_terrain_step(QuadtreeTileLoadState::START, TerrainState::UNLOADED, false, false, true),
        TerrainStep { terrain_state: TerrainState::UNLOADED, upsample_from_parent: false, request_geometry: false, create_mesh: false }
    );
    assert_eq!(process_terrain_step(loading, TerrainState::TRANSFORMED, false, false, false).terrain_state, TerrainState::READY);
    assert_eq!(QuadtreeTileLoadState::default(), QuadtreeTileLoadState::START);
}

#[test]
fn quadtree_tile_rounds() {
    assert_eq!(
        process_quadtree_tile_step(false, true, false, TerrainState::READY, QuadtreeTileLoadState::LOADING),
        QuadtreeTileStep { renderable: true, upsampled_from_parent: false, load_state: QuadtreeTileLoadState::LOADING }
    );
    assert_eq!(
        process_quadtree_tile_step(true, false, true, TerrainState::RECEIVED, QuadtreeTileLoadState::START),
        QuadtreeTileStep { renderable: true, upsampled_from_parent: true, load_state: QuadtreeTileLoadState::START }
    );
    assert!(!process_quadtree_tile_step(false, false, false, TerrainState::READY, QuadtreeTileLoadState::LOADING).renderable);
}

#[test]
fn terrain_availability() {
    assert_eq!(prepare_terrain_state(TerrainState::UNLOADED, Some(false), Some(true)), TerrainState::FAILED);
    assert_eq!(prepare_terrain_state(TerrainState::UNLOADED, Some(true), Some(false)), TerrainState::UNLOADED);
    assert_eq!(prepare_terrain_state(TerrainState::UNLOADED, None, Some(false)), TerrainState::FAILED);
    assert_eq!(prepare_terrain_state(TerrainState::RECEIVED, None, None), TerrainState::RECEIVED);
}

#[test]
fn imagery_walk_steps_back_after_removal() {
    let w = start_imagery_walk(3, true);
    assert_eq!((w.index, w.len), (0, 3));
    assert!(w.progress.is_upsampled_only && w.progress.is_done_loading && !w.progress.is_any_tile_loaded);
    let failed = TileImageryObservation::Processed {
        placeholder_not_ready: false,
        done_loading: true,
        has_ready_imagery: false,
        still_loading: true,
        loading_failed: true,
    };
    let w = imagery_walk_step(w, ImageryWalkEvent::Observed { obs: failed });
    assert_eq!((w.index, w.len), (1, 3));
    assert!(w.progress.is_upsampled_only && w.progress.is_any_tile_loaded);
    let w = imagery_walk_step(w, ImageryWalkEvent::PlaceholderRemoved);
    assert_eq!((w.index, w.len), (0, 2));
    let w = imagery_walk_step(w, ImageryWalkEvent::Observed { obs: TileImageryObservation::NoLoadingImagery });
    assert_eq!((w.index, w.len), (1, 2));
    assert!(!w.progress.is_upsampled_only);
    let w = imagery_walk_step(w, ImageryWalkEvent::Observed { obs: failed });
    assert_eq!((w.index, w.len), (2, 2));
    assert_eq!(finish_imagery_progress(w.progress, true), (false, true));
}
