use vstd::prelude::*;

verus! {

/// Life cycle of one imagery tile.
#[allow(non_camel_case_types)]
#[derive(Clone, Copy, Debug, PartialEq, Eq, Structural)]
pub enum ImageryState {
    UNLOADED,
    TRANSITIONING,
    RECEIVED,
    TEXTURE_LOADED,
    READY,
    FAILED,
    INVALID,
    PLACEHOLDER,
    REQUESTING,
}

/// What the asset server reports of a requested image.
#[derive(Clone, Copy, Debug, PartialEq, Eq, Structural)]
pub enum ImageLoadStatus {
    /// The image is loaded.
    Loaded,
    /// Loading the image failed.
    Failed,
    /// Anything else: not known yet, not loaded or still loading.
    Pending,
}

/// What the caller reports back to the imagery state machine.
#[derive(Clone, Copy, Debug, PartialEq, Eq, Structural)]
pub enum ImageryEvent {
    /// Start processing the imagery.
    Begin,
    /// The image was requested; `accepted` tells whether the provider
    /// returned a texture handle.
    RequestSent { accepted: bool },
    /// The load status of the requested image was checked.
    LoadChecked { status: ImageLoadStatus },
}

/// What the imagery state machine asks the caller to do next.
#[derive(Clone, Copy, Debug, PartialEq, Eq, Structural)]
pub enum ImageryAction {
    /// Request the image from the provider and report `RequestSent`.
    RequestImage,
    /// Ask the asset server for the image's load status and report `LoadChecked`.
    CheckLoadState,
    /// Processing is over for now; the state is final for this round.
    Finished,
}

/// Last part of a round: a received image has its texture loaded, and a
/// loaded texture becomes ready. Imagery that is already ready but needs a
/// geographic version goes through the reprojection step and is ready again;
/// imagery that is not ready is left as it is.
pub open spec fn imagery_finish(s: ImageryState, need_geographic_projection: bool) -> ImageryState {
    let s1 = if s == ImageryState::RECEIVED { ImageryState::TEXTURE_LOADED } else { s };
    if s1 == ImageryState::TEXTURE_LOADED || (s1 == ImageryState::READY && need_geographic_projection) {
        ImageryState::READY
    } else {
        s1
    }
}

/// Middle part of a round: a requested image waits for its load status.
pub open spec fn imagery_after_request(s: ImageryState, need_geographic_projection: bool) -> (ImageryState, ImageryAction) {
    if s == ImageryState::REQUESTING {
        (ImageryState::REQUESTING, ImageryAction::CheckLoadState)
    } else {
        (imagery_finish(s, need_geographic_projection), ImageryAction::Finished)
    }
}

/// One transition of the imagery state machine.
pub open spec fn imagery_next(
    state: ImageryState,
    event: ImageryEvent,
    skip_loading: bool,
    need_geographic_projection: bool,
) -> (ImageryState, ImageryAction) {
    match event {
        ImageryEvent::Begin => if state == ImageryState::UNLOADED && !skip_loading {
            (ImageryState::REQUESTING, ImageryAction::RequestImage)
        } else {
            imagery_after_request(state, need_geographic_projection)
        },
        ImageryEvent::RequestSent { accepted } => imagery_after_request(
            if accepted { state } else { ImageryState::UNLOADED },
            need_geographic_projection,
        ),
        ImageryEvent::LoadChecked { status } => {
            let s = match status {
                ImageLoadStatus::Loaded => ImageryState::RECEIVED,
                ImageLoadStatus::Failed => ImageryState::FAILED,
                ImageLoadStatus::Pending => state,
            };
            (imagery_finish(s, need_geographic_projection), ImageryAction::Finished)
        },
    }
}

/// Advances the imagery state machine by one event. The caller starts a round
/// with `Begin`, performs each requested action, reports its outcome, and
/// stops at `Finished`.
pub fn process_imagery_step(
    state: ImageryState,
    event: ImageryEvent,
    skip_loading: bool,
    need_geographic_projection: bool,
) -> (r: (ImageryState, ImageryAction))
    ensures
        r == imagery_next(state, event, skip_loading, need_geographic_projection),
{
    let mut s = state;
    match event {
        ImageryEvent::Begin => {
            if s == ImageryState::UNLOADED && !skip_loading {
                return (ImageryState::REQUESTING, ImageryAction::RequestImage);
            }
        },
        ImageryEvent::RequestSent { accepted } => {
            if !accepted {
                s = ImageryState::UNLOADED;
            }
        },
        ImageryEvent::LoadChecked { status } => {
            match status {
                ImageLoadStatus::Loaded => s = ImageryState::RECEIVED,
                ImageLoadStatus::Failed => s = ImageryState::FAILED,
                ImageLoadStatus::Pending => {},
            }
            return (finish_imagery(s, need_geographic_projection), ImageryAction::Finished);
        },
    }
    if s == ImageryState::REQUESTING {
        return (ImageryState::REQUESTING, ImageryAction::CheckLoadState);
    }
    (finish_imagery(s, need_geographic_projection), ImageryAction::Finished)
}

fn finish_imagery(s: ImageryState, need_geographic_projection: bool) -> (r: ImageryState)
    ensures
        r == imagery_finish(s, need_geographic_projection),
{
    let mut s = s;
    if s == ImageryState::RECEIVED {
        s = ImageryState::TEXTURE_LOADED;
    }
    // Reprojection applies to imagery that is already ready but lacks its
    // geographic version.
    let needs_reprojection = s == ImageryState::READY && need_geographic_projection;
    if s == ImageryState::TEXTURE_LOADED || needs_reprojection {
        s = ImageryState::READY;
    }
    s
}

/// The state a whole round of the machine ends in, when a request (if one is
/// made) is `accepted` or not and the load status (if one is checked) is
/// `status`.
pub open spec fn imagery_round(
    state: ImageryState,
    skip_loading: bool,
    need_geographic_projection: bool,
    accepted: bool,
    status: ImageLoadStatus,
) -> ImageryState {
    let s0 = if state == ImageryState::UNLOADED && !skip_loading {
        if accepted { ImageryState::REQUESTING } else { ImageryState::UNLOADED }
    } else {
        state
    };
    let s1 = if s0 == ImageryState::REQUESTING {
        match status {
            ImageLoadStatus::Loaded => ImageryState::RECEIVED,
            ImageLoadStatus::Failed => ImageryState::FAILED,
            ImageLoadStatus::Pending => ImageryState::REQUESTING,
        }
    } else {
        s0
    };
    imagery_finish(s1, need_geographic_projection)
}

/// The outcome of driving the machine from `Begin`, answering each action
/// with the given outcomes, until it finishes (at most three steps).
pub open spec fn imagery_run(
    state: ImageryState,
    skip_loading: bool,
    need_geographic_projection: bool,
    accepted: bool,
    status: ImageLoadStatus,
) -> (ImageryState, ImageryAction) {
    let first = imagery_next(state, ImageryEvent::Begin, skip_loading, need_geographic_projection);
    let second = match first.1 {
        ImageryAction::RequestImage => imagery_next(first.0, ImageryEvent::RequestSent { accepted }, skip_loading, need_geographic_projection),
        ImageryAction::CheckLoadState => imagery_next(first.0, ImageryEvent::LoadChecked { status }, skip_loading, need_geographic_projection),
        ImageryAction::Finished => first,
    };
    match second.1 {
        ImageryAction::CheckLoadState => imagery_next(second.0, ImageryEvent::LoadChecked { status }, skip_loading, need_geographic_projection),
        _ => second,
    }
}

/// Driving the machine step by step always finishes within one round and
/// ends in the state of `imagery_round`.
pub proof fn lemma_imagery_run_finishes(
    state: ImageryState,
    skip_loading: bool,
    need_geographic_projection: bool,
    accepted: bool,
    status: ImageLoadStatus,
)
    ensures
        imagery_run(state, skip_loading, need_geographic_projection, accepted, status)
            == (imagery_round(state, skip_loading, need_geographic_projection, accepted, status), ImageryAction::Finished),
{
}

/// A round never leaves the imagery in a transient state (received, texture
/// loaded or transitioning), unless it started out transitioning; ready
/// imagery stays ready; failed, invalid and placeholder imagery stays as it
/// is; and imagery whose loading is skipped stays unloaded.
pub proof fn lemma_imagery_round_settles(
    state: ImageryState,
    skip_loading: bool,
    need_geographic_projection: bool,
    accepted: bool,
    status: ImageLoadStatus,
)
    ensures
        ({
            let r = imagery_round(state, skip_loading, need_geographic_projection, accepted, status);
            &&& r != ImageryState::RECEIVED
            &&& r != ImageryState::TEXTURE_LOADED
            &&& (state != ImageryState::TRANSITIONING ==> r != ImageryState::TRANSITIONING)
            &&& (state == ImageryState::READY ==> r == ImageryState::READY)
            &&& (state == ImageryState::FAILED || state == ImageryState::INVALID
                || state == ImageryState::PLACEHOLDER ==> r == state)
            &&& (state == ImageryState::UNLOADED && skip_loading ==> r == ImageryState::UNLOADED)
        }),
{
}

/// Whether an imagery in `state` can no longer be loaded.
pub open spec fn imagery_failed(state: ImageryState) -> bool {
    state == ImageryState::FAILED || state == ImageryState::INVALID
}

/// What is known of one ancestor of an imagery tile.
#[derive(Clone, Copy, Debug, PartialEq, Eq, Structural)]
pub struct AncestorStatus {
    pub state: ImageryState,
    pub has_texture: bool,
}

/// Whether an ancestor's image can stand in for the tile's own: it is ready
/// and, unless Web Mercator coordinates are used, it has a texture.
pub open spec fn ancestor_usable(a: AncestorStatus, use_web_mercator_t: bool) -> bool {
    a.state == ImageryState::READY && (use_web_mercator_t || a.has_texture)
}

/// The decision taken for a tile's imagery after its loading imagery has been
/// processed.
#[derive(Clone, Copy, Debug, PartialEq, Eq, Structural)]
pub enum TileImageryDecision {
    /// The loading imagery is ready and becomes the tile's ready imagery; the
    /// tile's imagery is done loading.
    Promote,
    /// The loading imagery is not ready yet.
    Fallback {
        /// Index of the nearest ancestor whose image stands in meanwhile.
        ready_ancestor: Option<usize>,
        /// Index of the ancestor whose state machine runs next, when the
        /// tile's own imagery failed.
        process_ancestor: Option<usize>,
        /// Whether the tile's imagery is done loading.
        done_loading: bool,
    },
}

/// Decides how a tile's imagery continues, given the state of its loading
/// imagery and the statuses of that imagery's ancestors, nearest first: the
/// nearest usable ancestor stands in; if the tile's imagery failed, the
/// nearest ancestor below the stand-in that has not failed is processed next,
/// and only when there is none is the tile done loading.
pub fn decide_tile_imagery(
    state: ImageryState,
    ancestors: &Vec<AncestorStatus>,
    use_web_mercator_t: bool,
) -> (r: TileImageryDecision)
    ensures
        state == ImageryState::READY ==> r == TileImageryDecision::Promote,
        state != ImageryState::READY ==> (r matches TileImageryDecision::Fallback { ready_ancestor, process_ancestor, done_loading } && {
            let limit = match ready_ancestor { Some(i) => i as int, None => ancestors.len() as int };
            &&& (ready_ancestor matches Some(i) ==> i < ancestors.len() && ancestor_usable(ancestors@[i as int], use_web_mercator_t))
            &&& forall|j: int| 0 <= j < limit ==> !ancestor_usable(#[trigger] ancestors@[j], use_web_mercator_t)
            &&& (process_ancestor matches Some(k) ==> {
                &&& imagery_failed(state)
                &&& k < limit
                &&& !imagery_failed(ancestors@[k as int].state)
                &&& forall|j: int| 0 <= j < k ==> imagery_failed(#[trigger] ancestors@[j].state)
            })
            &&& (process_ancestor is None && imagery_failed(state) ==> forall|j: int| 0 <= j < limit ==> imagery_failed(#[trigger] ancestors@[j].state))
            &&& done_loading == (imagery_failed(state) && process_ancestor is None)
        }),
{
    if state == ImageryState::READY {
        return TileImageryDecision::Promote;
    }
    let mut i: usize = 0;
    let mut closest: Option<usize> = None;
    while i < ancestors.len()
        invariant
            i <= ancestors.len(),
            forall|j: int| 0 <= j < i ==> !ancestor_usable(#[trigger] ancestors@[j], use_web_mercator_t),
            closest matches Some(k) ==> k < i && !imagery_failed(ancestors@[k as int].state)
                && forall|j: int| 0 <= j < k ==> imagery_failed(#[trigger] ancestors@[j].state),
            closest is None ==> forall|j: int| 0 <= j < i ==> imagery_failed(#[trigger] ancestors@[j].state),
        ensures
            i <= ancestors.len(),
            i < ancestors.len() ==> ancestor_usable(ancestors@[i as int], use_web_mercator_t),
            forall|j: int| 0 <= j < i ==> !ancestor_usable(#[trigger] ancestors@[j], use_web_mercator_t),
            closest matches Some(k) ==> k < i && !imagery_failed(ancestors@[k as int].state)
                && forall|j: int| 0 <= j < k ==> imagery_failed(#[trigger] ancestors@[j].state),
            closest is None ==> forall|j: int| 0 <= j < i ==> imagery_failed(#[trigger] ancestors@[j].state),
        decreases ancestors.len() - i,
    {
        let a = ancestors[i];
        let usable = a.state == ImageryState::READY && (use_web_mercator_t || a.has_texture);
        if usable {
            break;
        }
        if a.state != ImageryState::FAILED && a.state != ImageryState::INVALID {
            if closest.is_none() {
                closest = Some(i);
            }
        }
        i = i + 1;
    }
    let ready_ancestor = if i < ancestors.len() { Some(i) } else { None };
    let failed = state == ImageryState::FAILED || state == ImageryState::INVALID;
    let process_ancestor = if failed { closest } else { None };
    TileImageryDecision::Fallback {
        ready_ancestor,
        process_ancestor,
        done_loading: failed && process_ancestor.is_none(),
    }
}

/// Running summary of a tile's imageries while they are processed in turn.
#[derive(Clone, Copy, Debug, PartialEq, Eq, Structural)]
pub struct ImageryProgress {
    /// No imagery of the tile has anything better than its parent's image.
    pub is_upsampled_only: bool,
    /// Some imagery of the tile has an image to show.
    pub is_any_tile_loaded: bool,
    /// Every imagery processed so far is done loading.
    pub is_done_loading: bool,
}

/// What processing one of a tile's imageries showed.
#[derive(Clone, Copy, Debug, PartialEq, Eq, Structural)]
pub enum TileImageryObservation {
    /// The imagery has no loading imagery left.
    NoLoadingImagery,
    /// The imagery's loading imagery went through its state machine.
    Processed {
        /// It is a placeholder whose layer or provider is not ready.
        placeholder_not_ready: bool,
        /// The imagery is done loading.
        done_loading: bool,
        /// The imagery has a ready image after processing.
        has_ready_imagery: bool,
        /// The imagery still has a loading imagery after processing.
        still_loading: bool,
        /// That loading imagery failed or is invalid.
        loading_failed: bool,
    },
}

/// The summary before any imagery of a tile is processed.
pub fn start_imagery_progress(upsampled_from_parent: bool) -> (r: ImageryProgress)
    ensures
        r == (ImageryProgress { is_upsampled_only: upsampled_from_parent, is_any_tile_loaded: false, is_done_loading: true }),
{
    ImageryProgress { is_upsampled_only: upsampled_from_parent, is_any_tile_loaded: false, is_done_loading: true }
}

/// The summary after one more imagery of the tile is taken into account.
pub open spec fn imagery_progress_next(p: ImageryProgress, obs: TileImageryObservation) -> ImageryProgress {
    match obs {
        TileImageryObservation::NoLoadingImagery => ImageryProgress { is_upsampled_only: false, ..p },
        TileImageryObservation::Processed { placeholder_not_ready, done_loading, has_ready_imagery, still_loading, loading_failed } => ImageryProgress {
            is_upsampled_only: !placeholder_not_ready && p.is_upsampled_only && still_loading && loading_failed,
            is_any_tile_loaded: p.is_any_tile_loaded || done_loading || has_ready_imagery,
            is_done_loading: p.is_done_loading && done_loading,
        },
    }
}

/// Takes one more processed imagery of the tile into account.
pub fn observe_tile_imagery(p: ImageryProgress, obs: TileImageryObservation) -> (r: ImageryProgress)
    ensures
        r == imagery_progress_next(p, obs),
{
    match obs {
        TileImageryObservation::NoLoadingImagery => ImageryProgress { is_upsampled_only: false, ..p },
        TileImageryObservation::Processed { placeholder_not_ready, done_loading, has_ready_imagery, still_loading, loading_failed } => {
            let mut is_upsampled_only = p.is_upsampled_only;
            if placeholder_not_ready {
                is_upsampled_only = false;
            }
            let is_done_loading = p.is_done_loading && done_loading;
            let is_any_tile_loaded = p.is_any_tile_loaded || done_loading || has_ready_imagery;
            is_upsampled_only = is_upsampled_only && still_loading && loading_failed;
            ImageryProgress { is_upsampled_only, is_any_tile_loaded, is_done_loading }
        },
    }
}

/// The tile's new flags once all its imageries are processed: whether it is
/// only upsampled from its parent, and whether it stays renderable (it was,
/// and some image is loaded or all are done loading).
pub fn finish_imagery_progress(p: ImageryProgress, renderable: bool) -> (r: (bool, bool))
    ensures
        r == (p.is_upsampled_only, renderable && (p.is_any_tile_loaded || p.is_done_loading)),
{
    (p.is_upsampled_only, renderable && (p.is_any_tile_loaded || p.is_done_loading))
}

/// Where a walk over a tile's imageries stands: the cursor, the number of
/// imageries in the list, and the summary so far.
#[derive(Clone, Copy, Debug, PartialEq, Eq, Structural)]
pub struct ImageryWalk {
    pub index: usize,
    pub len: usize,
    pub progress: ImageryProgress,
}

/// What the caller found at the cursor of the walk.
#[derive(Clone, Copy, Debug, PartialEq, Eq, Structural)]
pub enum ImageryWalkEvent {
    /// The imagery at the cursor was looked at, and processed where it was
    /// loading, with this outcome.
    Observed { obs: TileImageryObservation },
    /// The imagery at the cursor was a placeholder whose layer and provider
    /// are ready, and it was taken out of the list.
    PlaceholderRemoved,
}

/// A walk over a list of `len` imageries of a tile that was upsampled from
/// its parent or not, before any imagery is looked at.
pub fn start_imagery_walk(len: usize, upsampled_from_parent: bool) -> (r: ImageryWalk)
    ensures
        r == (ImageryWalk { index: 0, len, progress: ImageryProgress {
            is_upsampled_only: upsampled_from_parent,
            is_any_tile_loaded: false,
            is_done_loading: true,
        } }),
{
    ImageryWalk { index: 0, len, progress: start_imagery_progress(upsampled_from_parent) }
}

/// The walk after one event: an observed imagery counts in the summary and
/// the cursor moves on; after a removal the list is one shorter and the
/// cursor steps back onto the imagery before the removed one.
pub open spec fn imagery_walk_next(w: ImageryWalk, e: ImageryWalkEvent) -> ImageryWalk {
    match e {
        ImageryWalkEvent::Observed { obs } => ImageryWalk {
            index: (w.index + 1) as usize,
            len: w.len,
            progress: imagery_progress_next(w.progress, obs),
        },
        ImageryWalkEvent::PlaceholderRemoved => ImageryWalk {
            index: (w.index - 1) as usize,
            len: (w.len - 1) as usize,
            progress: w.progress,
        },
    }
}

/// How far a walk is from its end; every step brings it closer.
pub open spec fn imagery_walk_measure(w: ImageryWalk) -> int {
    2 * w.len - w.index
}

/// Advances the walk by one event. The walk goes on while the cursor is
/// inside the list; a removal needs an imagery before the cursor to step back
/// onto.
pub fn imagery_walk_step(w: ImageryWalk, e: ImageryWalkEvent) -> (r: ImageryWalk)
    requires
        w.index < w.len,
        e is PlaceholderRemoved ==> w.index > 0,
    ensures
        r == imagery_walk_next(w, e),
        r.index <= r.len,
        0 <= imagery_walk_measure(r) < imagery_walk_measure(w),
{
    match e {
        ImageryWalkEvent::Observed { obs } => ImageryWalk {
            index: w.index + 1,
            len: w.len,
            progress: observe_tile_imagery(w.progress, obs),
        },
        ImageryWalkEvent::PlaceholderRemoved => ImageryWalk {
            index: w.index - 1,
            len: w.len - 1,
            progress: w.progress,
        },
    }
}


/// A loaded image ends its round ready, whatever the projection and whether
/// loading is skipped; a failed load ends it failed, and a pending one keeps
/// it requesting. Received, texture-loaded and ready imagery is ready after a
/// round; any other imagery that is not loading keeps its state.
pub proof fn lemma_loaded_image_is_ready(s: ImageryState, skip_loading: bool, need_geographic_projection: bool)
    ensures
        imagery_next(ImageryState::REQUESTING, ImageryEvent::LoadChecked { status: ImageLoadStatus::Loaded },
            skip_loading, need_geographic_projection) == (ImageryState::READY, ImageryAction::Finished),
        imagery_next(ImageryState::REQUESTING, ImageryEvent::LoadChecked { status: ImageLoadStatus::Failed },
            skip_loading, need_geographic_projection) == (ImageryState::FAILED, ImageryAction::Finished),
        imagery_next(ImageryState::REQUESTING, ImageryEvent::LoadChecked { status: ImageLoadStatus::Pending },
            skip_loading, need_geographic_projection) == (ImageryState::REQUESTING, ImageryAction::Finished),
        imagery_round(ImageryState::UNLOADED, false, need_geographic_projection, true, ImageLoadStatus::Loaded)
            == ImageryState::READY,
        s == ImageryState::RECEIVED || s == ImageryState::TEXTURE_LOADED || s == ImageryState::READY ==>
            imagery_next(s, ImageryEvent::Begin, skip_loading, need_geographic_projection)
                == (ImageryState::READY, ImageryAction::Finished),
        s != ImageryState::RECEIVED && s != ImageryState::TEXTURE_LOADED && s != ImageryState::READY
            && s != ImageryState::REQUESTING && s != ImageryState::UNLOADED ==>
            imagery_next(s, ImageryEvent::Begin, skip_loading, need_geographic_projection)
                == (s, ImageryAction::Finished),
{
}

/// Whether an observation says its imagery is done loading; an imagery with
/// nothing left to load does not hold the tile back.
pub open spec fn observation_done(obs: TileImageryObservation) -> bool {
    match obs {
        TileImageryObservation::NoLoadingImagery => true,
        TileImageryObservation::Processed { done_loading, .. } => done_loading,
    }
}

/// Whether an observation shows an image for its imagery.
pub open spec fn observation_shows_image(obs: TileImageryObservation) -> bool {
    match obs {
        TileImageryObservation::NoLoadingImagery => false,
        TileImageryObservation::Processed { done_loading, has_ready_imagery, .. } => done_loading || has_ready_imagery,
    }
}

/// The summary after the observations `obs`, in order, starting from `p`.
pub open spec fn progress_after(p: ImageryProgress, obs: Seq<TileImageryObservation>) -> ImageryProgress
    decreases obs.len(),
{
    if obs.len() == 0 {
        p
    } else {
        imagery_progress_next(progress_after(p, obs.drop_last()), obs.last())
    }
}

/// One more observation never makes the tile more done, less loaded or more
/// upsampled than before: it stays done loading only if it was and the
/// observed imagery is done; it has an image if it had one or the observed
/// imagery shows one; and an imagery without loading imagery ends the tile's
/// being only upsampled.
pub proof fn lemma_progress_step(p: ImageryProgress, obs: TileImageryObservation)
    ensures
        imagery_progress_next(p, obs).is_done_loading <==> (p.is_done_loading && observation_done(obs)),
        imagery_progress_next(p, obs).is_any_tile_loaded <==> (p.is_any_tile_loaded || observation_shows_image(obs)),
        imagery_progress_next(p, obs).is_upsampled_only ==> p.is_upsampled_only,
        obs is NoLoadingImagery ==> !imagery_progress_next(p, obs).is_upsampled_only,
{
}

/// After a whole walk the tile is done loading exactly when it was at the
/// start and every observed imagery was done, and it has an image exactly when
/// it had one at the start or some observed imagery shows one.
pub proof fn lemma_progress_after_walk(p: ImageryProgress, obs: Seq<TileImageryObservation>)
    ensures
        progress_after(p, obs).is_done_loading <==> (p.is_done_loading
            && forall|i: int| 0 <= i < obs.len() ==> observation_done(#[trigger] obs[i])),
        progress_after(p, obs).is_any_tile_loaded <==> (p.is_any_tile_loaded
            || exists|i: int| 0 <= i < obs.len() && observation_shows_image(#[trigger] obs[i])),
    decreases obs.len(),
{
    if obs.len() > 0 {
        let rest = obs.drop_last();
        lemma_progress_after_walk(p, rest);
        lemma_progress_step(progress_after(p, rest), obs.last());
        assert forall|i: int| 0 <= i < rest.len() implies #[trigger] rest[i] == obs[i] by {}
        if p.is_any_tile_loaded || exists|i: int| 0 <= i < obs.len() && observation_shows_image(#[trigger] obs[i]) {
            if !p.is_any_tile_loaded && !observation_shows_image(obs.last()) {
                let i = choose|i: int| 0 <= i < obs.len() && observation_shows_image(#[trigger] obs[i]);
                assert(i < rest.len());
                assert(observation_shows_image(rest[i]));
            }
        }
        if exists|i: int| 0 <= i < rest.len() && observation_shows_image(#[trigger] rest[i]) {
            let i = choose|i: int| 0 <= i < rest.len() && observation_shows_image(#[trigger] rest[i]);
            assert(observation_shows_image(obs[i]));
        }
        if p.is_done_loading && forall|i: int| 0 <= i < obs.len() ==> observation_done(#[trigger] obs[i]) {
            assert forall|i: int| 0 <= i < rest.len() implies observation_done(#[trigger] rest[i]) by {
                assert(observation_done(obs[i]));
            }
            assert(observation_done(obs[obs.len() - 1]));
        }
        if progress_after(p, obs).is_done_loading {
            assert forall|i: int| 0 <= i < obs.len() implies observation_done(#[trigger] obs[i]) by {
                if i < rest.len() {
                    assert(observation_done(rest[i]));
                }
            }
        }
    }
}

} // verus!
