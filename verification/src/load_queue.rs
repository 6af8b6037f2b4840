use vstd::prelude::*;

verus! {

/// Priority class of a tile waiting to be loaded; `NoQueue` means not queued.
#[derive(Clone, Copy, Debug, PartialEq, Eq, Structural)]
pub enum QueueType {
    NoQueue,
    High,
    Medium,
    Low,
}

impl Default for QueueType {
    fn default() -> (r: QueueType)
        ensures
            r == QueueType::NoQueue,
    {
        QueueType::NoQueue
    }
}

/// The tiles waiting to be loaded, one list per priority class, each in the
/// order the tiles were queued. A tile is identified by its entity id.
pub struct Queue {
    pub tile_load_queue_high: Vec<u64>,
    pub tile_load_queue_medium: Vec<u64>,
    pub tile_load_queue_low: Vec<u64>,
}

/// A tile's load request: the tile's entity id and the priority class it
/// asks to be queued in.
#[derive(Clone, Copy, Debug, PartialEq, Eq, Structural)]
pub struct TileLoad {
    pub entity: u64,
    pub queue_type: QueueType,
}

/// The entities of the tiles in `tiles` that ask for class `c`, in order.
pub open spec fn entities_in_class(tiles: Seq<TileLoad>, c: QueueType) -> Seq<u64>
    decreases tiles.len(),
{
    if tiles.len() == 0 {
        Seq::empty()
    } else {
        let rest = entities_in_class(tiles.drop_last(), c);
        if tiles.last().queue_type == c {
            rest.push(tiles.last().entity)
        } else {
            rest
        }
    }
}

/// Total number of queued tiles.
pub open spec fn queue_size(q: Queue) -> int {
    q.tile_load_queue_high.len() + q.tile_load_queue_medium.len() + q.tile_load_queue_low.len()
}

impl Queue {
    /// An empty queue.
    pub fn new() -> (r: Queue)
        ensures
            r.tile_load_queue_high@.len() == 0,
            r.tile_load_queue_medium@.len() == 0,
            r.tile_load_queue_low@.len() == 0,
    {
        Queue {
            tile_load_queue_high: Vec::new(),
            tile_load_queue_medium: Vec::new(),
            tile_load_queue_low: Vec::new(),
        }
    }

    /// Empties all three lists.
    pub fn clear(&mut self)
        ensures
            final(self).tile_load_queue_high@.len() == 0,
            final(self).tile_load_queue_medium@.len() == 0,
            final(self).tile_load_queue_low@.len() == 0,
    {
        self.tile_load_queue_high.clear();
        self.tile_load_queue_medium.clear();
        self.tile_load_queue_low.clear();
    }

    /// Appends `entity` to the list of its priority class; a tile of class
    /// `NoQueue` is not queued.
    pub fn enqueue(&mut self, queue_type: &QueueType, entity: u64)
        ensures
            final(self).tile_load_queue_high@ == (if *queue_type == QueueType::High {
                old(self).tile_load_queue_high@.push(entity)
            } else {
                old(self).tile_load_queue_high@
            }),
            final(self).tile_load_queue_medium@ == (if *queue_type == QueueType::Medium {
                old(self).tile_load_queue_medium@.push(entity)
            } else {
                old(self).tile_load_queue_medium@
            }),
            final(self).tile_load_queue_low@ == (if *queue_type == QueueType::Low {
                old(self).tile_load_queue_low@.push(entity)
            } else {
                old(self).tile_load_queue_low@
            }),
            queue_size(*final(self)) == queue_size(*old(self)) + (if *queue_type == QueueType::NoQueue { 0int } else { 1int }),
    {
        match queue_type {
            QueueType::High => self.tile_load_queue_high.push(entity),
            QueueType::Medium => self.tile_load_queue_medium.push(entity),
            QueueType::Low => self.tile_load_queue_low.push(entity),
            _ => {},
        }
    }

    /// Total number of queued tiles.
    pub fn size(&self) -> (r: usize)
        requires
            queue_size(*self) <= usize::MAX,
        ensures
            r == queue_size(*self),
    {
        let p2_count = self.tile_load_queue_high.len();
        let p3_count = self.tile_load_queue_medium.len();
        let p4_count = self.tile_load_queue_low.len();
        p2_count + p3_count + p4_count
    }

    /// Whether no tile is queued.
    pub fn empty(&self) -> (r: bool)
        requires
            queue_size(*self) <= usize::MAX,
        ensures
            r == (queue_size(*self) == 0),
    {
        self.size() == 0
    }
}

/// Queues every tile of `tiles` in its class, in order, and marks each
/// tile as no longer asking to be queued. (How soon a tile is loaded within
/// its class is decided by the caller from the camera.)
pub fn enqueue_update(queue: &mut Queue, tiles: &mut Vec<TileLoad>)
    ensures
        final(queue).tile_load_queue_high@ == old(queue).tile_load_queue_high@ + entities_in_class(old(tiles)@, QueueType::High),
        final(queue).tile_load_queue_medium@ == old(queue).tile_load_queue_medium@ + entities_in_class(old(tiles)@, QueueType::Medium),
        final(queue).tile_load_queue_low@ == old(queue).tile_load_queue_low@ + entities_in_class(old(tiles)@, QueueType::Low),
        final(tiles)@.len() == old(tiles)@.len(),
        forall|i: int| 0 <= i < old(tiles)@.len() ==> #[trigger] final(tiles)@[i] == (TileLoad {
            entity: old(tiles)@[i].entity,
            queue_type: QueueType::NoQueue,
        }),
{
    let ghost tiles0 = tiles@;
    let ghost high0 = queue.tile_load_queue_high@;
    let ghost medium0 = queue.tile_load_queue_medium@;
    let ghost low0 = queue.tile_load_queue_low@;
    let mut i: usize = 0;
    while i < tiles.len()
        invariant
            i <= tiles.len(),
            tiles@.len() == tiles0.len(),
            queue.tile_load_queue_high@ == high0 + entities_in_class(tiles0.take(i as int), QueueType::High),
            queue.tile_load_queue_medium@ == medium0 + entities_in_class(tiles0.take(i as int), QueueType::Medium),
            queue.tile_load_queue_low@ == low0 + entities_in_class(tiles0.take(i as int), QueueType::Low),
            forall|j: int| 0 <= j < i ==> #[trigger] tiles@[j] == (TileLoad {
                entity: tiles0[j].entity,
                queue_type: QueueType::NoQueue,
            }),
            forall|j: int| i <= j < tiles0.len() ==> #[trigger] tiles@[j] == tiles0[j],
        decreases tiles0.len() - i,
    {
        let t = tiles[i];
        queue.enqueue(&t.queue_type, t.entity);
        tiles.set(i, TileLoad { entity: t.entity, queue_type: QueueType::NoQueue });
        proof {
            assert(tiles0.take(i + 1).drop_last() =~= tiles0.take(i as int));
            assert(tiles0.take(i + 1).last() == tiles0[i as int]);
        }
        i = i + 1;
    }
    proof {
        assert(tiles0.take(tiles0.len() as int) =~= tiles0);
    }
}

} // verus!
