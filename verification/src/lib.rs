//! Verified core of a quadtree-based globe renderer: tile addressing,
//! tiling-scheme tile counts, load queues, the imagery and terrain state
//! machines, and the construction of imagery tile request URLs.

pub mod atlas;
pub mod decimal;
pub mod imagery_cache;
pub mod imagery_range;
pub mod imagery_state;
pub mod load_queue;
pub mod params;
pub mod template;
pub mod terrain_state;
pub mod text_order;
pub mod tile_imagery;
pub mod tile_key;
pub mod tiling;
pub mod url_text;
pub mod visibility;
pub mod wmts;
pub mod xyz;
