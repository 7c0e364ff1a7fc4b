//! Maps and sets keyed by version 4 and version 7 UUIDs, hashed by the
//! random bytes that such identifiers already hold.

pub mod archive;
pub mod hasher;
pub mod id;
pub mod index_map;
pub mod index_set;
pub mod laws;
pub mod like;
pub mod like_index;
pub mod map;
pub mod model;
pub mod set;

pub use archive::{UuidLikeMapResolver, UuidLikeSetResolver, UuidMapResolver, UuidSetResolver};
pub use hasher::{UuidBuildHasher, UuidHasher};
pub use id::is_supported_id;
pub use index_map::UuidIndexMap;
pub use index_set::UuidIndexSet;
pub use like::{UuidLike, UuidLikeMap, UuidLikeSet};
pub use like_index::{UuidLikeIndexMap, UuidLikeIndexSet};
pub use map::UuidMap;
pub use set::UuidSet;
