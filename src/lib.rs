//! Binary marshalling for a point-clustering engine: a raw byte buffer is
//! viewed as 32-bit scalars and grouped into points, and the engine's
//! clusters are packed into a stream of 16-bit words.
//!
//! Scalars are handled as their four raw bytes: nothing here reads their
//! numeric value, so byte order is left to whoever does.

pub mod dispatch;
pub mod encode;
pub mod error;
pub mod points;
pub mod scalars;

pub use dispatch::{read_points, DecodedPoints};
pub use encode::{pack_clusters, pack_index_word, unpack_index_word, Assignment, Category, MAX_POINT_INDEX};
pub use error::ClusterError;
pub use scalars::{byte_array_as_scalar_type, Scalars};
pub use points::{read_packed_data, read_packed_data_dyn, DataPoint, DataPointDyn};
