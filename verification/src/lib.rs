//! Surgery on RAD containers: structural compatibility checking, lossless
//! concatenation of several containers into one, and re-partitioning of one
//! container into several along chunk boundaries.
//!
//! A container is a prelude (header plus three tag-section schemas), a
//! file-level tag value block, and an ordered sequence of chunks.  Each chunk
//! is an eight-byte header (byte length and record count, little-endian)
//! followed by an opaque payload.  The operations here are format-aware but
//! payload-opaque: chunks are moved whole and their payloads are never
//! interpreted.
//!
//! Containers are held in memory whole: the operations take and return byte
//! vectors rather than streams, so memory use grows with the size of the
//! files involved, not with the size of the largest single chunk.

pub mod buf;
pub mod cat;
pub mod chunk;
pub mod codec;
pub mod container;
pub mod err;
pub mod prelude;
pub mod split;
pub mod tags;
