//! Effects around the play: the countdown before a round and the particles of a hit.

pub mod countdown;
pub mod particles;
