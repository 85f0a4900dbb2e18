//! Codec for a binary character-savegame format.
//!
//! A save file is a fixed-schema prefix — an appearance/equipment record,
//! ten quickslots, a cosmetic record, and a length-prefixed nickname —
//! followed by an opaque tail that is preserved byte for byte. Decoding
//! and encoding are specified against mathematical byte sequences, and the
//! round-trip properties that protect player data are proved here.

pub mod error;
pub mod primitive;
pub mod utf8;
pub mod csharp_string;
pub mod quickslot;
pub mod player;
pub mod outfit_color;
