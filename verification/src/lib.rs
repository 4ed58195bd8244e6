//! A deterministic, replayable random-byte ledger and the color and
//! draw-planning logic of a seed-driven generative visual.
//!
//! The heart of the crate is [`cache::RandCache`]: an append-only ledger of
//! previously drawn random bytes with a replay cursor. Rewinding the cursor
//! and re-reading yields exactly the bytes of the first pass, so a draw cycle
//! re-run after a resize makes the same random choices as the first one.
//! [`color::Color`] carries an RGBA value, decodes it from a host-supplied
//! configuration string and renders it as a `rgba(...)` text. [`render`]
//! turns one draw trigger into a plan of plain values for the surface, and
//! [`replay`] states and proves the replay laws of the ledger.

pub mod cache;
pub mod color;
pub mod render;
pub mod replay;
