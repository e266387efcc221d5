//! A tiny desktop-pet animation core: a static table of animation clips, a
//! frame cycler that advances a sprite-sheet index on an accumulating timer,
//! and a bottom anchor that pins the sprite's bottom edge to the bottom of
//! the display. The host engine (windowing, assets, entity storage) drives
//! these routines once per rendered frame.

pub mod anchor;
pub mod cycler;
pub mod entity;
pub mod table;
