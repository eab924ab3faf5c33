//! Core logic of the glassbox music overlay: the sample tap that feeds the
//! waveform display, album palette extraction, song metadata, playback
//! bookkeeping and the Wayland registry scan.

pub mod tap;
pub mod palette;
pub mod song;
pub mod player;
pub mod wayland;
pub mod cover;
