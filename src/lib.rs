//! Turning a spectrogram-like picture into sound: the integer side of the
//! pipeline, verified. Rows of the picture become frequency bands, columns
//! become time blocks, and the synthesis schedule fixes which output sample
//! each oscillator step writes and with which crossfade weight.

pub mod bands;
pub mod grid;
pub mod pcm;
pub mod synth;

pub use bands::{decompose, IntensityBand};
pub use grid::{luma_spec, Image};
pub use pcm::{encode_pcm, high_byte, low_byte};
pub use synth::{block_count, same_lengths, Envelope, Step, SynthError, Timing};
