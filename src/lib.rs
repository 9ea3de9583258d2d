//! Short-time spectral analysis of 16-bit PCM audio.
//!
//! Samples are split into overlapping frames, each frame is centred (its DC
//! bias removed), and the fixed-point complex spectrum of each frame is turned
//! into labelled frequency bins, which can then be averaged or searched for
//! their strongest bin. Tapering and the Fourier transform itself are left to
//! the caller, which hands the library integer spectra back.
pub mod error;
pub mod audio_processing;
pub mod window;
pub mod spectrum;
pub mod aggregate;
pub mod mic_utils;
pub mod song_utils;
pub mod wav;
