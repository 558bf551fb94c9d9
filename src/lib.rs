//! Core of a modular sequencer/synthesizer: the pitch model, port strings,
//! the patch graph compiler and its assembly into a fundsp network, the
//! playback marker, sequence scheduling and progress reporting, and the
//! interleaving of stereo frames.
pub mod note;
pub mod port;
pub mod patch;
pub mod network;
pub mod marker;
pub mod sequencer;
pub mod frame;
