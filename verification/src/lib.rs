//! Library for a batch text-to-speech front end: it chops input lines into
//! speakable chunks (at Japanese sentence and clause delimiters), predicts how
//! many synthesis jobs a line produces, builds the command lines that drive
//! the external synthesis engine, and merges the per-chunk WAV results into a
//! single mono 16-bit PCM file.

pub mod chunk;
pub mod voicepeak;
pub mod wav;
