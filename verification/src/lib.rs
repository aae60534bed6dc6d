//! Batch conversion of raw VR8 sample dumps (mono, 16-bit little-endian signed
//! PCM, no header) into WAV containers: the decisions of the pipeline, stated
//! over plain values and proved.
//!
//! The library reads no file and writes none. Its caller lists directories,
//! reads inputs, writes outputs and keeps time, and asks the library at each
//! step what follows from what it saw.

pub mod batch;
pub mod converter;
pub mod duration;
pub mod error;
pub mod naming;
pub mod paths;
pub mod resolve;
pub mod samples;
pub mod text;
pub mod wav;

pub use batch::{convert_files, progress_percent, ConversionJob, ConversionResult};
pub use converter::{Converter, WavFile};
pub use duration::format_duration;
pub use error::ConverterError;
pub use naming::{get_unique_dir, DirChoice};
pub use resolve::ListedPath;
