//! Line-oriented log ingestion from serial sources: framing, filtering,
//! backpressure accounting and fan-out, with their contracts.

pub mod config;
pub mod engine;
pub mod error;
pub mod framing;
pub mod port_spec;
pub mod processing;
pub mod reader;
pub mod scan;
pub mod sinks;
pub mod text;
pub mod types;

pub use config::{CliArgs, Config, RuntimeConfig};
pub use engine::{Engine, LineFilter, PublishReport, SendOutcome};
pub use error::AppError;
pub use framing::{try_pop_line, Framer, Frames, MAX_ACC_BYTES};
pub use port_spec::{PortSpec, PortSpecParseError, ResolvedPortSpec};
pub use processing::{LogProcessor, ProcessedEvent};
pub use reader::{ReadErrorKind, ReaderAction, ReaderEvent, ReaderPhase, ReaderStep, SourceReader};
pub use sinks::{EventSink, StdoutSink};
pub use types::{AppEvent, LogLevel, SourceId, Timestamp};
