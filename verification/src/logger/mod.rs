pub mod console_sink;
pub mod memory_sink;
pub mod sinks;
pub mod types;

pub use console_sink::ConsoleLogSink;
pub use memory_sink::MemoryLogSink;
pub use types::{LogAction, LogEntry, QueryLogAction, QueryLogEntry, QueryLogSink};
