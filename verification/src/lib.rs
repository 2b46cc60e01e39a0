//! A small workflow engine: a processor that wraps an input string's length,
//! a timestamp and a running item number into a fixed-shape JSON record, and
//! the pure steps of the run that surrounds it.

mod clock;
pub mod json;
pub mod numeral;
pub mod processor;
pub mod runner;

pub use processor::ProcessData;
pub use processor::ProcessError;
pub use processor::ProcessResult;
pub use processor::Stats;
pub use processor::WorkflowEngineProcessor;
pub use json::to_json_pretty;
pub use numeral::usize_to_string;
pub use runner::default_input_text;
pub use runner::run_on_input;
pub use runner::RunOutput;
