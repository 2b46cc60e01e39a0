//! The pure steps of one run: resolve the input text, process it on a fresh
//! processor, render the result as JSON, and snapshot the stats. Reading a
//! file, writing a file and printing stay with the caller.

use vstd::prelude::*;
use vstd::string::*;
use crate::json::{spec_json, to_json_pretty};
use crate::processor::{spec_message, ProcessResult, Stats, WorkflowEngineProcessor};

verus! {

/// The text a run processes when no input path is given.
pub open spec fn spec_default_input() -> Seq<char> {
    "Sample data for processing"@
}

/// The input text a run resolves: the file's contents when a path was given
/// and read, and the built-in default otherwise.
pub open spec fn spec_input_text(input: Option<String>) -> Seq<char> {
    match input {
        Some(text) => text@,
        None => spec_default_input(),
    }
}

/// The fixed text processed when no input path is given.
pub fn default_input_text() -> (s: String)
    ensures
        s@ == spec_default_input(),
{
    "Sample data for processing".to_owned()
}

/// Everything one run produces before any output is written: the processing
/// result, its JSON rendering, and the processor's final stats.
#[derive(Debug, PartialEq, Eq)]
pub struct RunOutput {
    pub result: ProcessResult,
    pub rendered: String,
    pub stats: Stats,
}

/// Performs the pure part of one run on a fresh processor: processes the
/// resolved input text exactly once and renders the result. The record is
/// always successful, counts the input's characters, and carries item number
/// 1; the stats read one processed item and the given verbosity.
pub fn run_on_input(verbose: bool, input: Option<String>) -> (out: RunOutput)
    ensures
        out.result.success == true,
        out.result.message@ == spec_message(1),
        out.result.data is Some,
        out.result.data->Some_0.length == spec_input_text(input).len(),
        out.result.data->Some_0.item_number == 1,
        out.rendered@ == spec_json(out.result),
        out.stats.processed_count == 1,
        out.stats.verbose == verbose,
{
    let mut processor = WorkflowEngineProcessor::new(verbose);
    let input_text = match input {
        Some(text) => text,
        None => default_input_text(),
    };
    let result = match processor.process(input_text.as_str()) {
        Ok(r) => r,
        Err(_) => unreached(),
    };
    let rendered = to_json_pretty(&result);
    let stats = processor.get_stats();
    RunOutput { result, rendered, stats }
}

} // verus!
