//! The processor: turns one input string into a structured result and counts
//! how many results it has produced.

use vstd::prelude::*;
use vstd::string::*;
use crate::clock::now_rfc3339;
use crate::numeral::{append_digits, spec_digits};

verus! {

/// The structured payload of one processing result.
#[derive(Debug, PartialEq, Eq)]
pub struct ProcessData {
    /// The character count of the input that was processed.
    pub length: usize,
    /// The timestamp the result was produced at, as an RFC 3339 string.
    pub processed_at: String,
    /// The running number of the processed item: 1 for the first call, and so on.
    pub item_number: usize,
}

/// The fixed-shape record produced by one processing operation.
#[derive(Debug, PartialEq, Eq)]
pub struct ProcessResult {
    pub success: bool,
    pub message: String,
    pub data: Option<ProcessData>,
}

/// A snapshot of a processor's state: how many items it has processed and
/// whether it was constructed in verbose mode.
#[derive(Debug, Clone, Copy, PartialEq, Eq)]
pub struct Stats {
    pub processed_count: usize,
    pub verbose: bool,
}

/// The closed set of failures a run can surface, each carrying a description.
#[derive(Debug, PartialEq, Eq)]
pub enum ProcessError {
    /// The input could not be read.
    InputError(String),
    /// The output could not be written.
    OutputError(String),
    /// The result could not be serialized; unreachable with the fixed record
    /// shape, kept so that the failure path exists.
    SerializationError(String),
}

/// The message that accompanies the `n`-th successfully processed item.
pub open spec fn spec_message(n: nat) -> Seq<char> {
    "Successfully processed item #"@ + spec_digits(n)
}

/// The stateful component that turns raw input text into a structured result
/// and tracks how many such operations it has performed.
#[derive(Debug)]
pub struct WorkflowEngineProcessor {
    verbose: bool,
    processed_count: usize,
}

impl WorkflowEngineProcessor {
    /// The number of successful processing calls made on this instance.
    pub closed spec fn spec_count(&self) -> nat {
        self.processed_count as nat
    }

    /// The verbosity flag the instance was constructed with; never mutated.
    pub closed spec fn spec_verbose(&self) -> bool {
        self.verbose
    }

    /// Constructs a processor with the given verbosity flag and a counter at zero.
    pub fn new(verbose: bool) -> (p: Self)
        ensures
            p.spec_verbose() == verbose,
            p.spec_count() == 0,
    {
        Self { verbose, processed_count: 0 }
    }

    /// Processes one input string with the given timestamp: increments the
    /// counter by exactly one and returns the record for the new count. Total
    /// over all string inputs; the timestamp is taken as an argument so that
    /// the caller chooses the time source.
    pub fn process_with_timestamp(&mut self, data: &str, processed_at: String) -> (r: ProcessResult)
        requires
            old(self).spec_count() < usize::MAX,
        ensures
            final(self).spec_count() == old(self).spec_count() + 1,
            final(self).spec_verbose() == old(self).spec_verbose(),
            r.success == true,
            r.message@ == spec_message(final(self).spec_count()),
            r.data is Some,
            r.data->Some_0.length == data@.len(),
            r.data->Some_0.processed_at@ == processed_at@,
            r.data->Some_0.item_number == final(self).spec_count(),
    {
        let length = data.unicode_len();
        self.processed_count = self.processed_count + 1;
        let mut message = "Successfully processed item #".to_owned();
        append_digits(&mut message, self.processed_count);
        ProcessResult {
            success: true,
            message,
            data: Some(ProcessData { length, processed_at, item_number: self.processed_count }),
        }
    }

    /// Processes one input string: increments the counter by exactly one and
    /// returns a successful record carrying the input's character count, the
    /// current RFC 3339 timestamp, and the new count as the item number.
    /// Returns `Ok` on every input; the error type exists for the failure
    /// paths of the surrounding run.
    pub fn process(&mut self, data: &str) -> (r: Result<ProcessResult, ProcessError>)
        requires
            old(self).spec_count() < usize::MAX,
        ensures
            r is Ok,
            final(self).spec_count() == old(self).spec_count() + 1,
            final(self).spec_verbose() == old(self).spec_verbose(),
            r->Ok_0.success == true,
            r->Ok_0.message@ == spec_message(final(self).spec_count()),
            r->Ok_0.data is Some,
            r->Ok_0.data->Some_0.length == data@.len(),
            r->Ok_0.data->Some_0.item_number == final(self).spec_count(),
    {
        let processed_at = now_rfc3339();
        Ok(self.process_with_timestamp(data, processed_at))
    }

    /// Returns a read-only snapshot of the processor's state. Callable any
    /// number of times; never mutates.
    pub fn get_stats(&self) -> (s: Stats)
        ensures
            s.processed_count == self.spec_count(),
            s.verbose == self.spec_verbose(),
    {
        Stats { processed_count: self.processed_count, verbose: self.verbose }
    }
}

/// The counter value after a run of successful processing calls starting from
/// `start`: each call adds exactly one, as `process` ensures.
pub open spec fn count_after_calls(start: nat, n: nat) -> nat
    decreases n,
{
    if n == 0 {
        start
    } else {
        count_after_calls(start, (n - 1) as nat) + 1
    }
}

/// After `n` sequential successful `process` calls on a processor constructed
/// by `new`, the counter — and so `get_stats().processed_count` — reads `n`,
/// and the item number carried by the `n`-th result, which is the counter
/// after the `n`-th call, equals `n`.
pub proof fn lemma_count_after_n_calls(n: nat)
    ensures
        count_after_calls(0, n) == n,
        n >= 1 ==> count_after_calls(0, (n - 1) as nat) + 1 == n,
    decreases n,
{
    if n >= 1 {
        lemma_count_after_n_calls((n - 1) as nat);
    }
}

} // verus!
