use workflowengine::{ProcessError, WorkflowEngineProcessor};

#[test]
fn test_processor_creation() {
    let processor = WorkflowEngineProcessor::new(true);
    let stats = processor.get_stats();
    assert_eq!(stats.verbose, true);
    assert_eq!(stats.processed_count, 0);
}

#[test]
fn test_data_processing() {
    let mut processor = WorkflowEngineProcessor::new(false);
    let result = processor.process("test data").unwrap();

    assert!(result.success);
    assert_eq!(processor.get_stats().processed_count, 1);
}

#[test]
fn test_counter_increments_on_empty_and_non_empty_input() {
    let mut processor = WorkflowEngineProcessor::new(false);
    processor.process("").unwrap();
    assert_eq!(processor.get_stats().processed_count, 1);
    processor.process("some input").unwrap();
    assert_eq!(processor.get_stats().processed_count, 2);
    processor.process("").unwrap();
    assert_eq!(processor.get_stats().processed_count, 3);
}

#[test]
fn test_sequential_item_numbers() {
    let mut processor = WorkflowEngineProcessor::new(false);
    for expected in 1..=5usize {
        let result = processor.process("x").unwrap();
        let data = result.data.unwrap();
        assert_eq!(data.item_number, expected);
        assert_eq!(
            result.message,
            format!("Successfully processed item #{}", expected)
        );
        assert_eq!(processor.get_stats().processed_count, expected);
    }
}

#[test]
fn test_length_is_character_count() {
    let mut processor = WorkflowEngineProcessor::new(false);
    assert_eq!(processor.process("hello").unwrap().data.unwrap().length, 5);
    assert_eq!(processor.process("").unwrap().data.unwrap().length, 0);
    // The size metric is the character count, applied consistently.
    assert_eq!(processor.process("héllo").unwrap().data.unwrap().length, 5);
}

#[test]
fn test_timestamp_is_passed_through() {
    let mut processor = WorkflowEngineProcessor::new(false);
    let result = processor.process_with_timestamp("abc", String::from("2024-01-02T03:04:05+00:00"));
    assert!(result.success);
    let data = result.data.unwrap();
    assert_eq!(data.processed_at, "2024-01-02T03:04:05+00:00");
    assert_eq!(data.length, 3);
    assert_eq!(data.item_number, 1);
}

#[test]
fn test_get_stats_before_any_process_call() {
    let quiet = WorkflowEngineProcessor::new(false);
    assert_eq!(quiet.get_stats().processed_count, 0);
    assert_eq!(quiet.get_stats().verbose, false);

    let verbose = WorkflowEngineProcessor::new(true);
    assert_eq!(verbose.get_stats().processed_count, 0);
    assert_eq!(verbose.get_stats().verbose, true);
}

#[test]
fn test_error_variants_carry_their_message() {
    let input = ProcessError::InputError(String::from("missing file"));
    let output = ProcessError::OutputError(String::from("permission denied"));
    let ser = ProcessError::SerializationError(String::from("bad value"));
    assert!(matches!(input, ProcessError::InputError(ref m) if m == "missing file"));
    assert!(matches!(output, ProcessError::OutputError(ref m) if m == "permission denied"));
    assert!(matches!(ser, ProcessError::SerializationError(ref m) if m == "bad value"));
}
