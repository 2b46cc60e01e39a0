use workflowengine::{
    default_input_text, run_on_input, to_json_pretty, usize_to_string, ProcessData, ProcessResult,
    WorkflowEngineProcessor,
};

#[test]
fn test_json_exact_text() {
    let mut processor = WorkflowEngineProcessor::new(false);
    let result =
        processor.process_with_timestamp("hello", String::from("2024-01-01T00:00:00+00:00"));
    let rendered = to_json_pretty(&result);
    let expected = "{\n  \"success\": true,\n  \"message\": \"Successfully processed item #1\",\n  \"data\": {\n    \"length\": 5,\n    \"processed_at\": \"2024-01-01T00:00:00+00:00\",\n    \"item_number\": 1\n  }\n}";
    assert_eq!(rendered, expected);
}

#[test]
fn test_json_escapes_quotes_backslashes_and_controls() {
    let result = ProcessResult {
        success: false,
        message: String::from("a\"b\\c\nd"),
        data: None,
    };
    let rendered = to_json_pretty(&result);
    let expected =
        "{\n  \"success\": false,\n  \"message\": \"a\\\"b\\\\c\\u000ad\",\n  \"data\": null\n}";
    assert_eq!(rendered, expected);

    // The escaped text parses back to the original message.
    let value: serde_json::Value = serde_json::from_str(&rendered).unwrap();
    assert_eq!(
        value.get("message").unwrap().as_str().unwrap(),
        "a\"b\\c\nd"
    );
}

#[test]
fn test_serialized_result_round_trips() {
    let mut processor = WorkflowEngineProcessor::new(true);
    let result =
        processor.process_with_timestamp("round trip", String::from("2024-06-01T12:00:00+00:00"));
    let rendered = to_json_pretty(&result);

    let value: serde_json::Value = serde_json::from_str(&rendered).unwrap();
    let data = value.get("data").unwrap();
    let reparsed = ProcessResult {
        success: value.get("success").unwrap().as_bool().unwrap(),
        message: String::from(value.get("message").unwrap().as_str().unwrap()),
        data: Some(ProcessData {
            length: data.get("length").unwrap().as_u64().unwrap() as usize,
            processed_at: String::from(data.get("processed_at").unwrap().as_str().unwrap()),
            item_number: data.get("item_number").unwrap().as_u64().unwrap() as usize,
        }),
    };
    assert_eq!(reparsed, result);
}

#[test]
fn test_run_with_default_input() {
    let out = run_on_input(false, None);
    assert!(out.result.success);
    assert_eq!(out.result.message, "Successfully processed item #1");
    let data = out.result.data.as_ref().unwrap();
    assert_eq!(data.item_number, 1);
    assert_eq!(data.length, "Sample data for processing".chars().count());
    assert_eq!(out.stats.processed_count, 1);
    assert_eq!(out.stats.verbose, false);

    // The rendered record is a single JSON object carrying item_number 1.
    let value: serde_json::Value = serde_json::from_str(&out.rendered).unwrap();
    assert!(value.get("success").unwrap().as_bool().unwrap());
    assert_eq!(
        value
            .get("data")
            .unwrap()
            .get("item_number")
            .unwrap()
            .as_u64()
            .unwrap(),
        1
    );
}

#[test]
fn test_run_function() {
    // The pure part of the default run: no input path, no output path.
    let out = run_on_input(false, None);
    assert!(out.result.success);
}

#[test]
fn test_run_with_given_input_text() {
    let out = run_on_input(true, Some(String::from("hello")));
    assert!(out.result.success);
    assert_eq!(out.result.data.as_ref().unwrap().length, 5);
    assert_eq!(out.stats.verbose, true);
    assert_eq!(out.stats.processed_count, 1);
}

#[test]
fn test_default_input_text_value() {
    assert_eq!(default_input_text(), "Sample data for processing");
}

#[test]
fn test_decimal_rendering() {
    assert_eq!(usize_to_string(0), "0");
    assert_eq!(usize_to_string(7), "7");
    assert_eq!(usize_to_string(10), "10");
    assert_eq!(usize_to_string(409), "409");
    assert_eq!(usize_to_string(usize::MAX), usize::MAX.to_string());
}

#[test]
fn test_processed_at_comes_from_the_clock_shape() {
    // A record from `process` carries some timestamp text; the library
    // promises nothing about its value, only where it is placed.
    let mut processor = WorkflowEngineProcessor::new(false);
    let result = processor.process("tick").unwrap();
    let rendered = to_json_pretty(&result);
    let value: serde_json::Value = serde_json::from_str(&rendered).unwrap();
    let parsed_ts = String::from(
        value
            .get("data")
            .unwrap()
            .get("processed_at")
            .unwrap()
            .as_str()
            .unwrap(),
    );
    assert_eq!(parsed_ts, result.data.unwrap().processed_at);
}
