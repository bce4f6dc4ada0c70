use keystream::error::{FileRole, IoOp, TransformError};

#[test]
fn messages_of_key_failures() {
    assert_eq!(TransformError::EmptyKey.message(), "Key file is empty");
    assert_eq!(
        TransformError::KeyTooShort.message(),
        "Key file must be at least as long as the input file"
    );
    assert_eq!(TransformError::KeyExhausted.message(), "Unexpected end of key file");
    assert_eq!(TransformError::Replace.message(), "Failed to rename temporary output file");
}

#[test]
fn messages_of_io_failures_name_operation_and_file() {
    let message = |file, op| TransformError::Io { file, op }.message();
    assert_eq!(message(FileRole::Input, IoOp::Open), "Failed to open input file");
    assert_eq!(message(FileRole::Key, IoOp::Open), "Failed to open key file");
    assert_eq!(message(FileRole::Key, IoOp::Metadata), "Failed to inspect key file");
    assert_eq!(message(FileRole::Staging, IoOp::Create), "Failed to create temporary output file");
    assert_eq!(message(FileRole::Input, IoOp::Read), "Failed to read input file");
    assert_eq!(message(FileRole::Key, IoOp::Read), "Failed to read key file");
    assert_eq!(message(FileRole::Key, IoOp::Seek), "Failed to rewind key file");
    assert_eq!(message(FileRole::Staging, IoOp::Write), "Failed to write to temporary output file");
    assert_eq!(message(FileRole::Staging, IoOp::Flush), "Failed to flush temporary output file");
    assert_eq!(message(FileRole::Input, IoOp::Delete), "Failed to delete input file");
}

#[test]
fn names_and_verbs() {
    assert_eq!(FileRole::Input.name(), "input file");
    assert_eq!(FileRole::Key.name(), "key file");
    assert_eq!(FileRole::Staging.name(), "temporary output file");
    assert_eq!(IoOp::Write.verb(), "write to");
    assert_eq!(IoOp::Seek.verb(), "rewind");
}

#[test]
fn only_a_failed_rename_costs_the_input() {
    assert!(!TransformError::Replace.input_intact());
    assert!(TransformError::EmptyKey.input_intact());
    assert!(TransformError::KeyTooShort.input_intact());
    assert!(TransformError::KeyExhausted.input_intact());
    assert!(TransformError::Io { file: FileRole::Input, op: IoOp::Delete }.input_intact());
    assert!(TransformError::Io { file: FileRole::Staging, op: IoOp::Write }.input_intact());
}
