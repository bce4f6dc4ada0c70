//! Failure classes of a run.

use vstd::prelude::*;
use vstd::string::*;

verus! {

/// The three files a run touches.
#[derive(Clone, Copy, PartialEq, Eq, Debug, Structural)]
pub enum FileRole {
    /// The file that is transformed and finally replaced.
    Input,
    /// The file that supplies the key bytes.
    Key,
    /// The temporary output that is promoted on success.
    Staging,
}

/// The operations that can fail on a file.
#[derive(Clone, Copy, PartialEq, Eq, Debug, Structural)]
pub enum IoOp {
    Open,
    Metadata,
    Create,
    Read,
    Seek,
    Write,
    Flush,
    Delete,
}

/// Why a run was aborted.
#[derive(Clone, Copy, PartialEq, Eq, Debug, Structural)]
pub enum TransformError {
    /// The key stream holds no byte at all.
    EmptyKey,
    /// Strict policy: the key stream is shorter than the input.
    KeyTooShort,
    /// Strict policy: the key stream ended before the input did.
    KeyExhausted,
    /// An operation on one of the files failed.
    Io { file: FileRole, op: IoOp },
    /// The input was deleted but the staging file could not take its place.
    Replace,
}

impl FileRole {
    /// How the file is called in messages.
    pub open spec fn name_spec(self) -> Seq<char> {
        match self {
            FileRole::Input => "input file"@,
            FileRole::Key => "key file"@,
            FileRole::Staging => "temporary output file"@,
        }
    }

    pub fn name(self) -> (text: &'static str)
        ensures
            text@ == self.name_spec(),
    {
        match self {
            FileRole::Input => "input file",
            FileRole::Key => "key file",
            FileRole::Staging => "temporary output file",
        }
    }
}

impl IoOp {
    /// The verb phrase that names the operation in messages.
    pub open spec fn verb_spec(self) -> Seq<char> {
        match self {
            IoOp::Open => "open"@,
            IoOp::Metadata => "inspect"@,
            IoOp::Create => "create"@,
            IoOp::Read => "read"@,
            IoOp::Seek => "rewind"@,
            IoOp::Write => "write to"@,
            IoOp::Flush => "flush"@,
            IoOp::Delete => "delete"@,
        }
    }

    pub fn verb(self) -> (text: &'static str)
        ensures
            text@ == self.verb_spec(),
    {
        match self {
            IoOp::Open => "open",
            IoOp::Metadata => "inspect",
            IoOp::Create => "create",
            IoOp::Read => "read",
            IoOp::Seek => "rewind",
            IoOp::Write => "write to",
            IoOp::Flush => "flush",
            IoOp::Delete => "delete",
        }
    }
}

impl TransformError {
    /// The text shown to the user for this failure.
    pub open spec fn message_spec(self) -> Seq<char> {
        match self {
            TransformError::EmptyKey => "Key file is empty"@,
            TransformError::KeyTooShort => "Key file must be at least as long as the input file"@,
            TransformError::KeyExhausted => "Unexpected end of key file"@,
            TransformError::Io { file, op } => "Failed to "@ + op.verb_spec() + " "@
                + file.name_spec(),
            TransformError::Replace => "Failed to rename temporary output file"@,
        }
    }

    /// Whether the input file is still in place, byte for byte, when a run
    /// ends with this failure.
    pub open spec fn input_intact_spec(self) -> bool {
        self != TransformError::Replace
    }

    pub fn message(&self) -> (text: String)
        ensures
            text@ == self.message_spec(),
    {
        match self {
            TransformError::EmptyKey => String::from_str("Key file is empty"),
            TransformError::KeyTooShort => String::from_str(
                "Key file must be at least as long as the input file",
            ),
            TransformError::KeyExhausted => String::from_str("Unexpected end of key file"),
            TransformError::Io { file, op } => {
                let mut text = String::from_str("Failed to ");
                text.append(op.verb());
                text.append(" ");
                text.append(file.name());
                text
            },
            TransformError::Replace => String::from_str("Failed to rename temporary output file"),
        }
    }

    pub fn input_intact(&self) -> (intact: bool)
        ensures
            intact == self.input_intact_spec(),
    {
        match self {
            TransformError::Replace => false,
            _ => true,
        }
    }
}

} // verus!
