//! The digest tool: SHA3-512 of a line of text, shown as lowercase
//! hexadecimal digits, and what a click does to the list of digests.

use vstd::prelude::*;
use vstd::string::*;
use sha3::{Digest, Sha3_512};

verus! {

/// The length of a SHA3-512 digest in bytes.
pub const DIGEST_LEN: usize = 64;

/// The SHA3-512 digest of `data`.
pub uninterp spec fn sha3_512(data: Seq<u8>) -> Seq<u8>;

/// Calls `Sha3_512::digest`, which hashes the whole of `data` at once.
///
/// Trusted: the result is the digest of `data`, 64 bytes that depend on
/// `data` alone.
#[verifier::external_body]
fn sha3_512_digest(data: &[u8]) -> (digest: Vec<u8>)
    ensures
        digest@ == sha3_512(data@),
        digest@.len() == DIGEST_LEN,
{
    Sha3_512::digest(data).to_vec()
}

/// The sixteen digits, in order of their value.
pub open spec fn hex_digits() -> Seq<char> {
    "0123456789abcdef"@
}

/// The text of `bytes` in lowercase hexadecimal digits: two for each byte,
/// the digit of the upper four bits first.
pub open spec fn hex_lower(bytes: Seq<u8>) -> Seq<char> {
    Seq::new(
        2 * bytes.len(),
        |i: int|
            if i % 2 == 0 {
                hex_digits()[bytes[i / 2] as int / 16]
            } else {
                hex_digits()[bytes[i / 2] as int % 16]
            },
    )
}

/// The digit of value `nibble`, as a string.
pub fn hex_digit(nibble: u8) -> (digit: &'static str)
    requires
        nibble < 16,
    ensures
        digit@ == seq![hex_digits()[nibble as int]],
{
    let all: &'static str = "0123456789abcdef";
    proof {
        reveal_strlit("0123456789abcdef");
        assert forall|i: int| 0 <= i < all@.len() implies '\0' <= #[trigger] all@[i]
            <= '\u{7f}' by {
            assert(all@.len() == 16);
        }
    }
    let at: usize = nibble as usize;
    let digit: &'static str = all.substring_ascii(at, at + 1);
    assert(digit@ =~= seq![hex_digits()[nibble as int]]);
    digit
}

/// Writes `bytes` in lowercase hexadecimal digits.
pub fn to_hex_lower(bytes: &[u8]) -> (text: String)
    ensures
        text@ == hex_lower(bytes@),
{
    let mut text: String = String::new();
    let mut i: usize = 0;
    assert(text@ =~= hex_lower(bytes@.take(0)));
    while i < bytes.len()
        invariant
            i <= bytes@.len(),
            text@ == hex_lower(bytes@.take(i as int)),
        decreases bytes@.len() - i,
    {
        let byte: u8 = bytes[i];
        let ghost before = text@;
        text.append(hex_digit(byte / 16));
        text.append(hex_digit(byte % 16));
        assert(text@ =~= hex_lower(bytes@.take(i + 1))) by {
            let grown = hex_lower(bytes@.take(i + 1));
            assert(text@.len() == grown.len());
            assert forall|j: int| 0 <= j < grown.len() implies text@[j] == grown[j] by {
                if j < 2 * i {
                    assert(text@[j] == before[j]);
                    assert(bytes@.take(i + 1)[j / 2] == bytes@.take(i as int)[j / 2]);
                }
            }
        }
        i += 1;
    }
    assert(bytes@.take(i as int) =~= bytes@);
    text
}

/// The digest of a line of text, as it is shown: the SHA3-512 digest of
/// its UTF-8 bytes in lowercase hexadecimal digits.
pub open spec fn hash_text_spec(text: &str) -> Seq<char> {
    hex_lower(sha3_512(text.spec_bytes()))
}

/// Hashes a line of text and writes the digest in hexadecimal digits.
pub fn hash_text(text: &str) -> (shown: String)
    ensures
        shown@ == hash_text_spec(text),
        shown@.len() == 2 * DIGEST_LEN,
{
    let digest: Vec<u8> = sha3_512_digest(text.as_bytes());
    to_hex_lower(digest.as_slice())
}

/// The list of digests after `line` was added: each digest on a line of
/// its own, lines parted by carriage return and line feed.
pub open spec fn with_line(shown: Seq<char>, line: Seq<char>) -> Seq<char> {
    if shown.len() == 0 {
        line
    } else {
        shown + "\r\n"@ + line
    }
}

/// Adds `line` to the list of digests that is shown.
pub fn append_line(shown: &str, line: String) -> (text: String)
    ensures
        text@ == with_line(shown@, line@),
{
    if shown.is_empty() {
        line
    } else {
        let mut text: String = String::from_str(shown);
        text.append("\r\n");
        text.append(line.as_str());
        text
    }
}

/// What happened in the window.
#[derive(Clone, Copy, PartialEq, Eq, Debug, Structural)]
pub enum UiEvent {
    /// The button that asks for a digest was clicked.
    GenerateClicked,
    /// The button that clears the list was clicked.
    ClearClicked,
    /// The window was closed.
    WindowClosed,
    /// Anything else.
    Other,
}

/// What the window is to do.
#[derive(PartialEq, Eq, Debug)]
pub enum UiAction {
    /// Show this text as the list of digests.
    SetOutput(String),
    /// Stop handling events: the program ends.
    Stop,
    /// Nothing.
    Ignore,
}

/// A [`UiAction`] with its text as a sequence.
pub enum UiActionView {
    SetOutput(Seq<char>),
    Stop,
    Ignore,
}

impl View for UiAction {
    type V = UiActionView;

    open spec fn view(&self) -> UiActionView {
        match *self {
            UiAction::SetOutput(text) => UiActionView::SetOutput(text@),
            UiAction::Stop => UiActionView::Stop,
            UiAction::Ignore => UiActionView::Ignore,
        }
    }
}

/// What follows from an event, given the text that was entered and the
/// list that is shown: a click on the first button adds the digest of the
/// entered text to the list, a click on the second empties the list,
/// closing the window ends the program.
pub open spec fn on_event_spec(event: UiEvent, entered: &str, shown: &str) -> UiActionView {
    match event {
        UiEvent::GenerateClicked => UiActionView::SetOutput(
            with_line(shown@, hash_text_spec(entered)),
        ),
        UiEvent::ClearClicked => UiActionView::SetOutput(Seq::empty()),
        UiEvent::WindowClosed => UiActionView::Stop,
        UiEvent::Other => UiActionView::Ignore,
    }
}

/// Decides what the window does on an event.
pub fn on_event(event: UiEvent, entered: &str, shown: &str) -> (action: UiAction)
    ensures
        action@ == on_event_spec(event, entered, shown),
{
    match event {
        UiEvent::GenerateClicked => UiAction::SetOutput(append_line(shown, hash_text(entered))),
        UiEvent::ClearClicked => UiAction::SetOutput(String::new()),
        UiEvent::WindowClosed => UiAction::Stop,
        UiEvent::Other => UiAction::Ignore,
    }
}

} // verus!
