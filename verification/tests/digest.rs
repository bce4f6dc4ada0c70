use keystream::digest::{append_line, hash_text, hex_digit, on_event, to_hex_lower, UiAction, UiEvent};

const EMPTY: &str = "a69f73cca23a9ac5c8b567dc185a756e97c982164fe25859e0d1dcc1475c80a615b2123af1f5f94c11e3e9402c3ac558f500199d95b6d3e301758586281dcd26";
const ABC: &str = "b751850b1a57168a5693cd924b6b096e08f621827444f70d884f5d0240d2712e10e116e9192af3c91a7ec57647e3934057340b4cf408d5a56592f8274eec53f0";

#[test]
fn digest_of_known_texts() {
    assert_eq!(hash_text(""), EMPTY);
    assert_eq!(hash_text("abc"), ABC);
    assert_eq!(
        hash_text("h\u{e9}llo"),
        "d2afc6ebcc64f91017b4b42b22cd6f33e27beaf43019bab56994c722d224ee25e7c9110fbcdfd7bc6f89cf1e6c53dcfe39a793d7937c59101e1c21d6a20cf452"
    );
    assert_eq!(hash_text("abc").len(), 128);
}

#[test]
fn hex_of_bytes() {
    assert_eq!(to_hex_lower(&[]), "");
    assert_eq!(to_hex_lower(&[10, 20, 30]), "0a141e");
    assert_eq!(to_hex_lower(&[0x00, 0xff, 0x9a, 0xbc]), "00ff9abc");
    for value in 0..=255u8 {
        assert_eq!(to_hex_lower(&[value]), format!("{:02x}", value));
    }
}

#[test]
fn hex_digits_in_order() {
    let all = "0123456789abcdef";
    for nibble in 0..16u8 {
        assert_eq!(hex_digit(nibble), &all[nibble as usize..nibble as usize + 1]);
    }
}

#[test]
fn first_line_stands_alone() {
    assert_eq!(append_line("", String::from("abc")), "abc");
    assert_eq!(append_line("", String::new()), "");
}

#[test]
fn further_lines_follow_after_line_break() {
    assert_eq!(append_line("abc", String::from("def")), "abc\r\ndef");
    assert_eq!(append_line("abc\r\ndef", String::from("ghi")), "abc\r\ndef\r\nghi");
}

#[test]
fn generate_click_adds_digest() {
    assert_eq!(
        on_event(UiEvent::GenerateClicked, "abc", ""),
        UiAction::SetOutput(String::from(ABC))
    );
    assert_eq!(
        on_event(UiEvent::GenerateClicked, "", ABC),
        UiAction::SetOutput(format!("{}\r\n{}", ABC, EMPTY))
    );
}

#[test]
fn other_events() {
    assert_eq!(on_event(UiEvent::ClearClicked, "abc", ABC), UiAction::SetOutput(String::new()));
    assert_eq!(on_event(UiEvent::WindowClosed, "abc", ABC), UiAction::Stop);
    assert_eq!(on_event(UiEvent::Other, "abc", ABC), UiAction::Ignore);
}
