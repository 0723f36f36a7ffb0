use emu_term::keys::{handle_key, Key, Modifiers};
use emu_term::message::{Content, Message, Named};

const NONE: Modifiers = Modifiers { control: false, shift: false };
const SHIFT: Modifiers = Modifiers { control: false, shift: true };
const CONTROL: Modifiers = Modifiers { control: true, shift: false };
const BOTH: Modifiers = Modifiers { control: true, shift: true };

fn character(text: &str, mods: Modifiers) -> Option<Message> {
    handle_key(Key::Character(text.to_string()), mods)
}

fn is_text(message: Option<Message>, expected: &str) -> bool {
    matches!(message, Some(Message::Write(Content::Text(text))) if text == expected)
}

#[test]
fn control_c_is_an_interrupt() {
    assert!(matches!(character("c", CONTROL), Some(Message::Write(Content::Sigint))));
    assert!(matches!(character("c", BOTH), Some(Message::Write(Content::Sigint))));
    assert!(is_text(character("c", NONE), "c"));
    assert!(is_text(character("c", SHIFT), "c"));
    assert!(is_text(character("d", CONTROL), "d"));
    assert!(is_text(character("cc", CONTROL), "cc"));
}

#[test]
fn shifted_keys() {
    assert!(is_text(character("7", SHIFT), "&"));
    assert!(is_text(character("\\", SHIFT), "|"));
    assert!(is_text(character("-", SHIFT), "_"));
    assert!(is_text(character(";", SHIFT), ":"));
    assert!(is_text(character("1", SHIFT), "!"));
    assert!(is_text(character("7", BOTH), "&"));
    assert!(is_text(character("7", NONE), "7"));
    assert!(is_text(character("7", CONTROL), "7"));
    assert!(is_text(character("2", SHIFT), "2"));
    assert!(is_text(character("77", SHIFT), "77"));
}

#[test]
fn other_text_is_written_as_it_is() {
    assert!(is_text(character("a", NONE), "a"));
    assert!(is_text(character("A", SHIFT), "A"));
    assert!(is_text(character("é", NONE), "é"));
    assert!(is_text(character("", NONE), ""));
}

#[test]
fn named_keys_are_passed_on() {
    for named in [Named::Enter, Named::Space, Named::Backspace, Named::Escape, Named::Other] {
        for mods in [NONE, SHIFT, CONTROL, BOTH] {
            assert!(matches!(
                handle_key(Key::Named(named), mods),
                Some(Message::Write(Content::Key(n))) if n == named
            ));
        }
    }
}

#[test]
fn unidentified_key_writes_nothing() {
    assert!(handle_key(Key::Unidentified, NONE).is_none());
    assert!(handle_key(Key::Unidentified, BOTH).is_none());
}
