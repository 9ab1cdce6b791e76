use ashdaemon::config::Mode;
use ashdaemon::demo::demo_hash_hex;
use ashdaemon::session::{session_step, Action};

fn expect_reply(a: Action) -> Vec<u8> {
    match a {
        Action::Reply { response } => response,
        _ => panic!("expected a reply"),
    }
}

#[test]
fn empty_line_yields_no_response() {
    assert!(matches!(session_step(&Mode::Demo, &b"\r\n".to_vec()), Action::Ignore));
    assert!(matches!(session_step(&Mode::Demo, &b"\n".to_vec()), Action::Ignore));
    assert!(matches!(session_step(&Mode::Demo, &b"".to_vec()), Action::Ignore));
    assert!(matches!(
        session_step(&Mode::Native { rom: None }, &b"\n".to_vec()),
        Action::Ignore
    ));
}

#[test]
fn demo_step_replies_with_the_demo_digest() {
    let a = session_step(&Mode::Demo, &b"abc\r\n".to_vec());
    assert_eq!(expect_reply(a), demo_hash_hex(b"abc"));
}

#[test]
fn two_sequential_requests_get_two_replies_in_order() {
    let mode = Mode::Demo;
    let first = session_step(&mode, &b"foo\n".to_vec());
    let second = session_step(&mode, &b"bar\n".to_vec());
    let replies = vec![expect_reply(first), expect_reply(second)];
    assert_eq!(replies, vec![demo_hash_hex(b"foo"), demo_hash_hex(b"bar")]);
}

#[test]
fn demo_mode_takes_the_whole_line_as_preimage() {
    let a = session_step(&Mode::Demo, &b"ab|cd\n".to_vec());
    assert_eq!(expect_reply(a), demo_hash_hex(b"ab|cd"));
}

#[test]
fn external_step_hands_out_bin_and_preimage() {
    let mode = Mode::External { bin: b"/usr/bin/hasher".to_vec() };
    match session_step(&mode, &b"ab|cd\r\n".to_vec()) {
        Action::RunExternal { bin, preimage } => {
            assert_eq!(bin, b"/usr/bin/hasher".to_vec());
            assert_eq!(preimage, b"ab|cd".to_vec());
        }
        _ => panic!("expected the external action"),
    }
}

fn expect_native(a: Action) -> (Vec<u8>, Vec<u8>) {
    match a {
        Action::RunNative { seed, preimage } => (seed, preimage),
        _ => panic!("expected the native action"),
    }
}

#[test]
fn native_step_uses_the_request_selector_as_seed() {
    let mode = Mode::Native { rom: None };
    let (seed, preimage) = expect_native(session_step(&mode, &b"deadbeef|hello\n".to_vec()));
    assert_eq!(seed, b"deadbeef".to_vec());
    assert_eq!(preimage, b"hello".to_vec());
}

#[test]
fn native_step_falls_back_to_the_configured_selector() {
    let mode = Mode::Native { rom: Some(b"feed".to_vec()) };
    let (seed, preimage) = expect_native(session_step(&mode, &b"hello\n".to_vec()));
    assert_eq!(seed, b"feed".to_vec());
    assert_eq!(preimage, b"hello".to_vec());
}

#[test]
fn native_step_treats_an_empty_selector_as_absent() {
    let mode = Mode::Native { rom: Some(b"feed".to_vec()) };
    let (seed, preimage) = expect_native(session_step(&mode, &b"  |payload\n".to_vec()));
    assert_eq!(seed, b"feed".to_vec());
    assert_eq!(preimage, b"payload".to_vec());
}

#[test]
fn native_step_uses_the_fixed_seed_when_nothing_is_configured() {
    let mode = Mode::Native { rom: None };
    let (seed, preimage) = expect_native(session_step(&mode, &b"hello\n".to_vec()));
    assert_eq!(seed, b"default_seed".to_vec());
    assert_eq!(preimage, b"hello".to_vec());
}
