use chip8::input::{KeyPad, NewestKeyState};

fn only(k: usize) -> Vec<bool> {
    let mut v = vec![false; 16];
    v[k] = true;
    v
}

#[test]
fn key_states_follow_presses_and_releases() {
    let mut pad = KeyPad::new();
    for k in 0..16u8 {
        assert!(!pad.get_key_state(k));
    }
    pad.update_input(&only(3), &vec![false; 16]);
    assert!(pad.get_key_state(3));
    pad.update_input(&vec![false; 16], &only(3));
    assert!(!pad.get_key_state(3));
}

#[test]
fn requested_key_is_handed_over_after_release() {
    let mut pad = KeyPad::new();
    assert_eq!(NewestKeyState::Finished, pad.get_newest_key_state());
    // A press before the request does not count.
    pad.update_input(&only(1), &vec![false; 16]);
    assert_eq!(NewestKeyState::Finished, pad.get_newest_key_state());
    pad.request_key();
    assert_eq!(NewestKeyState::Requested, pad.get_newest_key_state());
    pad.update_input(&only(0xC), &vec![false; 16]);
    assert_eq!(NewestKeyState::Held, pad.get_newest_key_state());
    // Any release sends the key held for the request.
    pad.update_input(&vec![false; 16], &only(1));
    assert_eq!(NewestKeyState::Sent, pad.get_newest_key_state());
    assert!(pad.get_key_state(0xC));
    assert_eq!(0xC, pad.finish_request());
    assert_eq!(NewestKeyState::Finished, pad.get_newest_key_state());
}

#[test]
fn first_pressed_key_in_a_round_is_taken() {
    let mut pad = KeyPad::new();
    pad.request_key();
    let mut pressed = vec![false; 16];
    pressed[4] = true;
    pressed[9] = true;
    pad.update_input(&pressed, &vec![false; 16]);
    pad.update_input(&vec![false; 16], &pressed);
    assert_eq!(4, pad.finish_request());
}

#[test]
fn press_and_release_in_one_round_counts_as_press() {
    let mut pad = KeyPad::new();
    pad.request_key();
    pad.update_input(&only(2), &only(2));
    assert!(pad.get_key_state(2));
    assert_eq!(NewestKeyState::Held, pad.get_newest_key_state());
}

#[test]
fn one_round_lowest_press_then_later_release_sends() {
    let mut pad = KeyPad::new();
    pad.request_key();
    let mut pressed = vec![false; 16];
    pressed[4] = true;
    pressed[9] = true;
    let mut released = vec![false; 16];
    released[11] = true;
    pad.update_input(&pressed, &released);
    assert_eq!(NewestKeyState::Sent, pad.get_newest_key_state());
    assert_eq!(4, pad.finish_request());

    // A release of a lower key comes before the press in the round.
    let mut pad = KeyPad::new();
    pad.request_key();
    let mut released = vec![false; 16];
    released[2] = true;
    pad.update_input(&pressed, &released);
    assert_eq!(NewestKeyState::Held, pad.get_newest_key_state());
    assert!(!pad.get_key_state(2));
    assert!(pad.get_key_state(4) && pad.get_key_state(9));
}
