//! Keymap payload packaging and bounded labels.

use eis_bridge::keymap::keymap_payload;
use eis_bridge::session::truncate_label;

#[test]
fn keymap_payload_appends_one_terminator() {
    let text: Vec<u8> = b"xkb_keymap { xkb_keycodes { minimum = 8; }; };".to_vec();
    let (payload, size) = keymap_payload(&text).expect("fits the header");
    assert_eq!(size as usize, text.len() + 1);
    assert_eq!(payload.len(), text.len() + 1);
    assert_eq!(&payload[..text.len()], &text[..]);
    assert_eq!(*payload.last().unwrap(), 0u8);
}

#[test]
fn empty_keymap_text_still_gets_terminator() {
    let (payload, size) = keymap_payload(&Vec::new()).expect("fits the header");
    assert_eq!(size, 1);
    assert_eq!(payload, vec![0u8]);
}

#[test]
fn long_peer_name_is_cut_short_name_kept() {
    let name: Vec<char> = "portal-remote-desktop".chars().collect();
    assert_eq!(truncate_label(&name, 128), name);
    let cut = truncate_label(&name, 6);
    let expect: Vec<char> = "portal".chars().collect();
    assert_eq!(cut, expect);
    assert_eq!(truncate_label(&Vec::new(), 128), Vec::<char>::new());
}
