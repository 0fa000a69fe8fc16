use shareflow::clipboard::{
    clipboard_has_syncable_format, fingerprint_of, get_clipboard_content,
    get_clipboard_fingerprint, needs_image, sample_hash, ClipboardFingerprint, ClipboardFormats,
    ClipboardImage, ClipboardSync,
};
use shareflow::config::AppConfig;
use shareflow::engine::{Action, Engine, Peer};
use shareflow::protocol::{ClipboardContent, Message};
use shareflow::runtime::{clipboard_tick, push_clipboard, push_copied, watches_clipboard};
use std::collections::hash_map::DefaultHasher;
use std::hash::{Hash, Hasher};

fn text(s: &str) -> Option<ClipboardContent> {
    Some(ClipboardContent::Text(s.to_string()))
}

fn image(len: usize) -> ClipboardImage {
    ClipboardImage { width: 3, height: 2, rgba: (0..len).map(|i| (i * 7 % 251) as u8).collect() }
}

fn reference_hash(width: usize, height: usize, rgba: &[u8]) -> u64 {
    let mut h = DefaultHasher::new();
    width.hash(&mut h);
    height.hash(&mut h);
    rgba.len().hash(&mut h);
    let n = rgba.len().min(4096);
    rgba[..n].hash(&mut h);
    if rgba.len() > n {
        rgba[rgba.len() - n..].hash(&mut h);
    }
    h.finish()
}

#[test]
fn images_are_hashed_by_head_and_tail() {
    for len in [0, 1, 24, 4095, 4096, 4097, 8192, 20000] {
        let i = image(len);
        assert_eq!(sample_hash(3, 2, &i.rgba), reference_hash(3, 2, &i.rgba));
    }
    assert_eq!(
        sample_hash(usize::MAX, 0x0102_0304_0506_0708, &[9]),
        reference_hash(usize::MAX, 0x0102_0304_0506_0708, &[9])
    );
    let mut middle = image(20000).rgba;
    let before = sample_hash(3, 2, &middle);
    middle[10000] ^= 1;
    assert_eq!(sample_hash(3, 2, &middle), before);
    middle[19999] ^= 1;
    assert_ne!(sample_hash(3, 2, &middle), before);
}

#[test]
fn files_on_the_clipboard_are_left_alone() {
    let none = ClipboardFormats { files: false, text: false, unicode_text: false, dib: false, dib_v5: false };
    assert!(!clipboard_has_syncable_format(none));
    assert!(clipboard_has_syncable_format(ClipboardFormats { unicode_text: true, ..none }));
    assert!(clipboard_has_syncable_format(ClipboardFormats { dib_v5: true, ..none }));
    assert!(!clipboard_has_syncable_format(ClipboardFormats { files: true, text: true, ..none }));
}

#[test]
fn text_goes_before_an_image() {
    let t = Some("hi".to_string());
    assert!(!needs_image(true, &t) && needs_image(true, &None) && !needs_image(false, &None));
    assert!(needs_image(true, &Some(String::new())));
    assert_eq!(get_clipboard_content(true, t.clone(), Some(image(4))), text("hi"));
    let expected = ClipboardContent::Image { width: 3, height: 2, rgba: image(4).rgba };
    assert_eq!(get_clipboard_content(true, Some(String::new()), Some(image(4))), Some(expected));
    assert_eq!(get_clipboard_content(true, None, None), None);
    assert_eq!(get_clipboard_content(false, t, None), None);
}

#[test]
fn fingerprints_tell_contents_apart() {
    assert_eq!(fingerprint_of(&None), None);
    assert_eq!(fingerprint_of(&text("a")), Some(ClipboardFingerprint::Text("a".into())));
    let hash = reference_hash(3, 2, &image(24).rgba);
    assert_eq!(
        get_clipboard_fingerprint(true, None, Some(image(24))),
        Some(ClipboardFingerprint::Image { width: 3, height: 2, hash })
    );
}

#[test]
fn a_local_change_is_found_once() {
    let mut sync = ClipboardSync::new();
    let mut known = None;
    assert_eq!(sync.poll_clipboard_change(&mut known, text("a")), text("a"));
    assert_eq!(sync.poll_clipboard_change(&mut known, text("a")), None);
    assert_eq!(sync.poll_clipboard_change(&mut known, text("b")), text("b"));
    assert_eq!(known, Some(ClipboardFingerprint::Text("b".into())));
}

#[test]
fn remote_content_is_not_sent_back() {
    let mut sync = ClipboardSync::new();
    let mut known = fingerprint_of(&text("old"));
    assert!(sync.apply_remote_clipboard(0));
    sync.remote_clipboard_applied(true);
    assert_eq!(sync.poll_clipboard_change(&mut known, text("theirs")), None);
    assert_eq!(sync.poll_clipboard_change(&mut known, text("ours")), text("ours"));
}

#[test]
fn a_failed_update_does_not_hide_the_next_change() {
    let mut sync = ClipboardSync::new();
    let mut known = None;
    assert!(sync.apply_remote_clipboard(0));
    sync.remote_clipboard_applied(false);
    assert_eq!(sync.poll_clipboard_change(&mut known, text("ours")), text("ours"));
}

#[test]
fn a_local_push_is_protected_for_two_seconds() {
    let mut sync = ClipboardSync::new();
    assert!(!sync.recently_pushed_locally(0));
    sync.notify_local_push(1000);
    assert!(sync.recently_pushed_locally(2999));
    assert!(!sync.apply_remote_clipboard(2999));
    assert!(!sync.remote_set);
    assert!(!sync.recently_pushed_locally(3000));
    assert!(sync.apply_remote_clipboard(3000));
}

#[test]
fn the_change_count_saves_reading() {
    let mut sync = ClipboardSync::new();
    assert!(sync.change_count_moved(5));
    assert!(!sync.change_count_moved(5));
    assert!(sync.change_count_moved(6));
    assert!(sync.change_count_moved(i64::MIN));
    assert!(sync.change_count_moved(i64::MIN));
}

fn engine() -> Engine {
    let mut e = Engine::new(AppConfig::with_identity("desk".into(), "a".into()));
    e.add_peer(Peer { id: "b".into(), name: "B".into(), screens: vec![] });
    e
}

fn update(s: &str) -> Message {
    Message::ClipboardUpdate { content: ClipboardContent::Text(s.to_string()) }
}

fn to_b(s: &str) -> Vec<Action> {
    vec![Action::Broadcast { recipients: vec!["b".into()], message: update(s) }]
}

#[test]
fn a_tick_broadcasts_local_changes() {
    let e = engine();
    let mut sync = ClipboardSync::new();
    let mut known = None;
    assert_eq!(clipboard_tick(&e, &mut sync, &mut known, text("x"), 70), to_b("x"));
    assert_eq!(sync.last_local_push_ms, Some(70));
    assert_eq!(clipboard_tick(&e, &mut sync, &mut known, text("x"), 71), vec![]);
    assert_eq!(sync.last_local_push_ms, Some(70));
}

#[test]
fn without_peers_or_sync_nothing_is_watched() {
    let mut off = engine();
    off.config.clipboard_sync_enabled = false;
    let alone = Engine::new(AppConfig::with_identity("desk".into(), "a".into()));
    for e in [off, alone] {
        assert!(!watches_clipboard(&e));
        let mut sync = ClipboardSync::new();
        let mut known = None;
        assert_eq!(clipboard_tick(&e, &mut sync, &mut known, text("x"), 70), vec![]);
        assert_eq!((sync, known), (ClipboardSync::new(), None));
    }
    assert!(watches_clipboard(&engine()));
}

#[test]
fn what_is_copied_goes_to_all_peers() {
    let mut sync = ClipboardSync::new();
    assert_eq!(push_copied(&engine(), &mut sync, text("x"), 5), to_b("x"));
    assert_eq!(sync.last_local_push_ms, Some(5));
    assert_eq!(push_copied(&engine(), &mut sync, None, 6), vec![]);
    assert_eq!(sync.last_local_push_ms, Some(5));
}

#[test]
fn the_clipboard_is_pushed_to_one_peer() {
    let e = engine();
    let mut sync = ClipboardSync::new();
    let b = "b".to_string();
    let sent = vec![Action::Send { peer_id: b.clone(), message: update("x") }];
    assert_eq!(push_clipboard(&e, &mut sync, &b, false, text("x"), 5), sent);
    assert_eq!(sync.last_local_push_ms, None);
    assert_eq!(push_clipboard(&e, &mut sync, &b, true, text("x"), 5), sent);
    assert_eq!(sync.last_local_push_ms, Some(5));
    assert_eq!(push_clipboard(&e, &mut sync, &"zz".to_string(), true, text("x"), 6), vec![]);
    assert_eq!(sync.last_local_push_ms, Some(6));
    assert_eq!(push_clipboard(&e, &mut sync, &b, true, None, 7), vec![]);
}

#[test]
fn disabled_sync_sends_nothing() {
    let mut e = engine();
    e.config.clipboard_sync_enabled = false;
    let mut sync = ClipboardSync::new();
    assert_eq!(push_copied(&e, &mut sync, text("x"), 5), vec![]);
    assert_eq!(push_clipboard(&e, &mut sync, &"b".to_string(), true, text("x"), 5), vec![]);
    assert_eq!(sync, ClipboardSync::new());
}
