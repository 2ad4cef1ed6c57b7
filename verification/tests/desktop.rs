use condor_eye::windows::{
    char_to_keycode, mac_key_combo, send_key_combo, window_from_mac, window_from_rect, window_pid,
    KeyEvent, WindowInfo, VK_CONTROL, VK_MENU, VK_TAB,
};

fn down(k: u8) -> KeyEvent {
    KeyEvent { key: k, key_up: false }
}

fn up(k: u8) -> KeyEvent {
    KeyEvent { key: k, key_up: true }
}

#[test]
fn windows_key_combos() {
    assert_eq!(
        send_key_combo("ctrl+3"),
        vec![down(VK_CONTROL), down(b'3'), up(b'3'), up(VK_CONTROL)]
    );
    assert_eq!(
        send_key_combo("Ctrl + Alt + w"),
        vec![
            down(VK_CONTROL),
            down(VK_MENU),
            down(b'W'),
            up(b'W'),
            up(VK_MENU),
            up(VK_CONTROL)
        ]
    );
    assert_eq!(
        send_key_combo("ctrl+tab"),
        vec![down(VK_CONTROL), down(VK_TAB), up(VK_TAB), up(VK_CONTROL)]
    );
    assert!(send_key_combo("ctrl+f4").is_empty());
    assert!(send_key_combo("").is_empty());
}

#[test]
fn mac_keycodes() {
    assert_eq!(char_to_keycode("a"), Some(0));
    assert_eq!(char_to_keycode("3"), Some(20));
    assert_eq!(char_to_keycode("enter"), Some(0x24));
    assert_eq!(char_to_keycode("esc"), Some(0x35));
    assert_eq!(char_to_keycode("f4"), None);
}

#[test]
fn mac_key_combos() {
    let p = mac_key_combo("Cmd+Shift+T").expect("key");
    assert_eq!(p.keycode, 17);
    assert!(p.command && p.shift && !p.control && !p.alternate);
    let p = mac_key_combo("ctrl+1+2").expect("key");
    assert_eq!(p.keycode, 18, "the first key wins");
    assert!(mac_key_combo("cmd+shift").is_none());
}

#[test]
fn win32_window_entries() {
    let w = window_from_rect(0x1_ABCD, "Test Window".to_string(), 1234, 100, 200, 900, 800, "TestClass".to_string())
        .expect("listed");
    assert_eq!((w.x, w.y, w.width, w.height), (100, 200, 800, 600));
    assert!(window_from_rect(1, String::new(), 1, 0, 0, 10, 10, String::new()).is_none());
    assert!(window_from_rect(1, "t".to_string(), 1, 10, 10, 10, 10, String::new()).is_none());
    let w = window_from_rect(1, "t".to_string(), 1, 10, 10, 5, 20, String::new()).expect("tall");
    assert_eq!((w.width, w.height), (0, 10));
}

#[test]
fn mac_window_entries() {
    let w = window_from_mac(0, Some("Doc".to_string()), 42, 77, None, Some((1, 2, 3, 4))).expect("listed");
    assert_eq!((w.hwnd, w.pid, w.class_name.as_str()), (42, 77, ""));
    assert!(window_from_mac(3, Some("Doc".to_string()), 42, 77, None, Some((1, 2, 3, 4))).is_none());
    assert!(window_from_mac(0, None, 42, 77, None, Some((1, 2, 3, 4))).is_none());
    assert!(window_from_mac(0, Some("Doc".to_string()), 42, 77, None, None).is_none());
}

#[test]
fn window_owner_lookup() {
    let ws = vec![
        WindowInfo {
            hwnd: 5,
            title: "a".to_string(),
            pid: 50,
            x: 0,
            y: 0,
            width: 1,
            height: 1,
            class_name: String::new(),
        },
        WindowInfo {
            hwnd: 6,
            title: "b".to_string(),
            pid: 60,
            x: 0,
            y: 0,
            width: 1,
            height: 1,
            class_name: String::new(),
        },
    ];
    assert_eq!(window_pid(&ws, 6), Some(60));
    assert_eq!(window_pid(&ws, 7), None);
}
