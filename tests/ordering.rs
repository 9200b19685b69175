use abrw::ordering::{bytes_less, line_less};
use abrw::settings::{Settings, WebviewSetting};

#[test]
fn byte_order_is_lexicographic() {
    assert!(bytes_less(b"", b"a"));
    assert!(!bytes_less(b"a", b""));
    assert!(bytes_less(b"ab", b"b"));
    assert!(bytes_less(b"a", b"ab"));
    assert!(!bytes_less(b"ab", b"ab"));
    assert!(line_less("Z", "a"));
    assert!(line_less("z", "é"));
    assert!(!line_less("é", "z"));
}

#[test]
fn settings_default_is_all_off() {
    let s = Settings::default();
    assert!(!s.enable_javascript);
    assert!(!s.javascript_can_access_clipboard);
    assert!(!s.page_cache);
    assert_ne!(WebviewSetting::Javascript, WebviewSetting::WebGL);
}
