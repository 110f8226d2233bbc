use sealed_dioxus_ui::text::description_preview;
use sealed_dioxus_ui::text::{
    char_is_control, char_is_white_space, codec_label, last_path_segment, sanitize_clipboard_text,
    str_lex_le,
};

#[test]
fn clipboard_lines_are_joined_and_trimmed() {
    assert_eq!(sanitize_clipboard_text("  https://a.b/c\r\n\r\n?v=1\n  "), "https://a.b/c?v=1");
    assert_eq!(sanitize_clipboard_text(""), "");
    assert_eq!(sanitize_clipboard_text("\n\n\t\n"), "");
    assert_eq!(sanitize_clipboard_text("a\u{7}b\u{85}c"), "abc");
    assert_eq!(sanitize_clipboard_text("\u{3000} x y \u{a0}"), "x y");
    assert_eq!(sanitize_clipboard_text("a\rb"), "ab");
}

#[test]
fn char_classes_follow_std() {
    for c in ['\0', '\n', '\u{7f}', '\u{9f}', 'a', ' ', '\u{a0}', '\u{85}', '\u{2028}', 'é', '\u{3000}'] {
        assert_eq!(char_is_control(c), c.is_control(), "{c:?}");
        assert_eq!(char_is_white_space(c), c.is_whitespace(), "{c:?}");
    }
}

#[test]
fn lexicographic_order_matches_str() {
    let words = ["", "a", "ab", "b", "English", "Español", "english", "日本語", "Ελληνικά"];
    for a in words {
        for b in words {
            assert_eq!(str_lex_le(a, b), a <= b, "{a} {b}");
        }
    }
}

#[test]
fn codec_label_writes_none_for_missing() {
    assert_eq!(codec_label(&Some("avc1".to_string()), &None), "(avc1, NONE)");
    assert_eq!(codec_label(&None, &Some("opus".to_string())), "(NONE, opus)");
}

#[test]
fn last_path_segment_matches_split() {
    for name in [
        "alloc::string::String",
        "String",
        "",
        "a::",
        ":::",
        "a:::b",
        "core::option::Option<alloc::string::String>",
        "sealed::MainWSClient",
    ] {
        assert_eq!(last_path_segment(name), name.split("::").last().unwrap_or(name), "{name}");
    }
}

#[test]
fn description_preview_matches_replace() {
    for d in ["", "a", "a\n\nb", "a\n\n\nb", "\n\n\n\n", "x\ny\n\n\n\nz\n", "é\n\nü"] {
        assert_eq!(description_preview(d), d.replace("\n\n", "\n"), "{d:?}");
    }
}
