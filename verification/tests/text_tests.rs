use elvpath_lib::models::{contains_os, os_debug_str, NetworkMode, NetworkProfile, OperatingSystem};
use elvpath_lib::text::{
    chars_of, escape_single_quotes, is_whitespace_char, join_strings, same_text, split_lines,
    trim_whitespace_str,
};

#[test]
fn trimming_matches_str_trim() {
    for s in ["", "  ", " a b ", "\u{a0}x\u{2028}", "\u{85}\u{200a}y z\t\r\n", "no-space"] {
        assert_eq!(trim_whitespace_str(s), s.trim(), "{s:?}");
    }
}

#[test]
fn whitespace_matches_char_is_whitespace() {
    for code in 0u32..0x3100 {
        if let Some(c) = char::from_u32(code) {
            assert_eq!(is_whitespace_char(c), c.is_whitespace(), "{code:#x}");
        }
    }
}

#[test]
fn lines_match_str_lines() {
    for s in ["", "\n", "a", "a\n", "a\r\nb", "a\rb\n", "\n\nx\r", "one\ntwo\n\nthree\r\n"] {
        let expected: Vec<String> = s.lines().map(|l| l.to_string()).collect();
        assert_eq!(split_lines(s), expected, "{s:?}");
    }
}

#[test]
fn joining_matches_slice_join() {
    let parts = vec!["a".to_string(), String::new(), "c".to_string()];
    assert_eq!(join_strings(&parts, ", "), parts.join(", "));
    assert_eq!(join_strings(&[], "-"), "");
    assert_eq!(join_strings(&parts[..1], "-"), "a");
}

#[test]
fn quotes_are_doubled() {
    assert_eq!(escape_single_quotes("''"), "''''");
    assert_eq!(escape_single_quotes("plain"), "plain");
    assert_eq!(escape_single_quotes("a'b"), "a''b");
}

#[test]
fn characters_and_equality() {
    assert_eq!(chars_of("h\u{e9}!"), vec!['h', '\u{e9}', '!']);
    assert!(same_text("abc", "abc"));
    assert!(!same_text("abc", "abd"));
}

#[test]
fn host_names_map_to_platforms() {
    assert_eq!(OperatingSystem::from_host_name("windows"), OperatingSystem::Windows);
    assert_eq!(OperatingSystem::from_host_name("macos"), OperatingSystem::Macos);
    assert_eq!(OperatingSystem::from_host_name("linux"), OperatingSystem::Linux);
    assert_eq!(OperatingSystem::from_host_name("freebsd"), OperatingSystem::Linux);
    assert_eq!(os_debug_str(OperatingSystem::Macos), format!("{:?}", OperatingSystem::Macos));
    assert!(contains_os(&vec![OperatingSystem::Linux], OperatingSystem::Linux));
    assert!(!contains_os(&vec![], OperatingSystem::Linux));
}

#[test]
fn default_profile_uses_official_sources() {
    let profile = NetworkProfile::default();
    assert_eq!(profile.mode, NetworkMode::Official);
    assert!(profile.proxy_url.is_none() && profile.mirror_region.is_none());
    assert_eq!(profile.duplicate(), profile);
}

#[test]
fn doubled_quotes_read_back_as_the_text() {
    for text in ["it's 'x'", "''", "'''", "plain", ""] {
        assert_eq!(escape_single_quotes(text).replace("''", "'"), text);
    }
}
