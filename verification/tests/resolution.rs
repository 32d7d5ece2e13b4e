use timelens_core::credential::CredentialDecision;
use timelens_core::credential::credential_from_read;
use timelens_core::credential::provision;
use timelens_core::credential::trim_spaces;
use timelens_core::handshake::build_handshake;
use timelens_core::handshake::fresh_websocket_key;
use timelens_core::label::file_stem_of;
use timelens_core::label::frontmost_label;
use timelens_core::label::resolve_label;
use timelens_core::logline::format_log_entry;
use timelens_core::logline::format_log_file_entry;
use timelens_core::logline::stamped_log_lines;
use timelens_core::text::contains_substr;
use timelens_core::text::str_eq;

fn cmd(args: &[&str]) -> Vec<String> {
    args.iter().map(|a| String::from(*a)).collect()
}

#[test]
fn java_jar_takes_the_file_stem() {
    let label = resolve_label(&cmd(&["java", "-jar", "/apps/Foo-1.2.jar"]), "ignored");
    assert_eq!(label, "Foo-1.2");
}

#[test]
fn minecraft_anywhere_wins() {
    let label = resolve_label(&cmd(&["/usr/bin/java", "-cp", "minecraft-core"]), "ignored");
    assert_eq!(label, "Minecraft");
    let label = resolve_label(&cmd(&["java", "-jar", "/games/minecraft.jar"]), "ignored");
    assert_eq!(label, "Minecraft");
}

#[test]
fn java_without_jar_flag_is_unknown_java_app() {
    let label = resolve_label(&cmd(&["java", "-version"]), "ignored");
    assert_eq!(label, "Unknown Java App");
}

#[test]
fn jar_flag_without_following_argument_is_unknown_java_app() {
    let label = resolve_label(&cmd(&["java", "-jar"]), "ignored");
    assert_eq!(label, "Unknown Java App");
}

#[test]
fn jar_argument_without_stem_is_unknown_java_app() {
    let label = resolve_label(&cmd(&["java", "-jar", ""]), "ignored");
    assert_eq!(label, "Unknown Java App");
    let label = resolve_label(&cmd(&["java", "-jar", "/apps/"]), "ignored");
    assert_eq!(label, "Unknown Java App");
}

#[test]
fn non_java_keeps_the_window_name() {
    let label = resolve_label(&cmd(&["/usr/bin/firefox", "--new-window"]), "Firefox");
    assert_eq!(label, "Firefox");
}

#[test]
fn empty_command_line_keeps_the_window_name() {
    let label = resolve_label(&cmd(&[]), "Terminal");
    assert_eq!(label, "Terminal");
}

#[test]
fn empty_at_every_stage_is_unknown_app() {
    let label = resolve_label(&cmd(&[]), "");
    assert_eq!(label, "Unknown App");
    let label = resolve_label(&cmd(&["/usr/bin/sh"]), "");
    assert_eq!(label, "Unknown App");
}

#[test]
fn file_stems() {
    assert_eq!(file_stem_of("/apps/Foo-1.2.jar"), Some(String::from("Foo-1.2")));
    assert_eq!(file_stem_of("archive.tar.gz"), Some(String::from("archive.tar")));
    assert_eq!(file_stem_of("noext"), Some(String::from("noext")));
    assert_eq!(file_stem_of("/a/.hidden"), Some(String::from(".hidden")));
    assert_eq!(file_stem_of("trailing."), Some(String::from("trailing")));
    assert_eq!(file_stem_of("/apps/"), None);
    assert_eq!(file_stem_of(""), None);
    assert_eq!(file_stem_of("a/.."), None);
    assert_eq!(file_stem_of("a/."), None);
}

#[test]
fn frontmost_filters_the_login_window() {
    assert_eq!(frontmost_label("loginwindow"), None);
    assert_eq!(frontmost_label("Safari"), Some(String::from("Safari")));
}

#[test]
fn substring_search() {
    assert!(contains_substr("openjdk java runtime", "java"));
    assert!(!contains_substr("Java", "java"));
    assert!(contains_substr("anything", ""));
    assert!(!contains_substr("", "x"));
}

#[test]
fn string_equality() {
    assert!(str_eq("-jar", "-jar"));
    assert!(!str_eq("-jar", "-Jar"));
    assert!(!str_eq("-jar", "-jarx"));
}

#[test]
fn existing_token_is_trimmed() {
    assert_eq!(trim_spaces("  tok-123\n"), "tok-123");
    assert_eq!(trim_spaces("\t a b \r\n"), "a b");
    assert_eq!(trim_spaces("   \n\t"), "");
    assert_eq!(trim_spaces("\u{00A0}x\u{3000}"), "x");
    assert_eq!(trim_spaces("plain"), "plain");
    match credential_from_read(Some(String::from("  key "))) {
        CredentialDecision::Ready(t) => assert_eq!(t, "key"),
        CredentialDecision::Prompt => panic!("expected the stored token"),
    }
}

#[test]
fn missing_token_demands_provisioning_and_persists_verbatim() {
    assert!(matches!(credential_from_read(None), CredentialDecision::Prompt));
    let p = provision(" entered-key ");
    assert_eq!(p.file_contents, " entered-key ");
    assert_eq!(p.credential, " entered-key ");
}

#[test]
fn log_lines_are_formatted_exactly() {
    assert_eq!(
        format_log_entry("2024-01-02 03:04:05", "hello"),
        "[2024-01-02 03:04:05] hello"
    );
    assert_eq!(
        format_log_file_entry("2024-01-02 03:04:05", "hello"),
        "[2024-01-02 03:04:05] hello\n"
    );
}

#[test]
fn stamped_lines_share_one_timestamp() {
    let (console, file) = stamped_log_lines("msg");
    assert!(console.starts_with('['));
    assert!(console.ends_with("] msg"));
    assert!(console.chars().count() >= 25);
    assert_eq!(file, format!("{}\n", console));
}

#[test]
fn websocket_key_is_24_base64_characters() {
    let key = fresh_websocket_key();
    assert_eq!(key.chars().count(), 24);
    assert!(key.chars().all(|c| c.is_ascii_alphanumeric() || c == '+' || c == '/' || c == '='));
}

#[test]
fn handshake_pins_every_header() {
    let h = build_handshake("SECRET-REDACTED");
    assert_eq!(h.url, "wss://timelens.wireway.ch/v2/event");
    assert_eq!(h.host, "timelens.wireway.ch");
    assert_eq!(h.authorization, "Bearer SECRET-REDACTED");
    assert_eq!(h.upgrade, "websocket");
    assert_eq!(h.connection, "Upgrade");
    assert_eq!(h.ws_version, "13");
    assert_eq!(h.ws_key.chars().count(), 24);
}

#[test]
fn each_attempt_draws_a_fresh_key() {
    let a = build_handshake("k");
    let b = build_handshake("k");
    assert_eq!(a.ws_key.chars().count(), 24);
    assert_eq!(b.ws_key.chars().count(), 24);
}
