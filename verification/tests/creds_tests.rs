use devdeck::creds::{build_putty_args, putty_target, split_host_port, startup_script, validate, extract_host};
use devdeck::error::ErrorKind;
use devdeck::models::CredInput;

#[test]
fn putty_target_uses_url_as_host_and_username_as_login() {
    assert_eq!(putty_target("root", "1.2.3.4"), "root@1.2.3.4");
    assert_eq!(putty_target("root", "ssh://1.2.3.4:2222/x"), "root@1.2.3.4:2222");
    assert_eq!(putty_target("", "1.2.3.4"), "1.2.3.4");
    assert_eq!(putty_target("root@1.2.3.4", ""), "root@1.2.3.4");
    assert_eq!(putty_target("", ""), "");
}

#[test]
fn split_host_port_parses_numeric_tail() {
    assert_eq!(split_host_port("root@h:2222"), ("root@h", Some("2222")));
    assert_eq!(split_host_port("host"), ("host", None));
    assert_eq!(split_host_port("host:abc"), ("host:abc", None));
}

#[test]
fn split_host_port_handles_ipv6() {
    assert_eq!(split_host_port("::1"), ("::1", None));
    assert_eq!(split_host_port("fe80::1"), ("fe80::1", None));
    assert_eq!(split_host_port("[::1]:22"), ("[::1]", Some("22")));
}

#[test]
fn build_putty_args_prefers_key_over_password() {
    let a = build_putty_args("root@1.2.3.4", Some("k.ppk"), Some("pw"), None);
    assert_eq!(a, vec!["-ssh", "root@1.2.3.4", "-i", "k.ppk"]);
    assert!(!a.iter().any(|x| x == "-pw"));
}

#[test]
fn build_putty_args_uses_password_when_no_key() {
    let a = build_putty_args("host:2222", None, Some("secret"), None);
    assert_eq!(a, vec!["-ssh", "host", "-P", "2222", "-pw", "secret"]);
}

#[test]
fn build_putty_args_bare_host() {
    assert_eq!(build_putty_args("host", None, None, None), vec!["-ssh", "host"]);
}

#[test]
fn build_putty_args_appends_script_flags() {
    let a = build_putty_args("host:22", Some("k.ppk"), None, Some(r"C:\tmp\s.txt"));
    assert_eq!(a, vec!["-ssh", "host", "-P", "22", "-i", "k.ppk", "-t", "-m", r"C:\tmp\s.txt"]);
}

#[test]
fn startup_script_wraps_command_with_interactive_shell() {
    assert_eq!(startup_script("cd /home").as_deref(), Some("cd /home; exec $SHELL -l\n"));
    assert_eq!(startup_script("  cd /var/www  ").as_deref(), Some("cd /var/www; exec $SHELL -l\n"));
    assert_eq!(startup_script(""), None);
    assert_eq!(startup_script("   "), None);
}

#[test]
fn blank_key_falls_back_to_password() {
    let a = build_putty_args("h", Some("   "), Some("pw"), None);
    assert_eq!(a, vec!["-ssh", "h", "-pw", "pw"]);
    let b = build_putty_args("h", None, Some(""), None);
    assert_eq!(b, vec!["-ssh", "h"]);
}

#[test]
fn extract_host_cuts_scheme_path_query_and_fragment() {
    assert_eq!(extract_host("https://example.com/a/b"), "example.com");
    assert_eq!(extract_host("example.com?x=1"), "example.com");
    assert_eq!(extract_host("h:22#frag"), "h:22");
    assert_eq!(extract_host("a://b://c/d"), "b:");
}

#[test]
fn validate_rejects_blank_label() {
    let mut input = CredInput {
        label: "  \t".to_string(),
        kind: "note".to_string(),
        username: None,
        url: None,
        notes: None,
        secret: None,
        key_path: None,
        startup_cmd: None,
    };
    let err = validate(&input).unwrap_err();
    assert_eq!(err.kind, ErrorKind::Validation);
    assert_eq!(err.message, "Название креда пусто");
    input.label = " ok ".to_string();
    assert!(validate(&input).is_ok());
}
