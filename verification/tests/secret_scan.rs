//! The search for secrets.

use wf::command::Ran;
use wf::secrets::{
    assigns_secret, content_holds_secret, content_looks_secret, files_to_read, git_ls, git_status,
    lowered_name_hits, name_hits_secret, read_path, scan_repo,
};
use wf::text::chars_of;

fn done(stdout: &str) -> Ran {
    Ran::Done { success: true, stdout: stdout.into(), stderr: String::new() }
}

#[test]
fn names_of_secrets() {
    for name in [
        ".env",
        "deploy/.env",
        ".ENV",
        ".env.bak",
        ".sesskey",
        "credentials.json",
        "credentials.yml",
        "client_secret.json",
        "service-account.json",
        ".netrc",
        "id_rsa",
        "keys/id_ed25519.pub",
        "server.PEM",
        "a/b/tls.key",
        ".env.production",
        ".my.env.local",
        "api_token",
        "token-api.json",
    ] {
        assert!(name_hits_secret(name), "{name}");
    }
}

#[test]
fn names_of_other_files() {
    for name in [
        "readme.md",
        "env",
        "src/env.rs",
        "docs/api-token.md",
        ".env.md",
        "my_id_rsa.txt",
        "id_/readme.md",
        ".env/readme.md",
        "token.json",
        "api.rs",
        "keyboard",
    ] {
        assert!(!name_hits_secret(name), "{name}");
    }
}

#[test]
fn directories_say_nothing_of_names() {
    for dir in ["", "a/", ".env/", "id_x/y.pem/"] {
        for base in [".env", "id_rsa", "main.rs", "x.key", "notes.txt"] {
            assert_eq!(lowered_name_hits(&format!("{dir}{base}")), lowered_name_hits(base));
        }
    }
}

#[test]
fn lines_with_secrets() {
    for line in [
        "API_KEY=0123456789abcdef",
        "  export DB_PASSWORD = \"correct horse battery\"  ",
        "token='0123456789abcdef0'",
        "Credential=aaaaaaaaaaaaaaaaaaaaaaaa",
        "secret=ääääääää",
    ] {
        assert!(content_looks_secret(line), "{line}");
    }
}

#[test]
fn lines_without_secrets() {
    for line in [
        "",
        "API_KEY",
        "API_KEY=short",
        "API_KEY=0123456789abcde",
        "NAME=0123456789abcdef",
        "API_KEY=${SOMETHING_FROM_OUTSIDE}",
        "API_KEY=<put your own key here>",
        "secret=\"0123456789abcd\"",
    ] {
        assert!(!content_looks_secret(line), "{line}");
    }
}

#[test]
fn placeholders_are_let_be() {
    assert!(assigns_secret("key", "0123456789abcdef"));
    assert!(!assigns_secret("key", "changeme"));
    assert!(!assigns_secret("key", "example"));
    assert!(!assigns_secret("key", "${0123456789abcdef}"));
    assert!(!assigns_secret("key", "<0123456789abcdef>"));
}

#[test]
fn contents() {
    assert!(content_holds_secret("a=1\nTOKEN=0123456789abcdef\nb=2"));
    assert!(!content_holds_secret("a=1\nb=2"));
    assert!(!content_holds_secret(""));
}

#[test]
fn lists_of_git() {
    assert_eq!(git_ls(&done("a\nb c\n")), vec!["a", "b c"]);
    assert!(git_ls(&Ran::Failed("x".into())).is_empty());
    assert_eq!(git_status(&done(" M a.rs\n?? new file\n\nX\n")), vec!["a.rs", "new file"]);
    assert!(git_status(&Ran::Done {
        success: false,
        stdout: " M a".into(),
        stderr: String::new()
    })
    .is_empty());
}

#[test]
fn case_and_directories_do_not_matter() {
    for name in ["deploy/.env", "a/Id_Rsa", "src/main.rs", "x/Token_Api", "notes.TXT"] {
        assert_eq!(name_hits_secret(&name.to_ascii_uppercase()), name_hits_secret(name), "{name}");
    }
    for name in ["", "a", "a/b/", "readme.md", ".md/x", "ß/ü"] {
        for end in [".pem", ".key", ".PEM", ".Key"] {
            assert!(name_hits_secret(&format!("{name}{end}")), "{name}{end}");
        }
    }
}

#[test]
fn quoted_paths_are_read() {
    let read = |s: &str| read_path(&chars_of(s)).into_iter().collect::<String>();
    assert_eq!(read("a b"), "a b");
    assert_eq!(read("\"a b\""), "a b");
    assert_eq!(read(r#""a\"b\\c\t\n\001\177""#), "a\"b\\c\t\n\u{1}\u{7f}");
    assert_eq!(read(r#""\a\b\v\f\r""#), "\u{7}\u{8}\u{b}\u{c}\r");
    for odd in ["\"", "\"\\q\"", "\"\\777\"", "\"a\" -> \"b\"", "\"a"] {
        assert_eq!(read(odd), odd);
    }
    assert_eq!(git_status(&done("?? \"my key.pem\"\n")), vec!["my key.pem"]);
    assert_eq!(git_ls(&done("a\n\"b\\\"c\"\n")), vec!["a", "b\"c"]);
}

#[test]
fn new_directories_are_searched() {
    let found = scan_repo(
        "wf",
        &done(""),
        &done("?? conf/.env\n?? \"my keys/tls key.pem\"\n?? schlüssel/ä.pem\n"),
        &vec![],
    );
    let files: Vec<&str> = found.iter().map(|f| f.file.as_str()).collect();
    assert_eq!(files, vec!["conf/.env", "my keys/tls key.pem", "schlüssel/ä.pem"]);
}

#[test]
fn only_files_with_plain_names_are_read() {
    assert_eq!(files_to_read(&done("?? .env\n M a.rs\n?? b.txt\n")), vec!["a.rs", "b.txt"]);
}

#[test]
fn scans_a_repository() {
    let found = scan_repo(
        "wf",
        &done("src/main.rs\nconfig/.env\n"),
        &done("?? id_rsa\n M a.sh\n M b.sh\n M c.sh\n"),
        &vec![Some("SECRET=0123456789abcdef".into()), Some("x=1".into()), None],
    );
    let all: Vec<String> =
        found.iter().map(|f| format!("{}|{}|{}", f.repo, f.file, f.reason)).collect();
    assert_eq!(
        all,
        vec![
            "wf|config/.env|tracked secret-like filename",
            "wf|id_rsa|untracked/modified secret-like filename",
            "wf|a.sh|content looks like a secret assignment",
        ]
    );
}

#[test]
fn capitals_beyond_ascii_are_lowered() {
    assert!(name_hits_secret("ÄÖ.PEM"));
    assert!(content_looks_secret("ÄPASSWORD=0123456789abcdef"));
}
