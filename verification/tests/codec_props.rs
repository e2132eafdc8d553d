use appserv::codec::{gen_email_code, gen_passwd, gen_token, lowercase, matches_folded};
use appserv::validate::is_valid_email;

fn addr(local: &str) -> String {
    [local, "example.com"].join("\u{40}")
}

fn glue(parts: &[&str]) -> String {
    parts.concat()
}

#[test]
fn password_hash_matches_known_digest() {
    // SHA-256 of the email concatenated with the password, as lowercase hex
    let email = addr("foo");
    let h = gen_passwd(&email, "secret1");
    assert_eq!(
        h,
        "ec7c63edbc22d2d17196026d70c5e60d2ac148a293d8971a7dc3888387f6207f"
    );
    assert_eq!(h, gen_passwd(&email, "secret1"));
    assert_ne!(h, gen_passwd(&email, "secret2"));
    assert_ne!(h, gen_passwd(&addr("bar"), "secret1"));
}

#[test]
fn lowercase_folds_case() {
    assert_eq!(lowercase("AbC1"), "abc1");
    assert_eq!(lowercase(""), "");
    assert!(matches_folded("AbC1", "aBc1"));
    assert!(!matches_folded("abc1", "abc2"));
}

#[test]
fn tokens_are_unique_hex_of_length_32() {
    let t1 = gen_token();
    let t2 = gen_token();
    assert_eq!(t1.len(), 32);
    assert_eq!(t2.len(), 32);
    assert!(t1.chars().all(|c| "0123456789abcdef".contains(c)));
    assert_ne!(t1, t2);
}

#[test]
fn email_codes_are_six_digits() {
    let c = gen_email_code();
    assert_eq!(c.len(), 6);
    assert!(c.chars().all(|ch| ch.is_ascii_digit()));
}

#[test]
fn email_grammar_accepts_and_rejects() {
    let at = "\u{40}";
    assert!(is_valid_email(&addr("foo")));
    assert!(is_valid_email(&glue(&["a.b", at, "x.y.z"])));
    assert!(is_valid_email(&glue(&["weird!#$%", at, "host"])));
    assert!(!is_valid_email(""));
    assert!(!is_valid_email("foo"));
    assert!(!is_valid_email(&glue(&[at, "example.com"])));
    assert!(!is_valid_email(&glue(&["foo", at])));
    assert!(!is_valid_email(&glue(&["foo", at, ".example.com"])));
    assert!(!is_valid_email(&glue(&["foo", at, "example.com."])));
    assert!(!is_valid_email(&glue(&["foo", at, "example..com"])));
    assert!(!is_valid_email(&glue(&["foo bar", at, "example.com"])));
    assert!(!is_valid_email(&glue(&["foo", at, "exa mple.com"])));
    assert!(!is_valid_email(&glue(&["foo", at, "exam-ple.com"])));
    assert!(!is_valid_email(&glue(&["foo", at, "bar", at, "example.com"])));
}
