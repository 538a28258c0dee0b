use feedcore::auth::{hash_password, AppError};
use feedcore::cache::{has_prefix, substr, Cache, CacheError};
use feedcore::types::{Password, SessionId, UserId};

#[test]
fn password_hash_is_hex_sha512_of_password_and_salt() {
    assert_eq!(
        hash_password("secret", Some("salt12")).hash,
        "fb4b7d7d92cedbbcd6b472e082c641aab0b64781e6018087a2df1e799ac8f4396b0cb50d0001781b07b3a41287ac6ff476862cdcaec49532d90e65f4b373738d"
    );
}

#[test]
fn password_matches_only_itself() {
    let p = Password::new("secret", &UserId("u1".to_string()));
    assert_eq!(p.salt.len(), 8);
    assert!(p.salt.chars().all(|c| c.is_ascii_alphanumeric()));
    assert_eq!(p.hash, hash_password("secret", Some(&p.salt)).hash);
    assert_eq!(p.hash.len(), 128);
    assert_eq!(p.user_id.0, "u1");
    assert_eq!(p.matches("secret"), Ok(()));
    assert_eq!(p.matches("Secret"), Err(AppError::Unauthorized));
    assert_eq!(p.matches(""), Err(AppError::Unauthorized));
}

#[test]
fn cache_session_and_host() {
    let mut c = Cache::empty();
    assert_eq!(c.get_session_id().err(), Some(CacheError::NotLoggedIn));
    assert_eq!(c.get_host(), Err(CacheError::NoHostSet));
    c.session_id = Some(SessionId("s".to_string()));
    c.host = Some("https://example.com".to_string());
    assert_eq!(c.get_session_id().unwrap().0, "s");
    assert_eq!(c.get_host(), Ok("https://example.com".to_string()));
}

#[test]
fn cache_ids_are_kept_once() {
    let mut c = Cache::empty();
    c.add_ids(vec!["abc1".to_string(), "abc1".to_string(), "xyz".to_string()]);
    assert_eq!(c.ids.as_ref().unwrap().len(), 2);
    c.add_ids(vec!["xyz".to_string(), "abd2".to_string()]);
    let mut ids = c.ids.clone().unwrap();
    ids.sort();
    assert_eq!(ids, vec!["abc1", "abd2", "xyz"]);
}

#[test]
fn cache_matching_id() {
    let mut c = Cache::empty();
    assert_eq!(c.get_matching_id("a"), Err(CacheError::NoMatchingId));
    c.add_ids(vec!["abc1".to_string(), "abd2".to_string(), "xyz".to_string()]);
    assert_eq!(c.get_matching_id("abc"), Ok("abc1".to_string()));
    assert_eq!(c.get_matching_id("x"), Ok("xyz".to_string()));
    assert_eq!(c.get_matching_id("ab"), Err(CacheError::AmbiguousId));
    assert_eq!(c.get_matching_id("q"), Err(CacheError::NoMatchingId));
}

#[test]
fn prefixes_and_substrings() {
    assert!(has_prefix("abc", "ab"));
    assert!(has_prefix("abc", ""));
    assert!(!has_prefix("ab", "abc"));
    assert_eq!(substr("héllo", 2), "hé");
    assert_eq!(substr("hi", 10), "hi");
    assert_eq!(substr("hi", 0), "");
}

#[test]
fn new_user_keeps_its_names() {
    let u = feedcore::types::User::new("a@example.com", "alice");
    assert_eq!(u.email, "a@example.com");
    assert_eq!(u.username, "alice");
    assert!(!u.id.0.is_empty());
}

#[test]
fn drawn_salt_is_eight_letters_or_digits() {
    let h = hash_password("pw", None);
    assert_eq!(h.salt.len(), 8);
    assert!(h.salt.chars().all(|c| c.is_ascii_alphanumeric()));
    assert_eq!(h.hash, hash_password("pw", Some(&h.salt)).hash);
    assert_eq!(h.hash.len(), 128);
}
