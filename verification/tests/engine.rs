use chhoto_url::engine::{
    add_first_free, add_generated, add_link, add_with_token, delete_link, edit_link, get_longurl,
    getall, Error, LinkRequest, MAX_ATTEMPTS,
};
use chhoto_url::generate::{random_token, token_from_draws, ALPHABET_SIZE, TOKEN_LENGTH};
use chhoto_url::link::Link;
use chhoto_url::store::Store;
use chhoto_url::syntax::validate_shortlink;

fn wanted(shortlink: Option<&str>, longlink: &str) -> LinkRequest {
    LinkRequest { shortlink: shortlink.map(|s| s.to_string()), longlink: longlink.to_string() }
}

fn is_alphanumeric(token: &str) -> bool {
    token.chars().all(|c| c.is_ascii_alphanumeric())
}

#[test]
fn add_then_get_returns_the_same_longlink() {
    let mut store = Store::new();
    assert_eq!(add_link(&mut store, wanted(Some("docs"), "https://docs.example/start")), Ok("docs".to_string()));
    assert_eq!(get_longurl(&store, "docs"), Some("https://docs.example/start".to_string()));
}

#[test]
fn second_add_under_the_same_token_conflicts() {
    let mut store = Store::new();
    assert_eq!(add_link(&mut store, wanted(Some("abc"), "https://a.com")), Ok("abc".to_string()));
    assert_eq!(add_link(&mut store, wanted(Some("abc"), "https://b.com")), Err(Error::Conflict));
    assert_eq!(get_longurl(&store, "abc"), Some("https://a.com".to_string()));
    assert_eq!(store.len(), 1);
}

#[test]
fn add_with_invalid_longlink_is_refused() {
    let mut store = Store::new();
    assert_eq!(add_link(&mut store, wanted(Some("abc"), "not a url")), Err(Error::InvalidLonglink));
    assert_eq!(add_link(&mut store, wanted(None, "example.com")), Err(Error::InvalidLonglink));
    assert_eq!(add_generated(&mut store, "http://".to_string()), Err(Error::InvalidLonglink));
    assert_eq!(store.len(), 0);
}

#[test]
fn add_with_invalid_shortlink_is_refused() {
    let mut store = Store::new();
    assert_eq!(add_link(&mut store, wanted(Some(""), "https://a.com")), Err(Error::InvalidShortlink));
    assert_eq!(add_link(&mut store, wanted(Some("a b"), "https://a.com")), Err(Error::InvalidShortlink));
    assert_eq!(add_link(&mut store, wanted(Some("api"), "https://a.com")), Err(Error::InvalidShortlink));
    assert_eq!(store.len(), 0);
}

#[test]
fn longlink_is_checked_before_shortlink_and_conflict() {
    let mut store = Store::new();
    assert_eq!(add_with_token(&mut store, "abc".to_string(), "https://a.com".to_string()), Ok("abc".to_string()));
    assert_eq!(add_with_token(&mut store, "a b".to_string(), "nope".to_string()), Err(Error::InvalidLonglink));
    assert_eq!(add_with_token(&mut store, "abc".to_string(), "nope".to_string()), Err(Error::InvalidLonglink));
    assert_eq!(add_with_token(&mut store, "abc".to_string(), "https://b.com".to_string()), Err(Error::Conflict));
}

#[test]
fn create_without_shortlink_generates_token_of_default_length() {
    let mut store = Store::new();
    let token = add_link(&mut store, wanted(None, "https://example.com")).unwrap();
    assert_eq!(token.chars().count(), TOKEN_LENGTH);
    assert_eq!(TOKEN_LENGTH, 8);
    assert!(is_alphanumeric(&token));
    assert!(validate_shortlink(&token));
    assert_eq!(get_longurl(&store, &token), Some("https://example.com".to_string()));
    store.record_hit(&token);
    assert_eq!(store.find(&token).unwrap().hits, 1);
}

#[test]
fn generated_tokens_do_not_collide() {
    let mut store = Store::new();
    let mut tokens: Vec<String> = Vec::new();
    for _ in 0..50 {
        let token = add_generated(&mut store, "https://example.com".to_string()).unwrap();
        assert!(!tokens.contains(&token));
        tokens.push(token);
    }
    assert_eq!(store.len(), 50);
}

#[test]
fn random_tokens_are_well_formed_and_vary() {
    let first = random_token();
    let mut varied = false;
    for _ in 0..20 {
        let token = random_token();
        assert_eq!(token.len(), TOKEN_LENGTH);
        assert!(is_alphanumeric(&token));
        if token != first {
            varied = true;
        }
    }
    assert!(varied);
}

#[test]
fn token_from_draws_spells_the_alphabet() {
    assert_eq!(ALPHABET_SIZE, 62);
    assert_eq!(token_from_draws(&vec![0, 9, 10, 35, 36, 61]), "09azAZ");
    assert_eq!(token_from_draws(&vec![62, 63, 72, 123]), "01aZ");
    assert_eq!(token_from_draws(&Vec::new()), "");
    let all: Vec<usize> = (0..62).collect();
    assert_eq!(
        token_from_draws(&all),
        "0123456789abcdefghijklmnopqrstuvwxyzABCDEFGHIJKLMNOPQRSTUVWXYZ"
    );
}

#[test]
fn first_free_candidate_is_taken() {
    let mut store = Store::new();
    add_link(&mut store, wanted(Some("a"), "https://a.com")).unwrap();
    add_link(&mut store, wanted(Some("b"), "https://b.com")).unwrap();
    let candidates = vec!["a".to_string(), "not valid".to_string(), "c".to_string(), "d".to_string()];
    assert_eq!(add_first_free(&mut store, &candidates, "https://c.com".to_string()), Ok("c".to_string()));
    assert_eq!(get_longurl(&store, "c"), Some("https://c.com".to_string()));
    assert_eq!(get_longurl(&store, "d"), None);
    assert_eq!(store.len(), 3);
}

#[test]
fn generation_gives_up_when_every_candidate_is_taken() {
    let mut store = Store::new();
    add_link(&mut store, wanted(Some("a"), "https://a.com")).unwrap();
    add_link(&mut store, wanted(Some("b"), "https://b.com")).unwrap();
    let candidates = vec!["a".to_string(), "b".to_string(), "a".to_string()];
    assert_eq!(
        add_first_free(&mut store, &candidates, "https://c.com".to_string()),
        Err(Error::GenerationExhausted)
    );
    assert_eq!(add_first_free(&mut store, &Vec::new(), "https://c.com".to_string()), Err(Error::GenerationExhausted));
    assert_eq!(add_first_free(&mut store, &candidates, "nope".to_string()), Err(Error::InvalidLonglink));
    assert_eq!(store.len(), 2);
    assert_eq!(MAX_ATTEMPTS, 10);
}

#[test]
fn delete_existing_then_get_is_none() {
    let mut store = Store::new();
    add_link(&mut store, wanted(Some("abc"), "https://a.com")).unwrap();
    assert!(delete_link(&mut store, "abc"));
    assert_eq!(get_longurl(&store, "abc"), None);
    assert!(!delete_link(&mut store, "abc"));
    assert!(!delete_link(&mut store, "never"));
}

#[test]
fn edit_of_longlink_keeps_hits() {
    let mut store = Store::new();
    add_link(&mut store, wanted(Some("abc"), "https://a.com")).unwrap();
    store.record_hit("abc");
    store.record_hit("abc");
    assert_eq!(edit_link(&mut store, "abc", wanted(None, "https://b.com")), Ok(true));
    assert_eq!(
        store.find("abc"),
        Some(Link { shortlink: "abc".to_string(), longlink: "https://b.com".to_string(), hits: 2 })
    );
}

#[test]
fn edit_to_new_shortlink_renames() {
    let mut store = Store::new();
    add_link(&mut store, wanted(Some("abc"), "https://a.com")).unwrap();
    store.record_hit("abc");
    assert_eq!(edit_link(&mut store, "abc", wanted(Some("xyz"), "https://a.com")), Ok(true));
    assert_eq!(get_longurl(&store, "abc"), None);
    assert_eq!(
        store.find("xyz"),
        Some(Link { shortlink: "xyz".to_string(), longlink: "https://a.com".to_string(), hits: 1 })
    );
    assert_eq!(edit_link(&mut store, "xyz", wanted(Some("xyz"), "https://c.com")), Ok(true));
    assert_eq!(get_longurl(&store, "xyz"), Some("https://c.com".to_string()));
}

#[test]
fn edit_to_taken_shortlink_fails_without_change() {
    let mut store = Store::new();
    add_link(&mut store, wanted(Some("abc"), "https://a.com")).unwrap();
    add_link(&mut store, wanted(Some("xyz"), "https://x.com")).unwrap();
    store.record_hit("abc");
    let before = store.list_all();
    assert_eq!(edit_link(&mut store, "abc", wanted(Some("xyz"), "https://b.com")), Err(Error::Conflict));
    assert_eq!(store.list_all(), before);
}

#[test]
fn edit_of_missing_token_is_false() {
    let mut store = Store::new();
    add_link(&mut store, wanted(Some("abc"), "https://a.com")).unwrap();
    assert_eq!(edit_link(&mut store, "nope", wanted(None, "https://b.com")), Ok(false));
    assert_eq!(edit_link(&mut store, "nope", wanted(Some("abc"), "https://b.com")), Ok(false));
    assert_eq!(get_longurl(&store, "abc"), Some("https://a.com".to_string()));
}

#[test]
fn edit_validates_like_a_creation() {
    let mut store = Store::new();
    add_link(&mut store, wanted(Some("abc"), "https://a.com")).unwrap();
    assert_eq!(edit_link(&mut store, "abc", wanted(None, "nope")), Err(Error::InvalidLonglink));
    assert_eq!(edit_link(&mut store, "abc", wanted(Some("api"), "https://b.com")), Err(Error::InvalidShortlink));
    assert_eq!(edit_link(&mut store, "abc", wanted(Some(""), "https://b.com")), Err(Error::InvalidShortlink));
    assert_eq!(edit_link(&mut store, "nope", wanted(Some("a b"), "https://b.com")), Err(Error::InvalidShortlink));
    assert_eq!(get_longurl(&store, "abc"), Some("https://a.com".to_string()));
}

#[test]
fn hits_equal_the_number_of_recorded_hits() {
    let mut store = Store::new();
    add_link(&mut store, wanted(Some("abc"), "https://a.com")).unwrap();
    for _ in 0..25 {
        assert!(get_longurl(&store, "abc").is_some());
        store.record_hit("abc");
    }
    assert_eq!(store.find("abc").unwrap().hits, 25);
}

#[test]
fn lookup_alone_counts_no_hit() {
    let mut store = Store::new();
    add_link(&mut store, wanted(Some("abc"), "https://a.com")).unwrap();
    assert!(get_longurl(&store, "abc").is_some());
    assert!(get_longurl(&store, "abc").is_some());
    assert_eq!(store.find("abc").unwrap().hits, 0);
}

#[test]
fn getall_lists_links_in_order() {
    let mut store = Store::new();
    assert_eq!(getall(&store), "");
    add_link(&mut store, wanted(Some("abc"), "https://a.com")).unwrap();
    assert_eq!(getall(&store), "abc,https://a.com,0");
    add_link(&mut store, wanted(Some("xyz"), "https://x.com/a,b")).unwrap();
    for _ in 0..12 {
        store.record_hit("xyz");
    }
    assert_eq!(getall(&store), "abc,https://a.com,0\nxyz,https://x.com/a,b,12");
}

#[test]
fn error_messages_name_the_reason() {
    assert_eq!(Error::InvalidLonglink.message(), "The long URL is not a valid URL.");
    assert_eq!(
        Error::InvalidShortlink.message(),
        "The short URL is empty, reserved or holds a character that is not allowed."
    );
    assert_eq!(Error::Conflict.message(), "The short URL is already in use.");
    assert_eq!(Error::GenerationExhausted.message(), "No free short URL could be generated.");
}
