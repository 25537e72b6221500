use conduit::error::Error;
use conduit::token::{build_token, generate_token, hash_token, validate_token, verify_token};
use conduit::Token;

fn token(text: &str) -> Token {
    let mut t = Token::new();
    t.push_str(text).unwrap();
    t
}

#[test]
fn short_tokens_are_refused() {
    assert!(matches!(validate_token(&token("Ab1!Ab1!Ab1")), Err(Error::TokenLength)));
}

#[test]
fn weak_tokens_are_refused() {
    // each lacks one kind: special, digit, lower, upper
    assert!(matches!(validate_token(&token("Abcdefgh1234")), Err(Error::WeakToken)));
    assert!(matches!(validate_token(&token("Abcdefgh!@#$")), Err(Error::WeakToken)));
    assert!(matches!(validate_token(&token("ABCDEFGH12!@")), Err(Error::WeakToken)));
    assert!(matches!(validate_token(&token("abcdefgh12!@")), Err(Error::WeakToken)));
    // the README example token, and the integration tests' tokens
    assert!(matches!(validate_token(&token("secure_token_123")), Err(Error::WeakToken)));
    assert!(matches!(validate_token(&token("valid_token")), Err(Error::TokenLength)));
}

#[test]
fn strong_tokens_pass() {
    assert!(validate_token(&token("P@ssw0rd_S3cur3!X9z")).is_ok());
    assert!(validate_token(&token("Ab1!Ab1!Ab1!")).is_ok());
}

#[test]
fn non_ascii_characters_count_for_no_kind() {
    // 'é' is two bytes, neither of them a letter of the rules
    assert!(matches!(validate_token(&token("éééééééAB12")), Err(Error::WeakToken)));
    assert!(validate_token(&token("ééAb1!xyzw")).is_ok());
}

#[test]
fn generated_tokens_are_valid() {
    for _ in 0..50 {
        let t = generate_token();
        assert_eq!(t.length(), 24);
        assert!(validate_token(&t).is_ok());
        assert!(t.as_str().is_ascii());
    }
}

#[test]
fn hashed_token_verifies() {
    let hash = hash_token("P@ssw0rd_S3cur3!X9z").unwrap();
    assert!(hash.starts_with("$argon2id$"));
    assert_ne!(hash, "P@ssw0rd_S3cur3!X9z");
    assert_eq!(verify_token("P@ssw0rd_S3cur3!X9z", &hash).unwrap(), true);
    assert_eq!(verify_token("wrong token", &hash).unwrap(), false);
}

#[test]
fn hashes_are_salted() {
    let first = hash_token("same token").unwrap();
    let second = hash_token("same token").unwrap();
    assert_ne!(first, second);
    assert!(verify_token("same token", &first).unwrap());
    assert!(verify_token("same token", &second).unwrap());
}

#[test]
fn malformed_hash_is_an_error() {
    match verify_token("anything", "not a hash") {
        Err(Error::TokenValidation(message)) => assert_eq!(message, "Invalid hash format"),
        _ => panic!("expected TokenValidation"),
    }
}

fn draws_with(fill: (usize, usize)) -> Vec<(usize, usize)> {
    let mut picks = vec![(0, 0), (1, 0), (2, 0), (3, 0)];
    while picks.len() < 24 {
        picks.push(fill);
    }
    picks
}

#[test]
fn draws_build_their_token() {
    // with every position kept in place, the token is the drawn characters
    let picks = draws_with((1, 1));
    let identity: Vec<usize> = (0..24).collect();
    let t = build_token(&picks, &identity);
    assert_eq!(t.as_str(), format!("Aa0!{}", "b".repeat(20)));

    // the last kind's characters come from the special list, in order
    let mut picks = draws_with((2, 9));
    picks[3] = (3, 23);
    picks[23] = (3, 10);
    let t = build_token(&picks, &identity);
    assert_eq!(t.as_str(), format!("Aa0?{}-", "9".repeat(19)));
}

#[test]
fn shuffle_exchanges_in_turn() {
    let picks = draws_with((0, 25));
    let mut swaps: Vec<usize> = (0..24).collect();
    // step 0 exchanges positions 0 and 3, step 1 positions 1 and 23
    swaps[0] = 3;
    swaps[1] = 23;
    let t = build_token(&picks, &swaps);
    assert_eq!(t.as_str(), format!("!Z0A{}a", "Z".repeat(19)));
    assert!(validate_token(&t).is_ok());
    // an exchange that an earlier step moved is followed: step 3 takes what
    // step 0 put at position 3
    swaps[3] = 2;
    let t = build_token(&picks, &swaps);
    assert_eq!(t.as_str(), format!("!ZA0{}a", "Z".repeat(19)));
}
