use conduit::small_string::{Error, SmallString};
use conduit::SessionName;

#[test]
fn test_minimum_length_deserialize() {
    // Test minimum length constraint during parsing
    let result: Result<SmallString<5, 20>, _> = SmallString::parse_str("abc");
    assert!(result.is_err());

    // Test valid minimum length
    let result: Result<SmallString<5, 20>, _> = SmallString::parse_str("abcde");
    assert!(result.is_ok());
}

#[test]
fn test_maximum_length() {
    let mut small_string = SmallString::<5, 10>::new();

    // This should be ok as it's exactly at capacity
    let valid = small_string.push_str("abcdefghij");
    assert!(valid.is_ok());
    assert!(small_string.is_full());

    // Reset for next test
    let mut small_string = SmallString::<5, 10>::new();

    // This should fail as it exceeds capacity
    let invalid = small_string.push_str("abcdefghijk");
    assert!(matches!(invalid, Err(Error::NotEnoughCapacity)));
}

#[test]
fn test_deserialize() {
    // Valid parsing
    let result: Result<SmallString<5, 20>, _> = SmallString::parse_str("hello world");
    assert!(result.is_ok());
    let small_string = result.unwrap();
    assert_eq!(small_string.as_str(), "hello world");

    // Invalid parsing (too short)
    let result: Result<SmallString<5, 20>, _> = SmallString::parse_str("abc");
    assert!(result.is_err());

    // Invalid parsing (too long)
    let result: Result<SmallString<5, 10>, _> =
        SmallString::parse_str("this is way too long for a small string");
    assert!(result.is_err());
}

#[test]
fn test_display() {
    let mut small_string = SmallString::<5, 20>::new();
    small_string.push_str("hello world").unwrap();

    assert_eq!(small_string.to_string(), "hello world");
    assert_eq!(small_string.to_string(), "hello world");

    // Test empty string display
    let empty_string = SmallString::<0, 10>::new();
    assert_eq!(empty_string.to_string(), "");
}

#[test]
fn test_length() {
    let mut small_string = SmallString::<5, 20>::new();
    assert_eq!(small_string.length(), 0);

    small_string.push_str("hello").unwrap();
    assert_eq!(small_string.length(), 5);

    small_string.push_str(" world").unwrap();
    assert_eq!(small_string.length(), 11);

    // The byte count is kept exactly
    assert_eq!(small_string.as_slice().len(), 11);
}

#[test]
fn test_basic_operations() {
    let mut small_string = SmallString::<5, 20>::new();

    // Test new creates an empty string
    assert_eq!(small_string.length(), 0);
    assert_eq!(small_string.as_str(), "");

    // Test push_str works
    small_string.push_str("hello").unwrap();
    assert_eq!(small_string.as_str(), "hello");

    // Test extend works
    small_string.extend("world".as_bytes()).unwrap();
    assert_eq!(small_string.as_str(), "helloworld");

    // Test as_slice returns correct bytes
    assert_eq!(small_string.as_slice(), b"helloworld");
}

#[test]
fn test_equality() {
    let mut string1 = SmallString::<5, 20>::new();
    string1.push_str("hello world").unwrap();

    let mut string2 = SmallString::<5, 20>::new();
    string2.push_str("hello world").unwrap();

    let mut string3 = SmallString::<5, 20>::new();
    string3.push_str("different").unwrap();

    assert_eq!(string1, string2);
    assert_ne!(string1, string3);

    // Test equality with SmallString of different generic parameters
    let mut string4 = SmallString::<3, 30>::new();
    string4.push_str("hello world").unwrap();

    // They're equal in terms of content, but different types
    assert_eq!(string1.as_str(), string4.as_str());
}

#[test]
fn test_borrow() {
    let mut small_string = SmallString::<5, 20>::new();
    small_string.push_str("hello world").unwrap();

    let borrowed: &str = small_string.as_str();
    assert_eq!(borrowed, "hello world");
}

#[test]
fn test_deref() {
    let mut small_string = SmallString::<5, 20>::new();
    small_string.push_str("hello world").unwrap();

    // The text as a str
    let str_slice: &str = small_string.as_str();
    assert_eq!(str_slice, "hello world");

    // Test str methods on the text
    assert_eq!(small_string.as_str().len(), 11);
    assert!(small_string.as_str().starts_with("hello"));
    assert!(small_string.as_str().contains("world"));
}

#[test]
fn test_debug() {
    let mut small_string = SmallString::<5, 20>::new();
    small_string.push_str("hello").unwrap();

    let debug_str = small_string.debug_string();
    assert!(debug_str.contains("SmallString"));
    assert!(debug_str.contains("buf"));
    assert!(debug_str.contains("hello"));
    assert!(debug_str.contains("len"));
    assert!(debug_str.contains("5"));
}

#[test]
fn test_capacity_methods() {
    let small_string = SmallString::<5, 20>::new();
    assert_eq!(small_string.capacity(), 20);
    assert!(!small_string.is_full());

    let mut full_string = SmallString::<5, 5>::new();
    full_string.push_str("12345").unwrap();
    assert!(full_string.is_full());
}

#[test]
fn test_push_unchecked() {
    let mut small_string = SmallString::<5, 10>::new();
    small_string.push_str("hello").unwrap();

    small_string.push_unchecked(b' ');
    small_string.push_unchecked(b'w');
    small_string.push_unchecked(b'o');
    small_string.push_unchecked(b'r');
    small_string.push_unchecked(b'l');

    assert_eq!(small_string.as_str(), "hello worl");
    assert_eq!(small_string.length(), 10);
}

#[test]
fn test_incremental_build() {
    // Test that we can build a string incrementally
    let mut small_string = SmallString::<5, 20>::new();

    // Initial string is empty (below MIN)
    assert_eq!(small_string.length(), 0);

    // Add content in chunks
    small_string.push_str("a").unwrap();
    small_string.push_str("bc").unwrap();
    small_string.push_str("de").unwrap();

    // Now it meets MIN length requirement
    assert_eq!(small_string.length(), 5);
    assert_eq!(small_string.as_str(), "abcde");

    // Keep adding
    small_string.push_str("fghij").unwrap();
    assert_eq!(small_string.as_str(), "abcdefghij");
}

#[test]
fn test_error_handling() {
    let mut small_string = SmallString::<5, 10>::new();

    // Fill it up
    small_string.push_str("1234567890").unwrap();

    // Now it should be full
    assert!(small_string.is_full());

    // Trying to add more should fail
    let err = small_string.push_str("more").unwrap_err();
    assert!(matches!(err, Error::NotEnoughCapacity));

    // String should remain unchanged
    assert_eq!(small_string.as_str(), "1234567890");
}

#[test]
fn parse_errors_name_the_failed_rule() {
    assert!(matches!(
        SmallString::<5, 10>::parse_str("abcd"),
        Err(Error::LacksMinimumLength)
    ));
    assert!(matches!(
        SmallString::<5, 10>::parse_str("abcdefghijk"),
        Err(Error::NotEnoughCapacity)
    ));
    let exact = SmallString::<5, 10>::parse_str("abcde").unwrap();
    assert_eq!(exact.as_slice(), b"abcde");
}

#[test]
fn parse_bytes_checks_length_then_encoding_then_capacity() {
    assert!(matches!(
        SmallString::<5, 10>::parse_bytes(&[0xff, 0xfe]),
        Err(Error::LacksMinimumLength)
    ));
    assert!(matches!(
        SmallString::<5, 10>::parse_bytes(&[0x61, 0x62, 0x63, 0xff, 0xfe]),
        Err(Error::InvalidUtf8)
    ));
    assert!(matches!(
        SmallString::<5, 10>::parse_bytes("abcdefghijk".as_bytes()),
        Err(Error::NotEnoughCapacity)
    ));
    assert!(matches!(
        SmallString::<5, 10>::parse_bytes("h\u{e9}llo".as_bytes()),
        Err(Error::NotAscii)
    ));
    let s = SmallString::<5, 10>::parse_bytes("hello".as_bytes()).unwrap();
    assert_eq!(s.as_str(), "hello");
    assert_eq!(s.length(), 5);
}

#[test]
fn session_names_must_be_ascii() {
    // five two-byte characters make ten bytes, enough for a session name
    let accented = "\u{e9}\u{e9}\u{e9}\u{e9}\u{e9}";
    assert_eq!(accented.len(), 10);
    assert!(matches!(SessionName::parse_str(accented), Err(Error::NotAscii)));
    assert!(matches!(SessionName::parse_bytes(accented.as_bytes()), Err(Error::NotAscii)));
    // the length is judged before the encoding
    assert!(matches!(SessionName::parse_str("\u{e9}\u{e9}"), Err(Error::LacksMinimumLength)));
    // and the encoding before the capacity
    let long_accented = "\u{e9}".repeat(20);
    assert!(matches!(SessionName::parse_str(&long_accented), Err(Error::NotAscii)));
    let name = SessionName::parse_str("my-session-01").unwrap();
    assert_eq!(name.as_str(), "my-session-01");
}

#[test]
fn appends_accumulate_in_order() {
    let mut s = SmallString::<0, 12>::new();
    s.push_str("ab").unwrap();
    s.extend(&[0x63, 0x64]).unwrap();
    assert!(s.push_str("too long for it").is_err());
    s.push_unchecked(0x65);
    s.push_str("fg").unwrap();
    assert_eq!(s.as_slice(), b"abcdefg");
    assert_eq!(s.length(), 7);
    assert!(s.length() <= s.capacity());
}

#[test]
fn extend_failure_leaves_string_unchanged() {
    let mut s = SmallString::<0, 4>::new();
    s.extend(&[1, 2, 3]).unwrap();
    assert!(matches!(s.extend(&[4, 5]), Err(Error::NotEnoughCapacity)));
    assert_eq!(s.as_slice(), &[1, 2, 3]);
    s.extend(&[4]).unwrap();
    assert!(s.is_full());
}

#[test]
fn text_of_non_utf8_bytes() {
    let mut s = SmallString::<0, 10>::new();
    s.extend(&[0x61, 0xff]).unwrap();
    assert!(s.try_as_str().is_none());
    assert_eq!(s.to_string(), "a\u{fffd}");
    let mut t = SmallString::<0, 10>::new();
    t.push_str("ok").unwrap();
    assert_eq!(t.try_as_str(), Some("ok"));
}

#[test]
fn debug_string_escapes_quotes() {
    let mut s = SmallString::<0, 20>::new();
    s.push_str("a\"b\\c").unwrap();
    assert_eq!(s.debug_string(), "SmallString<{MIN, MAX}> { buf: \"a\\\"b\\\\c\", len: 5 }");
    let mut controls = SmallString::<0, 20>::new();
    controls.push_str("a\nb\tc\u{1}").unwrap();
    assert_eq!(
        controls.debug_string(),
        "SmallString<{MIN, MAX}> { buf: \"a\\nb\\tc\\u{1}\", len: 6 }"
    );
    assert_eq!(
        controls.debug_string(),
        format!("SmallString<{{MIN, MAX}}> {{ buf: {:?}, len: 6 }}", "a\nb\tc\u{1}")
    );
    // characters outside ASCII that do not print are escaped too
    let mut next_line = SmallString::<0, 20>::new();
    next_line.push_str("a\u{85}b").unwrap();
    assert_eq!(
        next_line.debug_string(),
        "SmallString<{MIN, MAX}> { buf: \"a\\u{85}b\", len: 4 }"
    );
    // bytes that are not UTF-8 show as the replacement character
    let mut broken = SmallString::<0, 20>::new();
    broken.extend(&[0x61, 0xff]).unwrap();
    assert_eq!(
        broken.debug_string(),
        "SmallString<{MIN, MAX}> { buf: \"a\u{fffd}\", len: 2 }"
    );
    let mut hello = SmallString::<5, 20>::new();
    hello.push_str("hello").unwrap();
    assert_eq!(
        hello.debug_string(),
        "SmallString<{MIN, MAX}> { buf: \"hello\", len: 5 }"
    );
}

#[test]
fn clone_keeps_the_bytes() {
    let mut s = SmallString::<0, 20>::new();
    s.push_str("copy me").unwrap();
    let c = s.clone();
    assert_eq!(c, s);
    assert_eq!(c.as_str(), "copy me");
}
