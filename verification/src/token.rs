//! Token rules: what makes a token strong enough, how a fresh token is drawn,
//! and how tokens are hashed and checked with Argon2.
use vstd::prelude::*;
use vstd::string::*;
use vstd::utf8::*;
use argon2::password_hash::rand_core::OsRng;
use argon2::password_hash::{PasswordHash, PasswordHasher, PasswordVerifier, SaltString};
use argon2::Argon2;
use rand::Rng;
use crate::error::Error;
use crate::Token;

verus! {

/// Minimum number of bytes in a token.
pub const TOKEN_MIN_LENGTH: usize = 12;

/// `A` to `Z`.
pub open spec fn is_upper(b: u8) -> bool {
    65 <= b <= 90
}

/// `a` to `z`.
pub open spec fn is_lower(b: u8) -> bool {
    97 <= b <= 122
}

/// `0` to `9`.
pub open spec fn is_digit(b: u8) -> bool {
    48 <= b <= 57
}

/// The special characters a token may use:
/// `! @ # $ % ^ & * ( ) - _ + = { } [ ] | : ; , . ?`
pub open spec fn is_special(b: u8) -> bool {
    b == 33 || b == 64 || b == 35 || b == 36 || b == 37 || b == 94 || b == 38 || b == 42 || b
        == 40 || b == 41 || b == 45 || b == 95 || b == 43 || b == 61 || b == 123 || b == 125 || b
        == 91 || b == 93 || b == 124 || b == 58 || b == 59 || b == 44 || b == 46 || b == 63
}

/// Some byte of `s` satisfies `p`.
pub open spec fn has_some(s: Seq<u8>, p: spec_fn(u8) -> bool) -> bool {
    exists|i: int| 0 <= i < s.len() && p(#[trigger] s[i])
}

/// The token holds an upper-case letter, a lower-case letter, a digit and a
/// special character.  Bytes of other characters count for none of these,
/// and neither do the bytes of multi-byte UTF-8 characters.
pub open spec fn is_complex(s: Seq<u8>) -> bool {
    &&& has_some(s, |b: u8| is_upper(b))
    &&& has_some(s, |b: u8| is_lower(b))
    &&& has_some(s, |b: u8| is_digit(b))
    &&& has_some(s, |b: u8| is_special(b))
}

/// What `validate_token` answers for a token of these bytes.
pub open spec fn token_verdict(s: Seq<u8>) -> Option<Error> {
    if s.len() < TOKEN_MIN_LENGTH {
        Some(Error::TokenLength)
    } else if !is_complex(s) {
        Some(Error::WeakToken)
    } else {
        None
    }
}

/// Whether `b` is one of the special characters.
fn special_byte(b: u8) -> (r: bool)
    ensures
        r == is_special(b),
{
    // ! @ # $ % ^ & * ( ) - _ + = { } [ ] | : ; , . ?
    b == 33 || b == 64 || b == 35 || b == 36 || b == 37 || b == 94 || b == 38 || b == 42 || b
        == 40 || b == 41 || b == 45 || b == 95 || b == 43 || b == 61 || b == 123 || b == 125 || b
        == 91 || b == 93 || b == 124 || b == 58 || b == 59 || b == 44 || b == 46 || b == 63
}

/// Checks a token against the requirements: at least 12 bytes, and at least
/// one upper-case letter, lower-case letter, digit and special character.
pub fn validate_token(token: &Token) -> (r: Result<(), Error>)
    ensures
        token@.len() < TOKEN_MIN_LENGTH ==> r matches Err(Error::TokenLength),
        token@.len() >= TOKEN_MIN_LENGTH && !is_complex(token@) ==> r matches Err(
            Error::WeakToken,
        ),
        r is Ok <==> token_verdict(token@) is None,
        r matches Err(e) ==> token_verdict(token@) == Some(e),
{
    let bytes = token.as_slice();
    if bytes.len() < TOKEN_MIN_LENGTH {
        return Err(Error::TokenLength);
    }
    let mut has_uppercase = false;
    let mut has_lowercase = false;
    let mut has_digit = false;
    let mut has_special = false;
    let mut i: usize = 0;
    while i < bytes.len()
        invariant
            i <= bytes@.len(),
            has_uppercase == has_some(bytes@.take(i as int), |b: u8| is_upper(b)),
            has_lowercase == has_some(bytes@.take(i as int), |b: u8| is_lower(b)),
            has_digit == has_some(bytes@.take(i as int), |b: u8| is_digit(b)),
            has_special == has_some(bytes@.take(i as int), |b: u8| is_special(b)),
        decreases bytes@.len() - i,
    {
        let c = bytes[i];
        // 'A'..='Z', 'a'..='z', '0'..='9'
        if 65 <= c && c <= 90 {
            has_uppercase = true;
        } else if 97 <= c && c <= 122 {
            has_lowercase = true;
        } else if 48 <= c && c <= 57 {
            has_digit = true;
        } else if special_byte(c) {
            has_special = true;
        }
        proof {
            lemma_has_some_take_step(bytes@, i as int, |b: u8| is_upper(b));
            lemma_has_some_take_step(bytes@, i as int, |b: u8| is_lower(b));
            lemma_has_some_take_step(bytes@, i as int, |b: u8| is_digit(b));
            lemma_has_some_take_step(bytes@, i as int, |b: u8| is_special(b));
        }
        i += 1;
    }
    assert(bytes@.take(bytes@.len() as int) =~= bytes@);
    if !has_uppercase || !has_lowercase || !has_digit || !has_special {
        return Err(Error::WeakToken);
    }
    Ok(())
}

/// Length of the tokens that `generate_token` draws.
pub const GENERATED_TOKEN_LENGTH: usize = 24;

/// A byte of the token alphabet: a letter, a digit or a special character.
pub open spec fn is_token_char(b: u8) -> bool {
    is_upper(b) || is_lower(b) || is_digit(b) || is_special(b)
}

/// What `generate_token` promises of the bytes it draws: 24 bytes of the
/// token alphabet, among them each of the four kinds.
pub open spec fn is_generated_token(s: Seq<u8>) -> bool {
    &&& s.len() == GENERATED_TOKEN_LENGTH
    &&& forall|i: int| 0 <= i < s.len() ==> is_token_char(#[trigger] s[i])
    &&& is_complex(s)
}

/// The special character at position `i` of the list
/// `! @ # $ % ^ & * ( ) - _ + = { } [ ] | : ; , . ?`.
pub open spec fn special_at(i: int) -> u8 {
    if i == 0 {
        33
    } else if i == 1 {
        64
    } else if i == 2 {
        35
    } else if i == 3 {
        36
    } else if i == 4 {
        37
    } else if i == 5 {
        94
    } else if i == 6 {
        38
    } else if i == 7 {
        42
    } else if i == 8 {
        40
    } else if i == 9 {
        41
    } else if i == 10 {
        45
    } else if i == 11 {
        95
    } else if i == 12 {
        43
    } else if i == 13 {
        61
    } else if i == 14 {
        123
    } else if i == 15 {
        125
    } else if i == 16 {
        91
    } else if i == 17 {
        93
    } else if i == 18 {
        124
    } else if i == 19 {
        58
    } else if i == 20 {
        59
    } else if i == 21 {
        44
    } else if i == 22 {
        46
    } else {
        63
    }
}

/// How many characters a kind has to draw from: 26 letters of each case,
/// 10 digits, 24 special characters.  Kinds are 0 upper-case letter,
/// 1 lower-case letter, 2 digit, 3 special character.
pub open spec fn kind_size(kind: int) -> int {
    if kind == 2 {
        10
    } else if kind == 3 {
        24
    } else {
        26
    }
}

/// The character drawn as number `pick` of kind `kind`.
pub open spec fn drawn_char(kind: int, pick: int) -> u8 {
    if kind == 0 {
        (65 + pick) as u8
    } else if kind == 1 {
        (97 + pick) as u8
    } else if kind == 2 {
        (48 + pick) as u8
    } else {
        special_at(pick)
    }
}

/// A draw names a kind and a character within it.
pub open spec fn valid_pick(p: (usize, usize)) -> bool {
    p.0 < 4 && p.1 < kind_size(p.0 as int)
}

/// The characters of a sequence of draws, in the order drawn.
pub open spec fn drawn_chars(picks: Seq<(usize, usize)>) -> Seq<u8> {
    Seq::new(picks.len(), |i: int| drawn_char(picks[i].0 as int, picks[i].1 as int))
}

/// `s` with the bytes at `i` and `j` exchanged.
pub open spec fn swapped(s: Seq<u8>, i: int, j: int) -> Seq<u8> {
    s.update(i, s[j]).update(j, s[i])
}

/// `s` after the first `k` steps of the shuffle: step `i` exchanges the
/// byte at `i` with the byte at `swaps[i]`.
pub open spec fn shuffled(s: Seq<u8>, swaps: Seq<usize>, k: nat) -> Seq<u8>
    decreases k,
{
    if k == 0 {
        s
    } else {
        swapped(shuffled(s, swaps, (k - 1) as nat), k - 1, swaps[k - 1] as int)
    }
}

/// Draws as `generate_token` makes them: 24 characters, the first four of
/// the kinds 0, 1, 2, 3 in that order, and 24 shuffle positions below 24.
pub open spec fn valid_draws(picks: Seq<(usize, usize)>, swaps: Seq<usize>) -> bool {
    &&& picks.len() == GENERATED_TOKEN_LENGTH
    &&& swaps.len() == GENERATED_TOKEN_LENGTH
    &&& forall|i: int| 0 <= i < picks.len() ==> valid_pick(#[trigger] picks[i])
    &&& forall|i: int| 0 <= i < 4 ==> #[trigger] picks[i].0 == i
    &&& forall|i: int| 0 <= i < swaps.len() ==> #[trigger] swaps[i] < GENERATED_TOKEN_LENGTH
}

/// The token that a set of draws gives: the drawn characters, shuffled.
pub open spec fn token_of_draws(picks: Seq<(usize, usize)>, swaps: Seq<usize>) -> Seq<u8> {
    shuffled(drawn_chars(picks), swaps, swaps.len())
}

/// The special character at position `i` of the list.
fn special_char(i: usize) -> (b: u8)
    requires
        i < 24,
    ensures
        b == special_at(i as int),
{
    match i {
        0 => 33,
        1 => 64,
        2 => 35,
        3 => 36,
        4 => 37,
        5 => 94,
        6 => 38,
        7 => 42,
        8 => 40,
        9 => 41,
        10 => 45,
        11 => 95,
        12 => 43,
        13 => 61,
        14 => 123,
        15 => 125,
        16 => 91,
        17 => 93,
        18 => 124,
        19 => 58,
        20 => 59,
        21 => 44,
        22 => 46,
        _ => 63,
    }
}

/// The character drawn as number `pick` of kind `kind`.
fn char_of(kind: usize, pick: usize) -> (b: u8)
    requires
        valid_pick((kind, pick)),
    ensures
        b == drawn_char(kind as int, pick as int),
{
    if kind == 0 {
        (65 + pick) as u8
    } else if kind == 1 {
        (97 + pick) as u8
    } else if kind == 2 {
        (48 + pick) as u8
    } else {
        special_char(pick)
    }
}

/// A drawn character is of the alphabet, and of the kind it was drawn as.
proof fn lemma_drawn_char(kind: int, pick: int)
    requires
        0 <= kind < 4,
        0 <= pick < kind_size(kind),
    ensures
        is_token_char(drawn_char(kind, pick)),
        kind == 0 ==> is_upper(drawn_char(kind, pick)),
        kind == 1 ==> is_lower(drawn_char(kind, pick)),
        kind == 2 ==> is_digit(drawn_char(kind, pick)),
        kind == 3 ==> is_special(drawn_char(kind, pick)),
{
}

/// Exchanging two bytes keeps a sequence of the token alphabet with each
/// of the four kinds.
proof fn lemma_swap_keeps_generated(s: Seq<u8>, i: int, j: int)
    requires
        is_generated_token(s),
        0 <= i < s.len(),
        0 <= j < s.len(),
    ensures
        is_generated_token(swapped(s, i, j)),
{
    let t = swapped(s, i, j);
    lemma_has_some_swap(s, i, j, |x: u8| is_upper(x));
    lemma_has_some_swap(s, i, j, |x: u8| is_lower(x));
    lemma_has_some_swap(s, i, j, |x: u8| is_digit(x));
    lemma_has_some_swap(s, i, j, |x: u8| is_special(x));
    assert forall|k: int| 0 <= k < t.len() implies is_token_char(#[trigger] t[k]) by {
        if k == j {
            assert(is_token_char(s[i]));
        } else if k == i {
            assert(is_token_char(s[j]));
        } else {
            assert(is_token_char(s[k]));
        }
    }
}

/// The drawn characters of valid draws are of the alphabet, and the first
/// four are one of each kind.
proof fn lemma_drawn_is_generated(picks: Seq<(usize, usize)>, swaps: Seq<usize>)
    requires
        valid_draws(picks, swaps),
    ensures
        is_generated_token(drawn_chars(picks)),
{
    let drawn = drawn_chars(picks);
    assert forall|k: int| 0 <= k < drawn.len() implies is_token_char(#[trigger] drawn[k]) by {
        assert(valid_pick(picks[k]));
        lemma_drawn_char(picks[k].0 as int, picks[k].1 as int);
    }
    assert(picks[0].0 == 0 && picks[1].0 == 1 && picks[2].0 == 2 && picks[3].0 == 3);
    assert(valid_pick(picks[0]) && valid_pick(picks[1]) && valid_pick(picks[2]) && valid_pick(
        picks[3],
    ));
    lemma_drawn_char(0, picks[0].1 as int);
    lemma_drawn_char(1, picks[1].1 as int);
    lemma_drawn_char(2, picks[2].1 as int);
    lemma_drawn_char(3, picks[3].1 as int);
    assert(is_upper(drawn[0]));
    assert(is_lower(drawn[1]));
    assert(is_digit(drawn[2]));
    assert(is_special(drawn[3]));
}

/// Builds the token of a set of draws: the characters in the order drawn,
/// then for each position `i` in turn the exchange of the characters at
/// `i` and `swaps[i]`.
pub fn build_token(picks: &[(usize, usize)], swaps: &[usize]) -> (t: Token)
    requires
        valid_draws(picks@, swaps@),
    ensures
        t@ == token_of_draws(picks@, swaps@),
        is_generated_token(t@),
{
    let mut chars: Vec<u8> = Vec::new();
    let mut i: usize = 0;
    while i < picks.len()
        invariant
            i <= picks@.len(),
            valid_draws(picks@, swaps@),
            chars@ == drawn_chars(picks@).take(i as int),
        decreases picks@.len() - i,
    {
        let (kind, pick) = picks[i];
        assert(valid_pick(picks@[i as int]));
        let c = char_of(kind, pick);
        chars.push(c);
        i += 1;
        assert(chars@ =~= drawn_chars(picks@).take(i as int));
    }
    let ghost drawn = drawn_chars(picks@);
    assert(chars@ =~= drawn);
    proof {
        lemma_drawn_is_generated(picks@, swaps@);
    }
    let n = chars.len();
    let mut i: usize = 0;
    while i < n
        invariant
            n == GENERATED_TOKEN_LENGTH,
            i <= n,
            valid_draws(picks@, swaps@),
            drawn == drawn_chars(picks@),
            chars@ == shuffled(drawn, swaps@, i as nat),
            is_generated_token(chars@),
        decreases n - i,
    {
        let j = swaps[i];
        let a = chars[i];
        let b = chars[j];
        let ghost before = chars@;
        chars.set(i, b);
        chars.set(j, a);
        proof {
            assert(chars@ =~= swapped(before, i as int, j as int));
            lemma_swap_keeps_generated(before, i as int, j as int);
        }
        i += 1;
    }
    let mut token = Token::new();
    match token.extend(chars.as_slice()) {
        Ok(()) => {},
        Err(_) => {
            proof {
                assert(false);
            }
        },
    }
    token
}

/// Draws a character of the given kind: a number below the kind's size.
fn draw_pick(rng: &mut rand::rngs::ThreadRng, kind: usize) -> (p: usize)
    requires
        kind < 4,
    ensures
        valid_pick((kind, p)),
{
    if kind == 2 {
        gen_index(rng, 10)
    } else if kind == 3 {
        gen_index(rng, 24)
    } else {
        gen_index(rng, 26)
    }
}

/// Generates a random token of 24 characters: one upper-case letter, one
/// lower-case letter, one digit and one special character first, then
/// characters of random kinds, then shuffled so that the kinds fall at no
/// fixed place.  The random numbers are drawn in that order, and the token
/// is what `build_token` makes of them.
pub fn generate_token() -> (t: Token)
    ensures
        exists|picks: Seq<(usize, usize)>, swaps: Seq<usize>|
            valid_draws(picks, swaps) && t@ == token_of_draws(picks, swaps),
        is_generated_token(t@),
{
    let mut rng = thread_rng();
    let mut picks: Vec<(usize, usize)> = Vec::new();
    let mut kind: usize = 0;
    while kind < 4
        invariant
            kind <= 4,
            picks@.len() == kind,
            forall|i: int| 0 <= i < picks@.len() ==> valid_pick(#[trigger] picks@[i]),
            forall|i: int| 0 <= i < picks@.len() ==> #[trigger] picks@[i].0 == i,
        decreases 4 - kind,
    {
        let p = draw_pick(&mut rng, kind);
        picks.push((kind, p));
        kind += 1;
    }
    while picks.len() < GENERATED_TOKEN_LENGTH
        invariant
            4 <= picks@.len() <= GENERATED_TOKEN_LENGTH,
            forall|i: int| 0 <= i < picks@.len() ==> valid_pick(#[trigger] picks@[i]),
            forall|i: int| 0 <= i < 4 ==> #[trigger] picks@[i].0 == i,
        decreases GENERATED_TOKEN_LENGTH - picks@.len(),
    {
        let kind = gen_index(&mut rng, 4);
        let p = draw_pick(&mut rng, kind);
        picks.push((kind, p));
    }
    let mut swaps: Vec<usize> = Vec::new();
    while swaps.len() < GENERATED_TOKEN_LENGTH
        invariant
            swaps@.len() <= GENERATED_TOKEN_LENGTH,
            forall|i: int| 0 <= i < swaps@.len() ==> #[trigger] swaps@[i] < GENERATED_TOKEN_LENGTH,
        decreases GENERATED_TOKEN_LENGTH - swaps@.len(),
    {
        let j = gen_index(&mut rng, GENERATED_TOKEN_LENGTH);
        swaps.push(j);
    }
    build_token(picks.as_slice(), swaps.as_slice())
}

/// Every token that `generate_token` draws passes `validate_token`.
pub proof fn generated_tokens_are_valid(s: Seq<u8>)
    requires
        is_generated_token(s),
    ensures
        token_verdict(s) is None,
{
}

/// The special characters are exactly the 24 characters
/// `! @ # $ % ^ & * ( ) - _ + = { } [ ] | : ; , . ?`: a byte counts as
/// special when it is one of them, and no other byte does (so `~`, a
/// space or a quote do not).
pub proof fn special_characters_are_listed(b: u8)
    ensures
        is_special(b) <==> (b == '!' as u8 || b == '@' as u8 || b == '#' as u8 || b == '$' as u8
            || b == '%' as u8 || b == '^' as u8 || b == '&' as u8 || b == '*' as u8 || b == '('
            as u8 || b == ')' as u8 || b == '-' as u8 || b == '_' as u8 || b == '+' as u8 || b
            == '=' as u8 || b == '{' as u8 || b == '}' as u8 || b == '[' as u8 || b == ']' as u8
            || b == '|' as u8 || b == ':' as u8 || b == ';' as u8 || b == ',' as u8 || b == '.'
            as u8 || b == '?' as u8),
        is_special('@' as u8),
        !is_special('~' as u8),
        !is_special(' ' as u8),
{
}

/// A token passes validation exactly when it has at least 12 bytes and
/// holds an upper-case letter, a lower-case letter, a digit and one of the
/// special characters `! @ # $ % ^ & * ( ) - _ + = { } [ ] | : ; , . ?`.
/// With `@` as its special character, a token such as `P@ssw0rd1234`
/// passes.
pub proof fn strong_tokens_pass(s: Seq<u8>, upper: int, lower: int, digit: int, special: int)
    requires
        s.len() >= TOKEN_MIN_LENGTH,
        0 <= upper < s.len() && 'A' as u8 <= s[upper] <= 'Z' as u8,
        0 <= lower < s.len() && 'a' as u8 <= s[lower] <= 'z' as u8,
        0 <= digit < s.len() && '0' as u8 <= s[digit] <= '9' as u8,
        0 <= special < s.len() && (s[special] == '@' as u8 || s[special] == '!' as u8
            || s[special] == '?' as u8 || s[special] == '_' as u8),
    ensures
        token_verdict(s) is None,
{
    assert((|b: u8| is_upper(b))(s[upper]));
    assert((|b: u8| is_lower(b))(s[lower]));
    assert((|b: u8| is_digit(b))(s[digit]));
    assert((|b: u8| is_special(b))(s[special]));
}

/// A token without any special character, however long, is weak: a
/// character outside the list, such as `~`, does not count.
pub proof fn tokens_without_special_are_weak(s: Seq<u8>)
    requires
        s.len() >= TOKEN_MIN_LENGTH,
        forall|i: int| 0 <= i < s.len() ==> ('A' as u8 <= #[trigger] s[i] <= 'Z' as u8) || ('a' as u8
            <= s[i] <= 'z' as u8) || ('0' as u8 <= s[i] <= '9' as u8) || s[i] == '~' as u8,
    ensures
        token_verdict(s) == Some(crate::error::Error::WeakToken),
{
    if has_some(s, |b: u8| is_special(b)) {
        let i = choose|i: int| 0 <= i < s.len() && (|b: u8| is_special(b))(#[trigger] s[i]);
        assert('A' as u8 <= s[i] <= 'Z' as u8 || 'a' as u8 <= s[i] <= 'z' as u8 || '0' as u8 <= s[i]
            <= '9' as u8 || s[i] == '~' as u8);
    }
}

/// The special characters that `generate_token` draws from, in the order
/// of the draw: `! @ # $ % ^ & * ( ) - _ + = { } [ ] | : ; , . ?`.
pub proof fn drawn_specials_are_listed()
    ensures
        special_at(0) == '!' as u8,
        special_at(1) == '@' as u8,
        special_at(2) == '#' as u8,
        special_at(3) == '$' as u8,
        special_at(4) == '%' as u8,
        special_at(5) == '^' as u8,
        special_at(6) == '&' as u8,
        special_at(7) == '*' as u8,
        special_at(8) == '(' as u8,
        special_at(9) == ')' as u8,
        special_at(10) == '-' as u8,
        special_at(11) == '_' as u8,
        special_at(12) == '+' as u8,
        special_at(13) == '=' as u8,
        special_at(14) == '{' as u8,
        special_at(15) == '}' as u8,
        special_at(16) == '[' as u8,
        special_at(17) == ']' as u8,
        special_at(18) == '|' as u8,
        special_at(19) == ':' as u8,
        special_at(20) == ';' as u8,
        special_at(21) == ',' as u8,
        special_at(22) == '.' as u8,
        special_at(23) == '?' as u8,
{
}

/// What `PasswordHash::new` makes of a hash string: whether it parses as a
/// PHC string.
pub uninterp spec fn phc_parses(hash: Seq<char>) -> bool;

/// What `Argon2::verify_password` answers for a password and a parsed hash:
/// whether the password matches.
pub uninterp spec fn argon2_accepts(password: Seq<u8>, hash: Seq<char>) -> bool;

/// What `verify_token` answers: `None` for a hash that does not parse,
/// otherwise whether the token matches it.
pub open spec fn verify_outcome(password: Seq<u8>, hash: Seq<char>) -> Option<bool> {
    if phc_parses(hash) {
        Some(argon2_accepts(password, hash))
    } else {
        None
    }
}

/// Hashes a token with Argon2id, default parameters and a fresh random salt,
/// giving the hash as a PHC string.  Hashing fails only for a token of more
/// than `u32::MAX` bytes.
pub fn hash_token(token: &str) -> (r: Result<String, Error>)
    ensures
        token.spec_bytes().len() <= u32::MAX ==> r is Ok,
        r matches Ok(h) ==> phc_parses(h@) && argon2_accepts(token.spec_bytes(), h@),
        r is Err ==> (r matches Err(Error::TokenValidation(m)) && m@ == "Failed to hash token"@),
{
    hash_token_bytes(token.as_bytes())
}

/// Hashes the bytes of a token, as `hash_token` does.
pub fn hash_token_bytes(token: &[u8]) -> (r: Result<String, Error>)
    ensures
        token@.len() <= u32::MAX ==> r is Ok,
        r matches Ok(h) ==> phc_parses(h@) && argon2_accepts(token@, h@),
        r is Err ==> (r matches Err(Error::TokenValidation(m)) && m@ == "Failed to hash token"@),
{
    match argon2_hash_fresh_salt(token) {
        Some(hash) => Ok(hash),
        None => Err(Error::TokenValidation("Failed to hash token".to_owned())),
    }
}

/// Checks a token against a stored PHC hash string.
pub fn verify_token(token: &str, hash: &str) -> (r: Result<bool, Error>)
    ensures
        phc_parses(hash@) ==> r == Ok::<bool, Error>(argon2_accepts(token.spec_bytes(), hash@)),
        !phc_parses(hash@) ==> (r matches Err(Error::TokenValidation(m)) && m@
            == "Invalid hash format"@),
        r matches Ok(b) ==> verify_outcome(token.spec_bytes(), hash@) == Some(b),
{
    verify_token_bytes(token.as_bytes(), hash)
}

/// Checks the bytes of a token against a stored hash, as `verify_token`
/// does.
pub fn verify_token_bytes(token: &[u8], hash: &str) -> (r: Result<bool, Error>)
    ensures
        phc_parses(hash@) ==> r == Ok::<bool, Error>(argon2_accepts(token@, hash@)),
        !phc_parses(hash@) ==> (r matches Err(Error::TokenValidation(m)) && m@
            == "Invalid hash format"@),
        r matches Ok(b) ==> verify_outcome(token@, hash@) == Some(b),
{
    match argon2_verify(token, hash) {
        Some(matches) => Ok(matches),
        None => Err(Error::TokenValidation("Invalid hash format".to_owned())),
    }
}

/// A token checks out against any hash that `hash_token` made of it.
pub proof fn hashed_token_verifies(password: Seq<u8>, hash: Seq<char>)
    requires
        phc_parses(hash),
        argon2_accepts(password, hash),
    ensures
        verify_outcome(password, hash) == Some(true),
{
}

/// Swapping two bytes keeps every kind that was there.
proof fn lemma_has_some_swap(s: Seq<u8>, i: int, j: int, p: spec_fn(u8) -> bool)
    requires
        has_some(s, p),
        0 <= i < s.len(),
        0 <= j < s.len(),
    ensures
        has_some(s.update(i, s[j]).update(j, s[i]), p),
{
    let t = s.update(i, s[j]).update(j, s[i]);
    let k = choose|k: int| 0 <= k < s.len() && p(#[trigger] s[k]);
    if k == i {
        assert(t[j] == s[i]);
    } else if k == j {
        if i == j {
            assert(t[j] == s[i]);
        } else {
            assert(t[i] == s[j]);
        }
    } else {
        assert(t[k] == s[k]);
    }
}

/// Calls `rand::thread_rng`.
#[verifier::external_body]
fn thread_rng() -> rand::rngs::ThreadRng {
    rand::thread_rng()
}

/// Calls `Rng::gen_range(0..n)`, which panics on an empty range and
/// otherwise draws a number below `n`.
#[verifier::external_body]
fn gen_index(rng: &mut rand::rngs::ThreadRng, n: usize) -> (r: usize)
    requires
        n > 0,
    ensures
        r < n,
{
    rng.gen_range(0..n)
}

/// Draws a salt with `SaltString::generate` from the operating system's
/// random source, then calls `PasswordHasher::hash_password` of
/// `Argon2::default()` and renders the hash as a PHC string.  The salt is
/// random and nothing is stated of it.  Of the hash, the contract states
/// what the argon2 crate is for: the string parses back, and the same
/// password verifies against it.  `hash_password` fails only on a password
/// of more than `u32::MAX` bytes or a salt outside 8 to 64 bytes, and the
/// generated salt has 16 bytes, so a shorter password always gets a hash.
/// A failure of the operating system's random source, on which the salt
/// generation panics, is left aside.
#[verifier::external_body]
fn argon2_hash_fresh_salt(password: &[u8]) -> (r: Option<String>)
    ensures
        password@.len() <= u32::MAX ==> r is Some,
        r matches Some(h) ==> phc_parses(h@) && argon2_accepts(password@, h@),
{
    let salt = SaltString::generate(&mut OsRng);
    match Argon2::default().hash_password(password, &salt) {
        Ok(hash) => Some(hash.to_string()),
        Err(_) => None,
    }
}

/// Parses `hash` with `PasswordHash::new` and, when it parses, calls
/// `PasswordVerifier::verify_password` of `Argon2::default()` on it.  The
/// outcomes are named `phc_parses` and `argon2_accepts`.
#[verifier::external_body]
fn argon2_verify(password: &[u8], hash: &str) -> (r: Option<bool>)
    ensures
        r is Some <==> phc_parses(hash@),
        r matches Some(b) ==> b == argon2_accepts(password@, hash@),
{
    match PasswordHash::new(hash) {
        Ok(parsed) => Some(Argon2::default().verify_password(password, &parsed).is_ok()),
        Err(_) => None,
    }
}

/// `rand::rngs::ThreadRng`: the random source of token generation.
#[verifier::external_type_specification]
#[verifier::external_body]
pub struct ExThreadRng(rand::rngs::ThreadRng);

/// Some character of `text` is an ASCII character whose byte satisfies `p`.
pub open spec fn has_some_char(text: Seq<char>, p: spec_fn(u8) -> bool) -> bool {
    exists|i: int| 0 <= i < text.len() && (text[i] as u32) < 128 && p(#[trigger] text[i] as u32 as u8)
}

/// The requirement on kinds of characters, read on the characters of a
/// text: an ASCII upper-case letter, lower-case letter, digit and special
/// character.
pub open spec fn text_is_complex(text: Seq<char>) -> bool {
    &&& has_some_char(text, |b: u8| is_upper(b))
    &&& has_some_char(text, |b: u8| is_lower(b))
    &&& has_some_char(text, |b: u8| is_digit(b))
    &&& has_some_char(text, |b: u8| is_special(b))
}

/// Judging the bytes of a token's text is judging its characters: each kind
/// is an ASCII character, and the bytes of other characters are all 128 or
/// more.
pub proof fn bytes_judge_as_characters(text: Seq<char>)
    ensures
        is_complex(encode_utf8(text)) == text_is_complex(text),
{
    lemma_bytes_and_chars(text, |b: u8| is_upper(b));
    lemma_bytes_and_chars(text, |b: u8| is_lower(b));
    lemma_bytes_and_chars(text, |b: u8| is_digit(b));
    lemma_bytes_and_chars(text, |b: u8| is_special(b));
}

/// A byte predicate that holds of no byte of 128 or more is found in the
/// UTF-8 bytes of a text exactly when it holds of an ASCII character of it.
proof fn lemma_bytes_and_chars(text: Seq<char>, p: spec_fn(u8) -> bool)
    requires
        forall|b: u8| 128 <= b ==> !#[trigger] p(b),
    ensures
        has_some(encode_utf8(text), p) == has_some_char(text, p),
    decreases text.len(),
{
    if text.len() == 0 {
    } else {
        let rest = text.drop_first();
        let c = text[0] as u32;
        lemma_bytes_and_chars(rest, p);
        lemma_scalar_bytes(c, p);
        lemma_has_some_concat(encode_scalar(c), encode_utf8(rest), p);
        if has_some_char(text, p) {
            let i = choose|i: int|
                0 <= i < text.len() && (text[i] as u32) < 128 && p(#[trigger] text[i] as u32 as u8);
            if i > 0 {
                assert(rest[i - 1] == text[i]);
            }
        }
        if has_some_char(rest, p) {
            let i = choose|i: int|
                0 <= i < rest.len() && (rest[i] as u32) < 128 && p(#[trigger] rest[i] as u32 as u8);
            assert(text[i + 1] == rest[i]);
        }
    }
}

/// The bytes of one scalar satisfy `p` exactly when it is ASCII and its one
/// byte does.
proof fn lemma_scalar_bytes(c: u32, p: spec_fn(u8) -> bool)
    requires
        forall|b: u8| 128 <= b ==> !#[trigger] p(b),
    ensures
        has_some(encode_scalar(c), p) == (c < 128 && p(c as u8)),
{
    let e = encode_scalar(c);
    assert(forall|x: u8| #![trigger (0x80u8 | x)] 128 <= (0x80u8 | x)) by (bit_vector);
    assert(forall|x: u8| #![trigger (0xC0u8 | x)] 128 <= (0xC0u8 | x)) by (bit_vector);
    assert(forall|x: u8| #![trigger (0xE0u8 | x)] 128 <= (0xE0u8 | x)) by (bit_vector);
    assert(forall|x: u8| #![trigger (0xF0u8 | x)] 128 <= (0xF0u8 | x)) by (bit_vector);
    if has_width_1_encoding(c) {
        assert((c & 0x7F) as u8 == c as u8) by (bit_vector)
            requires
                c <= 0x7F,
        ;
        if p(c as u8) {
            assert(e[0] == c as u8);
        }
    } else {
        assert(forall|i: int| 0 <= i < e.len() ==> 128 <= #[trigger] e[i]);
    }
}

/// A predicate holds somewhere in two joined byte sequences exactly when it
/// holds somewhere in one of them.
proof fn lemma_has_some_concat(a: Seq<u8>, b: Seq<u8>, p: spec_fn(u8) -> bool)
    ensures
        has_some(a + b, p) == (has_some(a, p) || has_some(b, p)),
{
    let ab = a + b;
    if has_some(a, p) {
        let i = choose|i: int| 0 <= i < a.len() && p(#[trigger] a[i]);
        assert(ab[i] == a[i]);
    }
    if has_some(b, p) {
        let i = choose|i: int| 0 <= i < b.len() && p(#[trigger] b[i]);
        assert(ab[a.len() + i] == b[i]);
    }
    if has_some(ab, p) {
        let i = choose|i: int| 0 <= i < ab.len() && p(#[trigger] ab[i]);
        if i < a.len() {
            assert(a[i] == ab[i]);
        } else {
            assert(b[i - a.len()] == ab[i]);
        }
    }
}

/// Extending a prefix by one byte finds `p` in it exactly when the prefix
/// already had it or the new byte has it.
proof fn lemma_has_some_take_step(s: Seq<u8>, i: int, p: spec_fn(u8) -> bool)
    requires
        0 <= i < s.len(),
    ensures
        has_some(s.take(i + 1), p) == (has_some(s.take(i), p) || p(s[i])),
{
    let t = s.take(i + 1);
    if has_some(s.take(i), p) {
        let k = choose|k: int| 0 <= k < s.take(i).len() && p(#[trigger] s.take(i)[k]);
        assert(t[k] == s.take(i)[k]);
    }
    if p(s[i]) {
        assert(t[i] == s[i]);
    }
    if has_some(t, p) {
        let k = choose|k: int| 0 <= k < t.len() && p(#[trigger] t[k]);
        if k < i {
            assert(s.take(i)[k] == t[k]);
        }
    }
}

} // verus!
