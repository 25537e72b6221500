//! A string of at most `MAX` bytes, with a lower bound `MIN` that is checked
//! when the string is parsed from outside input.
use vstd::prelude::*;
use vstd::utf8::*;
use vstd::string::*;

verus! {

broadcast use vstd::utf8::group_utf8_lib;

/// Why a `SmallString` could not take the bytes it was given.
#[derive(Debug)]
pub enum Error {
    /// The bytes would exceed the capacity `MAX`.
    NotEnoughCapacity,
    /// The input holds fewer than `MIN` bytes.
    LacksMinimumLength,
    /// The input bytes are not UTF-8.
    InvalidUtf8,
    /// The input holds a character outside ASCII.
    NotAscii,
}

/// Every byte is below 128: the bytes are ASCII text.
pub open spec fn is_ascii_bytes(s: Seq<u8>) -> bool {
    forall|i: int| 0 <= i < s.len() ==> #[trigger] s[i] < 128
}

/// A byte string of capacity `MAX`.
#[derive(Debug, Hash)]
pub struct SmallString<const MIN: usize, const MAX: usize> {
    buf: Vec<u8>,
}

impl<const MIN: usize, const MAX: usize> View for SmallString<MIN, MAX> {
    type V = Seq<u8>;

    closed spec fn view(&self) -> Seq<u8> {
        self.buf@
    }
}

impl<const MIN: usize, const MAX: usize> SmallString<MIN, MAX> {
    /// Every string holds at most `MAX` bytes.
    #[verifier::type_invariant]
    spec fn fits(self) -> bool {
        self.buf@.len() <= MAX
    }

    /// The string holds at most `MAX` bytes.  This holds of every string:
    /// `length` and `as_slice` state it.
    pub open spec fn wf(&self) -> bool {
        self@.len() <= MAX
    }

    /// An empty string.
    pub fn new() -> (s: Self)
        ensures
            s@ == Seq::<u8>::empty(),
            s.wf(),
    {
        SmallString { buf: Vec::new() }
    }

    /// Number of bytes held, never more than the capacity.
    pub fn length(&self) -> (n: usize)
        ensures
            n == self@.len(),
            n <= MAX,
            self.wf(),
    {
        proof {
            use_type_invariant(self);
        }
        self.buf.len()
    }

    /// The capacity `MAX`.
    pub fn capacity(&self) -> (n: usize)
        ensures
            n == MAX,
    {
        MAX
    }

    /// Whether the string holds `MAX` bytes.
    pub fn is_full(&self) -> (b: bool)
        ensures
            b == (self@.len() == MAX),
    {
        self.buf.len() == MAX
    }

    /// Appends one byte; the string must not be full.
    pub fn push_unchecked(&mut self, byte: u8)
        requires
            old(self)@.len() < MAX,
        ensures
            final(self)@ == old(self)@.push(byte),
    {
        let mut buf = copy_bytes(self.buf.as_slice());
        buf.push(byte);
        self.buf = buf;
    }

    /// Appends `bytes` when they fit; otherwise fails with `NotEnoughCapacity`
    /// and leaves the string as it was.
    pub fn extend(&mut self, bytes: &[u8]) -> (r: Result<(), Error>)
        ensures
            r is Ok <==> old(self)@.len() + bytes@.len() <= MAX,
            r is Ok ==> final(self)@ == old(self)@ + bytes@,
            r is Err ==> (r matches Err(Error::NotEnoughCapacity) && final(self)@ == old(self)@),
            old(self).wf() ==> final(self).wf(),
    {
        if bytes.len() > MAX || self.buf.len() > MAX - bytes.len() {
            return Err(Error::NotEnoughCapacity);
        }
        let mut buf = copy_bytes(self.buf.as_slice());
        let mut i: usize = 0;
        while i < bytes.len()
            invariant
                i <= bytes@.len(),
                buf@ == old(self)@ + bytes@.subrange(0, i as int),
            decreases bytes@.len() - i,
        {
            buf.push(bytes[i]);
            i += 1;
            assert(buf@ =~= old(self)@ + bytes@.subrange(0, i as int));
        }
        assert(bytes@.subrange(0, bytes@.len() as int) =~= bytes@);
        self.buf = buf;
        Ok(())
    }

    /// Appends the UTF-8 bytes of `value` when they fit.
    pub fn push_str(&mut self, value: &str) -> (r: Result<(), Error>)
        ensures
            r is Ok <==> old(self)@.len() + value.spec_bytes().len() <= MAX,
            r is Ok ==> final(self)@ == old(self)@ + value.spec_bytes(),
            r is Err ==> (r matches Err(Error::NotEnoughCapacity) && final(self)@ == old(self)@),
            old(self).wf() ==> final(self).wf(),
    {
        self.extend(value.as_bytes())
    }

    /// The bytes held.
    pub fn as_slice(&self) -> (s: &[u8])
        ensures
            s@ == self@,
            s@.len() <= MAX,
    {
        proof {
            use_type_invariant(self);
        }
        self.buf.as_slice()
    }

    /// The text held; the bytes must be UTF-8.
    pub fn as_str(&self) -> (s: &str)
        requires
            valid_utf8(self@),
        ensures
            s.spec_bytes() == self@,
            s@ == decode_utf8(self@),
    {
        match str_from_utf8(self.buf.as_slice()) {
            Some(s) => s,
            None => {
                proof {
                    assert(false);
                }
                ""
            },
        }
    }

    /// The text held, or `None` when the bytes are not UTF-8.
    pub fn try_as_str(&self) -> (s: Option<&str>)
        ensures
            s is Some <==> valid_utf8(self@),
            s matches Some(t) ==> t.spec_bytes() == self@,
    {
        if str_from_utf8(self.buf.as_slice()).is_some() {
            Some(self.as_str())
        } else {
            None
        }
    }

    /// The text held as an owned `String`.  UTF-8 bytes give exactly their
    /// text; other bytes are replaced as `String::from_utf8_lossy` does.
    pub fn to_string(&self) -> (s: String)
        ensures
            s@ == lossy_utf8(self@),
            valid_utf8(self@) ==> s@ == decode_utf8(self@),
    {
        string_from_utf8_lossy(self.buf.as_slice())
    }

    /// A description for debugging, such as
    /// `SmallString<{MIN, MAX}> { buf: "hello", len: 5 }`: the text as
    /// `Debug` writes a `str`, quoted and escaped, and the length.  Bytes
    /// that are not UTF-8 are first replaced as `String::from_utf8_lossy`
    /// does.
    pub fn debug_string(&self) -> (s: String)
        ensures
            s@ == debug_text(self@),
            valid_utf8(self@) ==> s@ == debug_text_of(decode_utf8(self@), self@.len()),
    {
        let mut text = "SmallString<{MIN, MAX}> { buf: ".to_owned();
        let shown = string_from_utf8_lossy(self.buf.as_slice());
        text.append(debug_str(shown.as_str()).as_str());
        text.append(", len: ");
        let digits = decimal(self.buf.len());
        text.append(string_from_utf8_lossy(digits.as_slice()).as_str());
        text.append(" }");
        text
    }

    /// Parses text into a string of `MIN` to `MAX` bytes of ASCII.  The
    /// length is checked first, then that the text is ASCII, then the
    /// capacity.
    pub fn parse_str(value: &str) -> (r: Result<Self, Error>)
        ensures
            value.spec_bytes().len() < MIN ==> r matches Err(Error::LacksMinimumLength),
            MIN <= value.spec_bytes().len() && !is_ascii_bytes(value.spec_bytes()) ==> r matches Err(
                Error::NotAscii,
            ),
            MIN <= value.spec_bytes().len() <= MAX && is_ascii_bytes(value.spec_bytes()) ==> (r matches Ok(s)
                && s@ == value.spec_bytes() && s.wf()),
            MIN <= value.spec_bytes().len() && MAX < value.spec_bytes().len() && is_ascii_bytes(
                value.spec_bytes(),
            ) ==> r matches Err(Error::NotEnoughCapacity),
    {
        let bytes = value.as_bytes();
        if bytes.len() < MIN {
            return Err(Error::LacksMinimumLength);
        }
        if !all_ascii(bytes) {
            return Err(Error::NotAscii);
        }
        let mut s = Self::new();
        match s.extend(bytes) {
            Ok(()) => Ok(s),
            Err(e) => Err(e),
        }
    }

    /// Parses bytes into a string of `MIN` to `MAX` bytes of ASCII text.
    /// The length is checked first, then the encoding, then that the text is
    /// ASCII, then the capacity.
    pub fn parse_bytes(value: &[u8]) -> (r: Result<Self, Error>)
        ensures
            value@.len() < MIN ==> r matches Err(Error::LacksMinimumLength),
            MIN <= value@.len() && !valid_utf8(value@) ==> r matches Err(Error::InvalidUtf8),
            MIN <= value@.len() && valid_utf8(value@) && !is_ascii_bytes(value@) ==> r matches Err(
                Error::NotAscii,
            ),
            MIN <= value@.len() <= MAX && is_ascii_bytes(value@) ==> (r matches Ok(s) && s@ == value@
                && s.wf()),
            MIN <= value@.len() && MAX < value@.len() && is_ascii_bytes(value@) ==> r matches Err(
                Error::NotEnoughCapacity,
            ),
    {
        if value.len() < MIN {
            return Err(Error::LacksMinimumLength);
        }
        if str_from_utf8(value).is_none() {
            proof {
                if is_ascii_bytes(value@) {
                    lemma_ascii_is_utf8(value@);
                }
            }
            return Err(Error::InvalidUtf8);
        }
        if !all_ascii(value) {
            return Err(Error::NotAscii);
        }
        let mut s = Self::new();
        match s.extend(value) {
            Ok(()) => Ok(s),
            Err(e) => Err(e),
        }
    }
}

/// ASCII bytes are UTF-8: they encode the characters of the same codes.
proof fn lemma_ascii_is_utf8(s: Seq<u8>)
    requires
        is_ascii_bytes(s),
    ensures
        valid_utf8(s),
{
    let text = Seq::new(s.len(), |i: int| s[i] as char);
    assert(is_ascii_chars(text));
    is_ascii_chars_encode_utf8(text);
    assert(encode_utf8(text) =~= s);
    encode_utf8_valid_utf8(text);
}

/// Whether every byte is below 128.
fn all_ascii(bytes: &[u8]) -> (r: bool)
    ensures
        r == is_ascii_bytes(bytes@),
{
    let mut i: usize = 0;
    while i < bytes.len()
        invariant
            i <= bytes@.len(),
            forall|j: int| 0 <= j < i ==> #[trigger] bytes@[j] < 128,
        decreases bytes@.len() - i,
    {
        if bytes[i] >= 128 {
            return false;
        }
        i += 1;
    }
    true
}

/// The decimal digits of `n`, most significant first.
pub open spec fn decimal_digits(n: nat) -> Seq<u8>
    decreases n,
{
    if n < 10 {
        seq![(48 + n) as u8]
    } else {
        decimal_digits(n / 10).push((48 + n % 10) as u8)
    }
}

/// The debugging text of a string that shows `text` and holds `len` bytes.
pub open spec fn debug_text_of(text: Seq<char>, len: nat) -> Seq<char> {
    "SmallString<{MIN, MAX}> { buf: "@ + str_debug(text) + ", len: "@ + lossy_utf8(
        decimal_digits(len),
    ) + " }"@
}

/// The text that `debug_string` gives for a string of these bytes.
pub open spec fn debug_text(s: Seq<u8>) -> Seq<char> {
    debug_text_of(lossy_utf8(s), s.len())
}

/// The decimal digits of `n`.
fn decimal(n: usize) -> (v: Vec<u8>)
    ensures
        v@ == decimal_digits(n as nat),
    decreases n,
{
    if n < 10 {
        let mut v = Vec::new();
        v.push((48 + n) as u8);
        v
    } else {
        let mut v = decimal(n / 10);
        v.push((48 + n % 10) as u8);
        v
    }
}

/// Text parsed into a string reads back unchanged: the bytes of any text are
/// UTF-8, and they decode to that text.
pub proof fn parsed_text_reads_back(text: Seq<char>)
    ensures
        valid_utf8(encode_utf8(text)),
        decode_utf8(encode_utf8(text)) == text,
{
}

/// The byte sequences of `steps` joined in order.
pub open spec fn joined(steps: Seq<Seq<u8>>) -> Seq<u8>
    decreases steps.len(),
{
    if steps.len() == 0 {
        Seq::empty()
    } else {
        joined(steps.drop_last()) + steps.last()
    }
}

/// A string holds what its appends added, in the order of the calls: when
/// each state is the one before with a step's bytes appended, as `extend`,
/// `push_str` and `push_unchecked` state of a call that succeeds (a call
/// that fails appends nothing), the last state is the first followed by
/// all the steps joined.  From `new`, the first state is empty.
pub proof fn appends_accumulate(states: Seq<Seq<u8>>, steps: Seq<Seq<u8>>)
    requires
        states.len() == steps.len() + 1,
        forall|i: int| 0 <= i < steps.len() ==> #[trigger] states[i + 1] == states[i] + steps[i],
    ensures
        states.last() == states[0] + joined(steps),
    decreases steps.len(),
{
    if steps.len() > 0 {
        let n = steps.len() - 1;
        let earlier = states.drop_last();
        assert forall|i: int| 0 <= i < steps.drop_last().len() implies #[trigger] earlier[i + 1]
            == earlier[i] + steps.drop_last()[i] by {
            assert(states[i + 1] == states[i] + steps[i]);
        }
        appends_accumulate(earlier, steps.drop_last());
        assert(states[n + 1] == states[n] + steps[n]);
        assert(states.last() =~= states[0] + joined(steps));
    } else {
        assert(states.last() =~= states[0] + joined(steps));
    }
}

/// Whether two byte sequences are equal, byte by byte.
pub(crate) fn bytes_equal(a: &[u8], b: &[u8]) -> (r: bool)
    ensures
        r == (a@ == b@),
{
    if a.len() != b.len() {
        return false;
    }
    let mut i: usize = 0;
    while i < a.len()
        invariant
            a@.len() == b@.len(),
            i <= a@.len(),
            forall|j: int| 0 <= j < i ==> a@[j] == b@[j],
        decreases a@.len() - i,
    {
        if a[i] != b[i] {
            return false;
        }
        i += 1;
    }
    assert(a@ =~= b@);
    true
}

/// A fresh vector holding the same bytes.
pub(crate) fn copy_bytes(a: &[u8]) -> (v: Vec<u8>)
    ensures
        v@ == a@,
{
    let mut v: Vec<u8> = Vec::new();
    let mut i: usize = 0;
    while i < a.len()
        invariant
            i <= a@.len(),
            v@ == a@.take(i as int),
        decreases a@.len() - i,
    {
        v.push(a[i]);
        i += 1;
        assert(v@ =~= a@.take(i as int));
    }
    assert(a@.take(a@.len() as int) =~= a@);
    v
}

impl<const MIN: usize, const MAX: usize> PartialEq for SmallString<MIN, MAX> {
    fn eq(&self, other: &Self) -> (r: bool) {
        bytes_equal(self.buf.as_slice(), other.buf.as_slice())
    }
}

impl<const MIN: usize, const MAX: usize> vstd::std_specs::cmp::PartialEqSpecImpl for SmallString<MIN, MAX> {
    open spec fn obeys_eq_spec() -> bool {
        true
    }

    open spec fn eq_spec(&self, other: &Self) -> bool {
        self@ == other@
    }
}

impl<const MIN: usize, const MAX: usize> Eq for SmallString<MIN, MAX> {

}

impl<const MIN: usize, const MAX: usize> Clone for SmallString<MIN, MAX> {
    fn clone(&self) -> (r: Self)
        ensures
            r@ == self@,
    {
        proof {
            use_type_invariant(self);
        }
        SmallString { buf: self.buf.clone() }
    }
}

/// What `String::from_utf8_lossy` makes of a byte sequence.
pub uninterp spec fn lossy_utf8(bytes: Seq<u8>) -> Seq<char>;

/// What `<str as Debug>::fmt` writes for a text: the text in double
/// quotes, with quotes, backslashes, control characters and other
/// characters that do not print escaped.
pub uninterp spec fn str_debug(text: Seq<char>) -> Seq<char>;

/// Formats `text` with `{:?}`, which writes it as `<str as Debug>::fmt`
/// does; the result is named `str_debug`.
#[verifier::external_body]
fn debug_str(text: &str) -> (r: String)
    ensures
        r@ == str_debug(text@),
{
    format!("{:?}", text)
}

/// Calls `std::str::from_utf8`: it succeeds exactly on UTF-8 input, and the
/// text it returns is made of the same bytes.
#[verifier::external_body]
fn str_from_utf8(bytes: &[u8]) -> (r: Option<&str>)
    ensures
        r is Some <==> valid_utf8(bytes@),
        r matches Some(s) ==> s.spec_bytes() == bytes@,
{
    std::str::from_utf8(bytes).ok()
}

/// Calls `String::from_utf8_lossy`: its text is named `lossy_utf8`, and for
/// UTF-8 input it is the decoded text itself, as its documentation says.
#[verifier::external_body]
fn string_from_utf8_lossy(bytes: &[u8]) -> (r: String)
    ensures
        r@ == lossy_utf8(bytes@),
        valid_utf8(bytes@) ==> r@ == decode_utf8(bytes@),
{
    String::from_utf8_lossy(bytes).into_owned()
}

} // verus!
