//! Authentication material that is wiped from memory when it is no longer needed.

use vstd::prelude::*;
use vstd::utf8;
use vstd::std_specs::convert::FromSpecImpl;
use zeroize::Zeroize;

verus! {

/// Number of bytes reserved for a secret buffer
pub const SECRET_CAPACITY: usize = 512;

/// The most characters the input layer accepts.
pub const SECRET_MAX_CHARS: usize = 128;

/// Plaintext authentication material
#[derive(PartialEq, Eq)]
pub struct Secret(String);

impl View for Secret {
    type V = Seq<char>;

    closed spec fn view(&self) -> Seq<char> {
        self.0@
    }
}

#[verifier::external_type_specification]
#[verifier::external_body]
pub struct ExFormatter<'a>(core::fmt::Formatter<'a>);

#[verifier::external_type_specification]
#[verifier::external_body]
pub struct ExFormatError(core::fmt::Error);

/// `String::with_capacity`: an empty string. What it has allocated is left unsaid. The call
/// panics where the bytes asked for exceed `isize::MAX`.
pub assume_specification[ String::with_capacity ](capacity: usize) -> (string: String)
    requires
        capacity <= isize::MAX,
    ensures
        string@ == Seq::<char>::empty(),
;

/// `String::reserve`: the text stays as it was. What is allocated is left unsaid. The call
/// panics where the bytes needed exceed `isize::MAX`.
pub assume_specification[ String::reserve ](string: &mut String, additional: usize)
    requires
        utf8::encode_utf8(old(string)@).len() + additional <= isize::MAX,
    ensures
        final(string)@ == old(string)@,
;

/// `String::pop`: takes the last character off, and returns it if there was one.
pub assume_specification[ String::pop ](string: &mut String) -> (character: Option<char>)
    ensures
        match character {
            Some(last) => old(string)@.len() > 0 && last == old(string)@.last() && final(string)@
                == old(string)@.drop_last(),
            None => old(string)@.len() == 0 && final(string)@ == old(string)@,
        },
;

/// `String::capacity`: the number of bytes the string can hold, never below what it holds.
pub assume_specification[ String::capacity ](string: &String) -> (capacity: usize)
    ensures
        capacity >= utf8::encode_utf8(string@).len(),
;

/// `Zeroize::zeroize` for `String`: overwrites the buffer and leaves the string empty.
#[verifier::external_body]
pub(crate) fn wipe_text(text: &mut String)
    ensures
        final(text)@ == Seq::<char>::empty(),
    opens_invariants none
    no_unwind
{
    text.zeroize();
}

/// Whether `Formatter::write_str` was handed this text and came out this way.
pub uninterp spec fn text_written(text: Seq<char>, succeeded: bool) -> bool;

/// What has been written to a formatter.
pub uninterp spec fn formatter_text(formatter: core::fmt::Formatter<'_>) -> Seq<char>;

/// `Formatter::write_str`: adds the text to what was written to the formatter. Whether that
/// succeeds depends on what the formatter writes to, and so does what a failed call has written.
#[verifier::external_body]
fn write_text(formatter: &mut core::fmt::Formatter<'_>, text: &str) -> (result: core::fmt::Result)
    ensures
        text_written(text@, result is Ok),
        result is Ok ==> formatter_text(*final(formatter)) == formatter_text(*old(formatter))
            + text@,
{
    formatter.write_str(text)
}

impl Secret {
    pub fn new() -> (secret: Self)
        ensures
            secret@ == Seq::<char>::empty(),
    {
        Self(String::with_capacity(SECRET_CAPACITY))
    }

    /// Returns the plaintext. Each call site is somewhere the secret can escape, so keep them few
    pub fn expose(&self) -> (text: &str)
        ensures
            text@ == self@,
    {
        self.0.as_str()
    }

    pub fn is_empty(&self) -> (empty: bool)
        ensures
            empty == (self@.len() == 0),
    {
        self.0.as_str().is_empty()
    }

    pub fn char_count(&self) -> (count: usize)
        ensures
            count == self@.len(),
    {
        self.0.as_str().unicode_len()
    }

    pub fn push(&mut self, character: char)
        ensures
            final(self)@ == old(self)@.push(character),
    {
        self.0.push(character);
    }

    pub fn pop(&mut self)
        ensures
            final(self)@ == if old(self)@.len() > 0 {
                old(self)@.drop_last()
            } else {
                old(self)@
            },
    {
        self.0.pop();
    }

    pub fn clear(&mut self)
        ensures
            final(self)@ == Seq::<char>::empty(),
    {
        wipe_text(&mut self.0);
        self.0.reserve(SECRET_CAPACITY);
    }

    /// Bytes the buffer can hold without moving; what is allocated is up to the allocator.
    pub fn capacity(&self) -> (capacity: usize)
        ensures
            capacity >= utf8::encode_utf8(self@).len(),
    {
        self.0.capacity()
    }
}

impl Clone for Secret {
    fn clone(&self) -> (secret: Self)
        ensures
            secret@ == self@,
    {
        Self(self.0.clone())
    }
}

impl Default for Secret {
    fn default() -> (secret: Self)
        ensures
            secret@ == Seq::<char>::empty(),
    {
        Self::new()
    }
}

impl From<String> for Secret {
    fn from(value: String) -> (secret: Self)
        ensures
            secret@ == value@,
    {
        let mut value = value;
        let mut secret = Self::new();
        secret.0.append(value.as_str());
        wipe_text(&mut value);
        secret
    }
}

impl FromSpecImpl<String> for Secret {
    open spec fn obeys_from_spec() -> bool {
        false
    }

    open spec fn from_spec(value: String) -> Self {
        arbitrary()
    }
}

impl core::fmt::Debug for Secret {
    /// Writes the same text for every secret, and nothing else.
    fn fmt(&self, formatter: &mut core::fmt::Formatter<'_>) -> (result: core::fmt::Result)
        ensures
            text_written("Secret(<redacted>)"@, result is Ok),
            result is Ok ==> formatter_text(*final(formatter)) == formatter_text(*old(formatter))
                + "Secret(<redacted>)"@,
    {
        write_text(formatter, "Secret(<redacted>)")
    }
}

impl Drop for Secret {
    fn drop(&mut self)
        ensures
            final(self)@ == Seq::<char>::empty(),
        opens_invariants none
        no_unwind
    {
        wipe_text(&mut self.0);
    }
}

/// A text of at most `SECRET_MAX_CHARS` characters fits the reserved bytes, whichever
/// characters it holds.
pub proof fn law_typed_secret_fits_the_reserved_bytes(text: Seq<char>)
    requires
        text.len() <= SECRET_MAX_CHARS,
    ensures
        utf8::encode_utf8(text).len() <= SECRET_CAPACITY,
{
    lemma_encoded_len(text);
}

proof fn lemma_encoded_len(text: Seq<char>)
    ensures
        utf8::encode_utf8(text).len() <= 4 * text.len(),
    decreases text.len(),
{
    reveal_with_fuel(utf8::encode_utf8, 2);
    if text.len() > 0 {
        lemma_encoded_len(text.drop_first());
    }
}

} // verus!
