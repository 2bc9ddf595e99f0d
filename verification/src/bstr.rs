//! Byte strings as PHP writes them: raw bytes that are text only by
//! convention, and the mangling by which a property name carries its
//! visibility.

use crate::bytes::{lemma_run_is, run, NUL, STAR};
use crate::errors::{Error, ErrorKind};
use vstd::prelude::*;
use vstd::slice::slice_subrange;
use vstd::string::StringSliceAdditionalSpecFns;
use vstd::utf8::{decode_utf8, encode_utf8_decode_utf8, valid_utf8};

verus! {

broadcast use Error::lemma_of_view;

/// The visibility of a property of a PHP object.
#[derive(Debug, PartialEq, Clone, Copy, Eq, Hash, Structural)]
pub enum PhpVisibility {
    Public,
    Protected,
    Private,
}

/// `n` is the length of the longest prefix of `bytes` that is valid UTF-8.
pub open spec fn longest_valid_prefix(bytes: Seq<u8>, n: nat) -> bool {
    &&& n <= bytes.len()
    &&& valid_utf8(bytes.take(n as int))
    &&& forall|m: int| n < m <= bytes.len() ==> !valid_utf8(#[trigger] bytes.take(m))
}

/// `kind` reports that `bytes` are not valid UTF-8, and names the length of
/// their longest valid prefix.
pub open spec fn invalid_at(kind: ErrorKind, bytes: Seq<u8>) -> bool {
    kind matches ErrorKind::Utf8 { position } && longest_valid_prefix(bytes, position as nat)
}

/// The name and the visibility that a property name, as serialized, stands
/// for. `\0*\0name` is protected; `\0class\0name` is private, the class
/// ending at the first NUL after the leading one; every other shape is a
/// public name, taken whole. A leading NUL with no second one is such
/// another shape.
pub open spec fn demangle(s: Seq<u8>) -> (Seq<u8>, PhpVisibility) {
    if s.len() >= 3 && s[0] == NUL && s[1] == STAR && s[2] == NUL {
        (s.skip(3), PhpVisibility::Protected)
    } else if s.len() >= 1 && s[0] == NUL {
        let class = run(s.skip(1), |b: u8| b != NUL);
        if 1 + class < s.len() {
            (s.skip(class as int + 2), PhpVisibility::Private)
        } else {
            (s, PhpVisibility::Public)
        }
    } else {
        (s, PhpVisibility::Public)
    }
}

/// Calls `std::str::from_utf8`, and `Utf8Error::valid_up_to` on its error.
/// The first accepts exactly the valid UTF-8 sequences and returns the same
/// bytes as text; the second is the greatest length such that the bytes up
/// to it are valid.
#[verifier::external_body]
fn utf8_text<'a>(bytes: &'a [u8]) -> (r: Result<&'a str, usize>)
    ensures
        match r {
            Ok(text) => valid_utf8(bytes@) && text.spec_bytes() == bytes@,
            Err(n) => !valid_utf8(bytes@) && longest_valid_prefix(bytes@, n as nat),
        },
{
    match std::str::from_utf8(bytes) {
        Ok(text) => Ok(text),
        Err(e) => Err(e.valid_up_to()),
    }
}

/// Decodes `bytes` as UTF-8 text, or says up to where they are valid.
pub fn decode_text<'a>(bytes: &'a [u8]) -> (r: Result<&'a str, Error>)
    ensures
        match r {
            Ok(text) => valid_utf8(bytes@) && text@ == decode_utf8(bytes@),
            Err(e) => !valid_utf8(bytes@) && invalid_at(e@, bytes@),
        },
{
    match utf8_text(bytes) {
        Ok(text) => {
            proof {
                encode_utf8_decode_utf8(text@);
            }
            Ok(text)
        },
        Err(position) => Err(Error::from(ErrorKind::Utf8 { position })),
    }
}

/// A byte string that is conventionally UTF-8.
///
/// PHP strings are binary safe, and a mangled property name holds NUL bytes,
/// so the bytes are kept as they are and decoded on request only.
#[derive(Debug, PartialEq, Clone, Copy, Eq, Hash)]
pub struct PhpBstr<'a> {
    data: &'a [u8],
}

impl<'a> View for PhpBstr<'a> {
    type V = Seq<u8>;

    closed spec fn view(&self) -> Seq<u8> {
        self.data@
    }
}

impl<'a> PhpBstr<'a> {
    /// A view of `data`.
    pub fn new(data: &'a [u8]) -> (bstr: Self)
        ensures
            bstr@ == data@,
    {
        Self { data }
    }

    /// The bytes.
    pub fn as_bytes(&self) -> (bytes: &'a [u8])
        ensures
            bytes@ == self@,
    {
        self.data
    }

    /// The bytes as text, if they are valid UTF-8.
    pub fn to_str(&self) -> (r: Result<&'a str, Error>)
        ensures
            match r {
                Ok(text) => valid_utf8(self@) && text@ == decode_utf8(self@),
                Err(e) => !valid_utf8(self@) && invalid_at(e@, self@),
            },
    {
        decode_text(self.data)
    }

    /// The bytes that stand for the name, and the visibility, of the property
    /// whose serialized name this is.
    pub fn property_name(&self) -> (r: (&'a [u8], PhpVisibility))
        ensures
            (r.0@, r.1) == demangle(self@),
    {
        let data = self.data;
        let len = data.len();
        if len >= 3 && data[0] == NUL && data[1] == STAR && data[2] == NUL {
            return (slice_subrange(data, 3, len), PhpVisibility::Protected);
        }
        if len >= 1 && data[0] == NUL {
            let ghost keep = |b: u8| b != NUL;
            let mut i: usize = 1;
            while i < len && data[i] != NUL
                invariant
                    1 <= i <= len,
                    len == data@.len(),
                    keep == (|b: u8| b != NUL),
                    forall|j: int| 0 <= j < i - 1 ==> keep(#[trigger] data@.skip(1)[j]),
                decreases len - i,
            {
                i += 1;
            }
            proof {
                lemma_run_is(data@.skip(1), keep, (i - 1) as nat);
            }
            if i < len {
                return (slice_subrange(data, i + 1, len), PhpVisibility::Private);
            }
        }
        (data, PhpVisibility::Public)
    }

    /// The clean name as text, and the visibility, of the property whose
    /// serialized name this is. Only the name has to be valid UTF-8.
    pub fn to_property(&self) -> (r: Result<(&'a str, PhpVisibility), Error>)
        ensures
            match r {
                Ok((name, visibility)) => valid_utf8(demangle(self@).0) && name@ == decode_utf8(
                    demangle(self@).0,
                ) && visibility == demangle(self@).1,
                Err(e) => !valid_utf8(demangle(self@).0) && invalid_at(e@, demangle(self@).0),
            },
    {
        let (name, visibility) = self.property_name();
        match decode_text(name) {
            Ok(text) => Ok((text, visibility)),
            Err(e) => Err(e),
        }
    }
}

} // verus!
