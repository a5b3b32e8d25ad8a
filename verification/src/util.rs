//! Character-level string helpers shared by the text codecs, and the
//! conversions between text and its byte encoding.

use vstd::prelude::*;

use crate::convert::{Converter, RawConverter};
use crate::model::Model;
use crate::pipeline::{Pipeline, RawPipeline};

verus! {

broadcast use crate::model::vec_u8_model_is_view;

/// What decoding a byte sequence as text yields, if it is a valid
/// encoding.
pub uninterp spec fn utf8_decode(bytes: Seq<u8>) -> Option<Seq<char>>;

/// The byte encoding of a character sequence.
pub uninterp spec fn utf8_encode(s: Seq<char>) -> Seq<u8>;

/// Relies on `String::from_utf8`: decoding succeeds exactly on valid
/// encodings, and the result depends on the bytes alone.
#[verifier::external_body]
fn decode_utf8(bytes: Vec<u8>) -> (r: Option<String>)
    ensures
        match r {
            Some(s) => utf8_decode(bytes@) == Some(s@),
            None => utf8_decode(bytes@) is None,
        },
{
    String::from_utf8(bytes).ok()
}

/// Relies on `String::into_bytes`: the bytes are the encoding of the
/// string's characters, and decoding them returns those characters.
#[verifier::external_body]
fn encode_utf8(s: String) -> (r: Vec<u8>)
    ensures
        r@ == utf8_encode(s@),
        utf8_decode(r@) == Some(s@),
{
    s.into_bytes()
}

/// Relies on `String`'s `FromIterator<char>`: collecting characters builds
/// the string of exactly those characters in order.
#[verifier::external_body]
pub fn chars_to_string(v: &Vec<char>) -> (s: String)
    ensures
        s@ == v@,
{
    v.iter().collect()
}

/// The characters of a string slice, in order.
pub fn string_to_chars(s: &str) -> (v: Vec<char>)
    ensures
        v@ == s@,
{
    let n = s.unicode_len();
    let mut v: Vec<char> = Vec::new();
    let mut i: usize = 0;
    while i < n
        invariant
            i <= n,
            n == s@.len(),
            v@ == s@.take(i as int),
        decreases n - i,
    {
        let c = s.get_char(i);
        v.push(c);
        proof {
            assert(v@ =~= s@.take(i as int + 1));
        }
        i = i + 1;
    }
    proof {
        assert(s@.take(n as int) =~= s@);
    }
    v
}

/// Appends every character of a slice to a character buffer.
pub fn push_str_chars(out: &mut Vec<char>, s: &str)
    ensures
        final(out)@ == old(out)@ + s@,
{
    let n = s.unicode_len();
    let mut i: usize = 0;
    proof {
        assert(out@ =~= old(out)@ + s@.take(0));
    }
    while i < n
        invariant
            i <= n,
            n == s@.len(),
            out@ == old(out)@ + s@.take(i as int),
        decreases n - i,
    {
        let c = s.get_char(i);
        out.push(c);
        proof {
            assert(old(out)@ + s@.take(i as int) + seq![s@[i as int]] =~= old(out)@ + s@.take(
                i as int + 1,
            ));
        }
        i = i + 1;
    }
    proof {
        assert(s@.take(n as int) =~= s@);
    }
}

/// Encodes text into bytes; the reverse direction decodes bytes, and
/// rejects invalid encodings.
pub struct FromUtf8;

impl RawConverter<String, Vec<u8>> for FromUtf8 {
    open spec fn wf(&self) -> bool {
        true
    }

    open spec fn spec_to(&self, src: Seq<char>) -> Option<Seq<u8>> {
        Some(utf8_encode(src))
    }

    open spec fn spec_from(&self, old: Option<Seq<char>>, dist: Seq<u8>) -> Option<Seq<char>> {
        utf8_decode(dist)
    }

    fn to(&self, src: String) -> (r: Option<Vec<u8>>) {
        Some(encode_utf8(src))
    }

    fn from(&self, old: Option<String>, dist: Vec<u8>) -> (r: Option<String>) {
        decode_utf8(dist)
    }
}

/// A converter from text to its byte encoding.
pub fn from_utf8_converter() -> (c: Converter<String, Vec<u8>, FromUtf8>)
    ensures
        c.wf(),
{
    Converter::new(FromUtf8)
}

/// Decodes bytes into text, rejecting invalid encodings; the reverse
/// direction encodes text into bytes.
pub struct ToUtf8;

impl RawConverter<Vec<u8>, String> for ToUtf8 {
    open spec fn wf(&self) -> bool {
        true
    }

    open spec fn spec_to(&self, src: Seq<u8>) -> Option<Seq<char>> {
        utf8_decode(src)
    }

    open spec fn spec_from(&self, old: Option<Seq<u8>>, dist: Seq<char>) -> Option<Seq<u8>> {
        Some(utf8_encode(dist))
    }

    fn to(&self, src: Vec<u8>) -> (r: Option<String>) {
        decode_utf8(src)
    }

    fn from(&self, old: Option<Vec<u8>>, dist: String) -> (r: Option<Vec<u8>>) {
        Some(encode_utf8(dist))
    }
}

/// A converter from bytes to the text they encode.
pub fn to_utf8() -> (c: Converter<Vec<u8>, String, ToUtf8>)
    ensures
        c.wf(),
{
    Converter::new(ToUtf8)
}

/// Why a byte sequence could not be read as text.
#[derive(Clone, Copy, Debug, PartialEq, Eq, Structural)]
pub struct Utf8Error;

impl Model for Utf8Error {
    type M = Utf8Error;

    open spec fn model(&self) -> Utf8Error {
        *self
    }
}

/// A pipeline stage decoding bytes into text.
pub struct Utf8Pipeline;

impl RawPipeline<Vec<u8>, String, Utf8Error> for Utf8Pipeline {
    open spec fn req(&self, v: Vec<u8>) -> bool {
        true
    }

    open spec fn runs_to(&self, v: Vec<u8>, r: Result<String, Utf8Error>) -> bool {
        match r {
            Ok(s) => utf8_decode(v@) == Some(s@),
            Err(_) => utf8_decode(v@) is None,
        }
    }

    fn run(&self, value: Vec<u8>) -> (r: Result<String, Utf8Error>) {
        match decode_utf8(value) {
            Some(s) => Ok(s),
            None => Err(Utf8Error),
        }
    }
}

/// A pipeline that decodes bytes into text, failing on invalid encodings.
pub fn from_utf8() -> (p: Pipeline<Utf8Pipeline>)
    ensures
        p.raw == Utf8Pipeline,
{
    Pipeline::new(Utf8Pipeline)
}

} // verus!
