use base64::engine::general_purpose::{STANDARD, URL_SAFE};
use base64::{DecodeError, Engine};
use std::convert::Infallible;
use std::marker::PhantomData;
use std::ops::Deref;
use std::str::FromStr;
use vstd::prelude::*;
use vstd::string::StringExecFns;

verus! {

#[verifier::external_type_specification]
#[verifier::external_body]
pub struct ExDecodeError(DecodeError);

/// The text that the base64 crate's `URL_SAFE` engine (URL-safe alphabet,
/// with padding) encodes `bytes` as.
pub uninterp spec fn url_safe_base64(bytes: Seq<u8>) -> Seq<char>;

/// The bytes that the base64 crate's `URL_SAFE` engine decodes `text` to,
/// or `None` where it refuses the text.
pub uninterp spec fn url_safe_base64_decoded(text: Seq<char>) -> Option<Seq<u8>>;

/// A letter or digit of ASCII.
pub open spec fn is_ascii_alphanumeric(c: char) -> bool {
    ||| ('A' as u32) <= (c as u32) <= ('Z' as u32)
    ||| ('a' as u32) <= (c as u32) <= ('z' as u32)
    ||| ('0' as u32) <= (c as u32) <= ('9' as u32)
}

/// A symbol of URL-safe base64 text: a symbol of its alphabet, or the
/// padding `=`.
pub open spec fn is_url_safe_symbol(c: char) -> bool {
    is_ascii_alphanumeric(c) || c == '-' || c == '_' || c == '='
}

/// A symbol of standard base64 text: a symbol of its alphabet, or the
/// padding `=`.
pub open spec fn is_standard_symbol(c: char) -> bool {
    is_ascii_alphanumeric(c) || c == '+' || c == '/' || c == '='
}

/// The length of padded base64 text for `n` bytes: four symbols for each
/// started group of three bytes.
pub open spec fn padded_base64_len(n: nat) -> nat {
    ((n + 2) / 3) * 4
}

/// How many `=` end padded base64 text for `n` bytes: the symbols missing
/// from the last group of four.
pub open spec fn base64_padding(n: nat) -> int {
    if n % 3 == 0 {
        0
    } else {
        3 - n % 3
    }
}

/// `text` is padded base64 text for `n` bytes whose symbols satisfy
/// `symbol`: four symbols for each started group of three bytes, with `=`
/// exactly in its last `base64_padding(n)` places.
pub open spec fn padded_base64_shape(text: Seq<char>, n: nat, symbol: spec_fn(char) -> bool) -> bool {
    &&& text.len() == padded_base64_len(n)
    &&& forall|i: int| 0 <= i < text.len() ==> #[trigger] symbol(text[i])
    &&& forall|i: int| 0 <= i < text.len() ==> (#[trigger] text[i] == '=' <==> i >= text.len() - base64_padding(n))
}

/// Calls `URL_SAFE.encode`. Claimed: the result is the named encoding of
/// the bytes, `URL_SAFE.decode` gives the bytes back from it, and it is
/// padded text of URL-safe symbols, four for each started group of three
/// bytes, with `=` only as the padding at its end.
#[verifier::external_body]
fn url_safe_encode(bytes: &[u8]) -> (r: String)
    ensures
        r@ == url_safe_base64(bytes@),
        url_safe_base64_decoded(r@) == Some(bytes@),
        padded_base64_shape(r@, bytes@.len(), |c: char| is_url_safe_symbol(c)),
{
    URL_SAFE.encode(bytes)
}

/// Calls `URL_SAFE.decode`. Claimed: the result is the named decoding of
/// the text, and text with a symbol outside the URL-safe alphabet and `=` is
/// refused. Which error the engine reports is left unsaid.
#[verifier::external_body]
fn url_safe_decode(text: &str) -> (r: Result<Vec<u8>, DecodeError>)
    ensures
        r is Ok <==> url_safe_base64_decoded(text@) is Some,
        r matches Ok(v) ==> Some(v@) == url_safe_base64_decoded(text@),
        (exists|i: int| 0 <= i < text@.len() && !is_url_safe_symbol(#[trigger] text@[i])) ==> r is Err,
{
    URL_SAFE.decode(text)
}

/// Why stored text could not be turned back into bytes.
#[derive(Debug, Clone, Copy, PartialEq, Eq, Structural)]
pub enum EncodedError {
    /// The text is not URL-safe base64.
    InvalidBase64,
}

/// A record of type `T`, serialised to CBOR and kept as URL-safe base64
/// text.
#[derive(Debug, PartialEq, Eq)]
pub struct Encoded<T>(pub String, pub PhantomData<T>);

impl<T> Encoded<T> {
    /// Keeps the CBOR bytes of a record as URL-safe base64 text, which
    /// `try_as_decoded_bytes` turns back into exactly those bytes.
    pub fn try_as_encoded_bytes(bytes: &[u8]) -> (r: Self)
        ensures
            r.0@ == url_safe_base64(bytes@),
            url_safe_base64_decoded(r.0@) == Some(bytes@),
            padded_base64_shape(r.0@, bytes@.len(), |c: char| is_url_safe_symbol(c)),
    {
        Encoded(url_safe_encode(bytes), PhantomData)
    }

    /// The CBOR bytes that the text holds, or an error where the text is not
    /// URL-safe base64. Text made by `try_as_encoded_bytes` gives back the
    /// bytes it was made from.
    pub fn try_as_decoded_bytes(&self) -> (r: Result<Vec<u8>, EncodedError>)
        ensures
            r is Ok <==> url_safe_base64_decoded(self.0@) is Some,
            r matches Ok(v) ==> Some(v@) == url_safe_base64_decoded(self.0@),
            r matches Err(e) ==> e == EncodedError::InvalidBase64,
            (exists|i: int| 0 <= i < self.0@.len() && !is_url_safe_symbol(#[trigger] self.0@[i])) ==> r is Err,
    {
        match url_safe_decode(self.0.as_str()) {
            Ok(bytes) => Ok(bytes),
            Err(_) => Err(EncodedError::InvalidBase64),
        }
    }
}

impl<T> Clone for Encoded<T> {
    fn clone(&self) -> (r: Self)
        ensures
            r.0 == self.0,
    {
        Encoded(self.0.clone(), PhantomData)
    }
}

impl<T> Deref for Encoded<T> {
    type Target = String;

    fn deref(&self) -> (r: &String)
        ensures
            r == &self.0,
    {
        &self.0
    }
}

impl<T> FromStr for Encoded<T> {
    type Err = Infallible;

    fn from_str(s: &str) -> (r: Result<Self, Infallible>)
        ensures
            r matches Ok(e) && e.0@ == s@,
    {
        Ok(Encoded(s.to_owned(), PhantomData))
    }
}

/// The text that the base64 crate's `STANDARD` engine (standard alphabet,
/// with padding) encodes `bytes` as.
pub uninterp spec fn standard_base64(bytes: Seq<u8>) -> Seq<char>;

/// Calls `STANDARD.encode`. Claimed: the result is the named encoding of the
/// bytes, padded text of standard symbols, four for each started group of
/// three bytes, with `=` only as the padding at its end.
#[verifier::external_body]
fn standard_encode(bytes: &[u8]) -> (r: String)
    ensures
        r@ == standard_base64(bytes@),
        padded_base64_shape(r@, bytes@.len(), |c: char| is_standard_symbol(c)),
{
    STANDARD.encode(bytes)
}

/// The `data:` URL under which a thumbnail is shown: the PNG media type and
/// the image's bytes in standard base64.
pub fn thumbnail_data_url(bytes: &[u8]) -> (r: String)
    ensures
        r@ == "data:image/png;base64,"@ + standard_base64(bytes@),
        padded_base64_shape(
            r@.skip("data:image/png;base64,"@.len() as int),
            bytes@.len(),
            |c: char| is_standard_symbol(c),
        ),
{
    let mut r = String::new();
    r.append("data:image/png;base64,");
    let encoded = standard_encode(bytes);
    r.append(encoded.as_str());
    assert(r@.skip("data:image/png;base64,"@.len() as int) =~= encoded@);
    r
}

} // verus!
