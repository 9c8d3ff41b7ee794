//! The credential decoder: a base64 blob decoding to `client_id:client_secret`
//! becomes a [`Credentials`] pair. Splitting happens at the first colon of the
//! decoded text.

use vstd::prelude::*;
use vstd::string::StrSliceExecFns;
use vstd::utf8::{decode_utf8, valid_utf8};

use crate::strutil::{find_char_from, find_first, lemma_find_first_at};

verus! {

/// A client id and secret pair, immutable once constructed.
#[derive(Debug, Clone, PartialEq, Eq)]
pub struct Credentials {
    pub client_id: String,
    pub client_secret: String,
}

/// What can go wrong decoding a credential blob.
#[derive(Debug, Clone, Copy, PartialEq, Eq, Structural)]
pub enum BadCreds {
    /// The credential file could not be read; raised by the surrounding
    /// application, never by the decoder itself.
    File,
    /// The blob is not valid base64.
    Base64,
    /// The decoded bytes are not valid UTF-8.
    Utf8,
    /// The decoded text holds no colon separating id from secret.
    Format,
}

/// What the standard base64 alphabet decodes a text to: `None` exactly on
/// invalid base64. The result is a function of the text alone.
pub uninterp spec fn base64_standard_decode(s: Seq<char>) -> Option<Seq<u8>>;

/// Relies on `base64::Engine::decode` with the standard engine: decodes
/// standard-alphabet base64 text, rejecting invalid input; the result depends
/// on the text alone.
#[verifier::external_body]
fn base64_decode(s: &str) -> (r: Option<Vec<u8>>)
    ensures
        r is Some <==> base64_standard_decode(s@) is Some,
        r matches Some(v) ==> Some(v@) == base64_standard_decode(s@),
{
    base64::Engine::decode(&base64::prelude::BASE64_STANDARD, s).ok()
}

#[verifier::external_type_specification]
#[verifier::external_body]
pub struct ExFromUtf8Error(std::string::FromUtf8Error);

/// Relies on `String::from_utf8`: succeeds exactly on valid UTF-8 and returns
/// the decoded characters.
pub assume_specification[ String::from_utf8 ](v: Vec<u8>) -> (r: Result<
    String,
    std::string::FromUtf8Error,
>)
    ensures
        r is Ok <==> valid_utf8(v@),
        r matches Ok(s) ==> s@ == decode_utf8(v@),
;

/// The text split at its first colon, the colon itself dropped; `None` when
/// there is no colon.
pub open spec fn spec_split_first_colon(text: Seq<char>) -> Option<(Seq<char>, Seq<char>)> {
    match find_first(text, ':') {
        Some(i) => Some((text.take(i), text.skip(i + 1))),
        None => None,
    }
}

/// Decodes a credential blob: base64 text whose decoded bytes are UTF-8 of
/// the form `client_id:client_secret`. Each error names the first stage that
/// failed.
pub fn decode_credentials(blob: &str) -> (r: Result<Credentials, BadCreds>)
    ensures
        match r {
            Ok(c) => {
                &&& base64_standard_decode(blob@) matches Some(bytes)
                &&& valid_utf8(bytes)
                &&& spec_split_first_colon(decode_utf8(bytes)) matches Some(pair)
                &&& c.client_id@ == pair.0
                &&& c.client_secret@ == pair.1
            },

            Err(BadCreds::File) => false,
            Err(BadCreds::Base64) => base64_standard_decode(blob@) is None,
            Err(BadCreds::Utf8) => {
                &&& base64_standard_decode(blob@) matches Some(bytes)
                &&& !valid_utf8(bytes)
            },
            Err(BadCreds::Format) => {
                &&& base64_standard_decode(blob@) matches Some(bytes)
                &&& valid_utf8(bytes)
                &&& spec_split_first_colon(decode_utf8(bytes)) is None
            },
        },
{
    let bytes = match base64_decode(blob) {
        Some(b) => b,
        None => { return Err(BadCreds::Base64) },
    };
    let text = match String::from_utf8(bytes) {
        Ok(t) => t,
        Err(_) => { return Err(BadCreds::Utf8) },
    };
    proof {
        assert(text@.skip(0) =~= text@);
    }
    match find_char_from(text.as_str(), 0, ':') {
        Some(i) => {
            let len = text.as_str().unicode_len();
            let id = text.as_str().substring_char(0, i).to_owned();
            let secret = text.as_str().substring_char(i + 1, len).to_owned();
            proof {
                assert(id@ =~= text@.take(i as int));
                assert(secret@ =~= text@.skip(i + 1));
            }
            Ok(Credentials { client_id: id, client_secret: secret })
        },
        None => Err(BadCreds::Format),
    }
}

/// The split law of the decoder: a text joined as `id`, a colon, `secret`,
/// with no colon inside the id, splits back into exactly that id and secret.
pub proof fn lemma_split_of_joined(id: Seq<char>, secret: Seq<char>)
    requires
        forall|j: int| 0 <= j < id.len() ==> id[j] != ':',
    ensures
        spec_split_first_colon(id + seq![':'] + secret) == Some((id, secret)),
{
    let text = id + seq![':'] + secret;
    assert(text[id.len() as int] == ':');
    assert forall|j: int| 0 <= j < id.len() implies text[j] != ':' by {
        assert(text[j] == id[j]);
    }
    lemma_find_first_at(text, ':', id.len() as int);
    assert(text.take(id.len() as int) =~= id);
    assert(text.skip(id.len() as int + 1) =~= secret);
}

} // verus!
