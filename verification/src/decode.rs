//! Decoding the fetched body: a JSON object of string keys to arrays of
//! strings becomes a joy document.  The JSON grammar itself is the
//! parser crate's work; its outcome is named, not restated.

use vstd::prelude::*;
use crate::errors::ServerError;
use crate::joy::JoyData;
use crate::joy::JoyEntry;
use crate::joy::lemma_sorted_keys_distinct;
use crate::joy::sorted_keys;

verus! {

/// The abstract outcome of parsing a joy document: `Ok` with the entries
/// exactly on the bytes that are a JSON object of string keys to arrays
/// of strings, else `Err` with the parser's message.  Both sides depend
/// on the bytes alone.
pub uninterp spec fn joy_parse(bytes: Seq<u8>) -> Result<Seq<(Seq<char>, Seq<Seq<char>>)>, Seq<char>>;

/// Relies on serde_json::from_slice for `BTreeMap<String, Vec<String>>`,
/// and on serde_json::Error's `Display` for the failure message: both
/// depend on the bytes alone.  A `BTreeMap` iterates its keys in strictly
/// ascending order, each held once.
#[verifier::external_body]
fn parse_joy_bytes(bytes: &[u8]) -> (r: Result<JoyData, String>)
    ensures
        r is Ok <==> joy_parse(bytes@) is Ok,
        r is Ok ==> (r->Ok_0)@ == joy_parse(bytes@)->Ok_0 && sorted_keys((r->Ok_0)@),
        r is Err ==> (r->Err_0)@ == joy_parse(bytes@)->Err_0,
{
    match serde_json::from_slice::<std::collections::BTreeMap<String, Vec<String>>>(bytes) {
        Ok(map) => Ok(JoyData {
            entries: map.into_iter().map(|(key, words)| JoyEntry { key, words }).collect(),
        }),
        Err(e) => Err(e.to_string()),
    }
}

/// Decodes the fetched body into a joy document — an ordered, duplicate
/// free mapping — or reports exactly why it could not be decoded.
pub fn decode_joy(bytes: &[u8]) -> (r: Result<JoyData, ServerError>)
    ensures
        r is Ok <==> joy_parse(bytes@) is Ok,
        r is Ok ==> (r->Ok_0)@ == joy_parse(bytes@)->Ok_0 && sorted_keys((r->Ok_0)@)
            && (r->Ok_0).wf(),
        r is Err ==> r->Err_0 is Decode
            && ((r->Err_0)->Decode_0)@ == joy_parse(bytes@)->Err_0,
{
    match parse_joy_bytes(bytes) {
        Ok(d) => {
            proof {
                lemma_sorted_keys_distinct(d@);
            }
            Ok(d)
        },
        Err(message) => Err(ServerError::Decode(message)),
    }
}

} // verus!
