//! Sums the numbers that a JSON document stores under one key, at whatever
//! depth.
//!
//! The library finds the numbers and fixes the order in which they are
//! added; it hands back that sum written out as a [`Tally`], and leaves the
//! arithmetic on doubles to the caller.

pub mod decode;
pub mod error;
pub mod order;
pub mod sum_json;
pub mod value;

pub use crate::error::JSONSumError;
pub use crate::sum_json::{sum_json, Sum, Tally};
pub use crate::value::{Json, Number, Value};

use crate::decode::parsed_document;
use crate::order::lemma_entry_order_keeps_the_numbers;
use crate::sum_json::sum_by_key;
use vstd::prelude::*;

verus! {

/// Turns what the parser gave back into the result of the whole run: the
/// tally of the document for `key`, or the parser's error as it came.
pub fn sum_parsed(key: &str, parsed: Result<Value, simd_json::Error>) -> (result: Result<
    Tally,
    JSONSumError,
>)
    ensures
        match parsed {
            Ok(document) => result matches Ok(tally) && tally@ == sum_by_key(key@, document@),
            Err(error) => result matches Err(failure) && failure == JSONSumError::Parse(error),
        },
{
    match parsed {
        Ok(document) => Ok(sum_json(key, &document)),
        Err(error) => Err(JSONSumError::from(error)),
    }
}

/// Parses `buffer` as a JSON document and tallies the numbers stored under
/// `key`.
///
/// The run succeeds on the bytes that the parser takes, and on no others.
/// The tally is then that of the document in the bytes, with the entries of
/// each object in the order in which the parser handed them out; whatever
/// that order, it holds the numbers that the document stores under `key`,
/// each as often as it is stored. A failure is the parser's.
pub fn sum(buffer: Vec<u8>, key: &str) -> (result: Result<Tally, JSONSumError>)
    ensures
        (result is Ok) == (parsed_document(buffer@) is Some),
        match result {
            Ok(tally) => {
                &&& exists|document: Json|
                    document.same_up_to_entry_order(parsed_document(buffer@)->Some_0) && tally@
                        == sum_by_key(key@, document)
                &&& tally@.numbers() == sum_by_key(
                    key@,
                    parsed_document(buffer@)->Some_0,
                ).numbers()
            },
            Err(failure) => failure is Parse,
        },
{
    let ghost bytes = buffer@;
    let parsed = decode::decode(buffer);
    proof {
        if parsed is Ok {
            lemma_entry_order_keeps_the_numbers(
                key@,
                parsed->Ok_0@,
                parsed_document(bytes)->Some_0,
            );
        }
    }
    sum_parsed(key, parsed)
}

} // verus!
