//! The door to the parser: bytes in, a document tree out.

use crate::value::{Json, Number, Value};
use simd_json::{BorrowedValue, StaticNode};
use vstd::prelude::*;

verus! {

/// `simd_json::BorrowedValue`, the parser's own tree. It only passes from the
/// parser to [`lift`].
#[verifier::external_type_specification]
#[verifier::external_body]
pub struct ExBorrowedValue<'a>(BorrowedValue<'a>);

/// `simd_json::StaticNode`, the parser's own scalar. It only passes from
/// [`lift`] to [`lift_scalar`].
#[verifier::external_type_specification]
#[verifier::external_body]
pub struct ExStaticNode(StaticNode);

/// Copies a scalar of the parser's tree into a [`Value`], variant for
/// variant. A double becomes its bit pattern, by `f64::to_bits`. Nothing is
/// claimed of the result.
#[verifier::external_body]
fn lift_scalar(node: StaticNode) -> Value {
    match node {
        StaticNode::Null => Value::Null,
        StaticNode::Bool(b) => Value::Bool(b),
        StaticNode::I64(n) => Value::Number(Number::I64(n)),
        StaticNode::U64(n) => Value::Number(Number::U64(n)),
        StaticNode::F64(x) => Value::Number(Number::F64(x.to_bits())),
    }
}

/// Copies the parser's tree into a [`Value`], variant for variant. A string
/// and a name become owned, by `Cow::into_owned`. An array keeps its order.
/// The entries of an object come in the order in which the parser's map, a
/// `halfbrown::HashMap`, hands them out when it is walked once from start to
/// end. Nothing is claimed of the result.
#[verifier::external_body]
fn lift(value: BorrowedValue<'_>) -> Value {
    match value {
        BorrowedValue::Static(node) => lift_scalar(node),
        BorrowedValue::String(text) => Value::String(text.into_owned()),
        BorrowedValue::Array(items) => Value::Array(items.into_iter().map(lift).collect()),
        BorrowedValue::Object(entries) => Value::Object(
            entries.into_iter().map(|(name, member)| (name.into_owned(), lift(member))).collect(),
        ),
    }
}

/// What `simd_json::to_borrowed_value` makes of these bytes: the document
/// they hold, or nothing where it turns them down. It stands for the
/// document but for the order in which objects list their entries, which the
/// bytes do not fix.
pub uninterp spec fn parsed_document(bytes: Seq<u8>) -> Option<Json>;

/// Parses `buffer` with `simd_json::to_borrowed_value` and copies the tree
/// into a [`Value`].
///
/// Trusted of the parser: whether it takes the bytes hangs on the bytes
/// alone, and so does the tree it builds, but for the order of the entries
/// of objects. It keeps every entry of every object, a repeated name too,
/// and its map hands each of them out once. An object of up to 32 entries
/// is held in document order; a larger one is held in a hash table, and the
/// order in which that hands them out hangs on how its hasher is built and
/// seeded, so it is left open here. Which bytes the parser takes and what
/// tree it builds is its own business.
#[verifier::external_body]
pub(crate) fn decode(buffer: Vec<u8>) -> (decoded: Result<Value, simd_json::Error>)
    ensures
        (decoded is Ok) == (parsed_document(buffer@) is Some),
        decoded matches Ok(tree) ==> tree@.same_up_to_entry_order(
            parsed_document(buffer@)->Some_0,
        ),
{
    let mut buffer = buffer;
    simd_json::to_borrowed_value(&mut buffer).map(lift)
}

} // verus!
