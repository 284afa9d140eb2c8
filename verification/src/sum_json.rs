//! The aggregator: which numbers of a document count for a search key, and
//! in which order they are added up.

use crate::value::{Json, Number, Value};
use vstd::prelude::*;
use vstd::string::StringSliceAdditionalSpecFns;

verus! {

/// A sum that is written out, not yet computed: the view of a [`Tally`].
pub enum Sum {
    /// Positive zero.
    Zero,
    /// The double that a number of the document casts to.
    Number(Number),
    /// The sum of the parts, each worked out first, then added one after the
    /// other from left to right.
    Parts(Seq<Sum>),
}

/// What a document adds up to for one search key, written out as the
/// additions that give the total.
///
/// The library decides which numbers count and in which order they are
/// added. The arithmetic on doubles is left to the caller, who works a tally
/// out from the leaves up: `Zero` is positive zero, `Number` is the double
/// that the number casts to, and `Parts` is the sum of its parts, taken from
/// left to right.
#[derive(Debug, PartialEq)]
pub enum Tally {
    Zero,
    Number(Number),
    Parts(Vec<Tally>),
}

impl Tally {
    /// The sum that this tally writes out.
    pub open spec fn model(self) -> Sum
        decreases self,
    {
        match self {
            Tally::Zero => Sum::Zero,
            Tally::Number(n) => Sum::Number(n),
            Tally::Parts(parts) => Sum::Parts(
                Seq::new(
                    parts@.len(),
                    |i: int|
                        if 0 <= i < parts@.len() {
                            parts@[i].model()
                        } else {
                            Sum::Zero
                        },
                ),
            ),
        }
    }
}

impl View for Tally {
    type V = Sum;

    open spec fn view(&self) -> Sum {
        self.model()
    }
}

/// What one entry of an object adds: its number where the name is the search
/// key and the value is a number, else whatever the value adds by itself.
pub open spec fn entry_sum(search_key: Seq<char>, name: Seq<char>, value: Json) -> Sum
    decreases value, 1nat,
{
    match value {
        Json::Number(n) if name == search_key => Sum::Number(n),
        _ => sum_by_key(search_key, value),
    }
}

/// What a value adds for a search key: an object the sum over its entries, an
/// array the sum over its elements, anything else zero.
pub open spec fn sum_by_key(search_key: Seq<char>, value: Json) -> Sum
    decreases value, 0nat,
{
    match value {
        Json::Object(entries) => Sum::Parts(
            Seq::new(
                entries.len(),
                |i: int|
                    if 0 <= i < entries.len() {
                        entry_sum(search_key, entries[i].0, entries[i].1)
                    } else {
                        Sum::Zero
                    },
            ),
        ),
        Json::Array(items) => Sum::Parts(
            Seq::new(
                items.len(),
                |i: int|
                    if 0 <= i < items.len() {
                        sum_by_key(search_key, items[i])
                    } else {
                        Sum::Zero
                    },
            ),
        ),
        _ => Sum::Zero,
    }
}

/// Whether two strings hold the same text.
fn same_text(a: &str, b: &str) -> (same: bool)
    ensures
        same == (a@ == b@),
{
    let x = a.as_bytes();
    let y = b.as_bytes();
    proof {
        vstd::utf8::encode_utf8_decode_utf8(a@);
        vstd::utf8::encode_utf8_decode_utf8(b@);
    }
    if x.len() != y.len() {
        return false;
    }
    let mut i: usize = 0;
    while i < x.len()
        invariant
            i <= x@.len(),
            x@.len() == y@.len(),
            x@ == a.spec_bytes(),
            y@ == b.spec_bytes(),
            forall|j: int| 0 <= j < i ==> x@[j] == y@[j],
        decreases x@.len() - i,
    {
        if x[i] != y[i] {
            return false;
        }
        i += 1;
    }
    assert(x@ =~= y@);
    true
}

/// Walks `value` and writes out the sum of the numbers stored under
/// `search_key`, at whatever depth.
///
/// An entry whose name is the search key and whose value is a number adds
/// that number and is not searched further. Every other entry, and every
/// element of an array, adds what its value adds by itself, so a container
/// under the search key is searched, not summed. A value that is neither an
/// object nor an array adds zero.
#[verifier::loop_isolation(false)]
pub fn sum_json(search_key: &str, value: &Value) -> (tally: Tally)
    ensures
        tally@ == sum_by_key(search_key@, value@),
    decreases value,
{
    match value {
        Value::Object(entries) => {
            let mut parts: Vec<Tally> = Vec::new();
            let mut i: usize = 0;
            while i < entries.len()
                invariant
                    i <= entries@.len(),
                    parts@.len() == i,
                    forall|j: int|
                        0 <= j < i ==> parts@[j]@ == entry_sum(
                            search_key@,
                            entries@[j].0@,
                            entries@[j].1@,
                        ),
                decreases entries@.len() - i,
            {
                let entry = &entries[i];
                let part = match &entry.1 {
                    Value::Number(n) if same_text(search_key, entry.0.as_str()) => Tally::Number(
                        *n,
                    ),
                    member => sum_json(search_key, member),
                };
                parts.push(part);
                i += 1;
            }
            let tally = Tally::Parts(parts);
            assert(tally@->Parts_0 =~= sum_by_key(search_key@, value@)->Parts_0);
            tally
        },
        Value::Array(items) => {
            let mut parts: Vec<Tally> = Vec::new();
            let mut i: usize = 0;
            while i < items.len()
                invariant
                    i <= items@.len(),
                    parts@.len() == i,
                    forall|j: int| 0 <= j < i ==> parts@[j]@ == sum_by_key(search_key@, items@[j]@),
                decreases items@.len() - i,
            {
                let part = sum_json(search_key, &items[i]);
                parts.push(part);
                i += 1;
            }
            let tally = Tally::Parts(parts);
            assert(tally@->Parts_0 =~= sum_by_key(search_key@, value@)->Parts_0);
            tally
        },
        _ => Tally::Zero,
    }
}

impl Json {
    /// Whether some object of the tree, at whatever depth, has an entry of
    /// this name.
    pub open spec fn mentions(self, name: Seq<char>) -> bool
        decreases self,
    {
        match self {
            Json::Object(entries) => exists|i: int|
                0 <= i < entries.len() && ((#[trigger] entries[i]).0 == name
                    || entries[i].1.mentions(name)),
            Json::Array(items) => exists|i: int|
                0 <= i < items.len() && (#[trigger] items[i]).mentions(name),
            _ => false,
        }
    }
}

impl Sum {
    /// Whether the sum holds no number at all. Such a sum has only zeros to
    /// add.
    pub open spec fn is_blank(self) -> bool
        decreases self,
    {
        match self {
            Sum::Zero => true,
            Sum::Number(_) => false,
            Sum::Parts(parts) => forall|i: int|
                0 <= i < parts.len() ==> (#[trigger] parts[i]).is_blank(),
        }
    }
}

/// A document in which no entry is named `search_key` adds no number.
pub proof fn lemma_absent_key_adds_nothing(search_key: Seq<char>, value: Json)
    requires
        !value.mentions(search_key),
    ensures
        sum_by_key(search_key, value).is_blank(),
    decreases value,
{
    match value {
        Json::Object(entries) => {
            let parts = sum_by_key(search_key, value)->Parts_0;
            assert forall|i: int| 0 <= i < parts.len() implies (#[trigger] parts[i]).is_blank() by {
                let entry = entries[i];
                lemma_absent_key_adds_nothing(search_key, entry.1);
                assert(parts[i] == entry_sum(search_key, entry.0, entry.1));
            }
        },
        Json::Array(items) => {
            let parts = sum_by_key(search_key, value)->Parts_0;
            assert forall|i: int| 0 <= i < parts.len() implies (#[trigger] parts[i]).is_blank() by {
                lemma_absent_key_adds_nothing(search_key, items[i]);
            }
        },
        _ => {},
    }
}

/// An object whose only entry holds a number under `search_key` adds up to
/// that number and nothing else.
pub proof fn lemma_single_match(search_key: Seq<char>, n: Number)
    ensures
        sum_by_key(search_key, Json::Object(seq![(search_key, Json::Number(n))])) == Sum::Parts(
            seq![Sum::Number(n)],
        ),
{
    let document = Json::Object(seq![(search_key, Json::Number(n))]);
    let parts = sum_by_key(search_key, document)->Parts_0;
    assert(parts[0] == entry_sum(search_key, search_key, Json::Number(n)));
    assert(parts =~= seq![Sum::Number(n)]);
}

/// Under the search key, a value that is no number adds what it adds
/// anywhere else: a container is searched, and a string, a boolean or null
/// adds zero.
pub proof fn lemma_non_number_under_key(search_key: Seq<char>, value: Json)
    requires
        !(value is Number),
    ensures
        entry_sum(search_key, search_key, value) == sum_by_key(search_key, value),
        !(value is Object || value is Array) ==> entry_sum(search_key, search_key, value)
            == Sum::Zero,
{
}

/// An object adds one part for each of its entries and an array one for
/// each of its elements, in their order; whatever stands beside a member
/// changes nothing of its part. Any other value adds zero.
pub proof fn lemma_one_part_per_member(search_key: Seq<char>, value: Json)
    ensures
        value matches Json::Object(entries) ==> sum_by_key(search_key, value) matches Sum::Parts(
            parts,
        ) && parts.len() == entries.len() && forall|i: int|
            0 <= i < entries.len() ==> #[trigger] parts[i] == entry_sum(
                search_key,
                entries[i].0,
                entries[i].1,
            ),
        value matches Json::Array(items) ==> sum_by_key(search_key, value) matches Sum::Parts(
            parts,
        ) && parts.len() == items.len() && forall|i: int|
            0 <= i < items.len() ==> #[trigger] parts[i] == sum_by_key(search_key, items[i]),
        !(value is Object || value is Array) ==> sum_by_key(search_key, value) == Sum::Zero,
{
}

/// Two runs of [`sum_json`] on one key and one document write out the same
/// sum.
pub proof fn lemma_sum_json_repeats(search_key: &str, value: &Value, first: Tally, second: Tally)
    requires
        call_ensures(sum_json, (search_key, value), first),
        call_ensures(sum_json, (search_key, value), second),
    ensures
        first@ == second@,
{
}

} // verus!
