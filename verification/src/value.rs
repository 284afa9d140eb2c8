//! The document tree: JSON values as they come out of the parser, and the
//! mathematical trees that the contracts speak of.

use vstd::prelude::*;

verus! {

/// A JSON number, in the form in which it is stored. Each of the three
/// forms casts to a double.
#[derive(Clone, Copy, Debug, PartialEq, Eq, Structural)]
pub enum Number {
    /// An integer held as a signed value. The parser holds a negative
    /// integer so.
    I64(i64),
    /// An integer held as an unsigned value. The parser holds every other
    /// integer so.
    U64(u64),
    /// A number written with a fraction or an exponent, as the bit pattern
    /// of the IEEE 754 double nearest to it.
    F64(u64),
}

/// One node of a parsed JSON document. A document is a finite tree of them.
#[derive(Debug, PartialEq)]
pub enum Value {
    Null,
    Bool(bool),
    Number(Number),
    String(String),
    /// The elements, in the order of the document.
    Array(Vec<Value>),
    /// The entries, each a name and its value, in the order in which the
    /// parser hands them out. A name may occur more than once.
    Object(Vec<(String, Value)>),
}

/// The mathematical tree that a [`Value`] stands for: its view.
pub enum Json {
    Null,
    Bool(bool),
    Number(Number),
    String(Seq<char>),
    Array(Seq<Json>),
    Object(Seq<(Seq<char>, Json)>),
}

impl Value {
    /// The tree that this value stands for: the same shape, with sequences
    /// in place of vectors and strings.
    pub open spec fn model(self) -> Json
        decreases self,
    {
        match self {
            Value::Null => Json::Null,
            Value::Bool(b) => Json::Bool(b),
            Value::Number(n) => Json::Number(n),
            Value::String(s) => Json::String(s@),
            Value::Array(items) => Json::Array(
                Seq::new(
                    items@.len(),
                    |i: int|
                        if 0 <= i < items@.len() {
                            items@[i].model()
                        } else {
                            Json::Null
                        },
                ),
            ),
            Value::Object(entries) => Json::Object(
                Seq::new(
                    entries@.len(),
                    |i: int|
                        if 0 <= i < entries@.len() {
                            (entries@[i].0@, entries@[i].1.model())
                        } else {
                            (Seq::empty(), Json::Null)
                        },
                ),
            ),
        }
    }
}

/// Whether `place` sends each index below `len` to an index below `len`, no
/// two to the same.
pub open spec fn one_to_one(place: Seq<int>, len: nat) -> bool {
    &&& place.len() == len
    &&& forall|i: int| 0 <= i < len ==> 0 <= #[trigger] place[i] < len
    &&& forall|i: int, j: int| 0 <= i < j < len ==> #[trigger] place[i] != #[trigger] place[j]
}

impl Json {
    /// Whether `other` is this tree but for the order in which objects list
    /// their entries.
    ///
    /// Two arrays agree element by element, in order. Two objects have
    /// equally many entries, and some placing sends each entry of the one to
    /// an entry of the other, no two to the same, with the same name and with
    /// values that agree in this sense. Any other two values are equal.
    pub open spec fn same_up_to_entry_order(self, other: Json) -> bool
        decreases self,
    {
        match self {
            Json::Array(items) => other matches Json::Array(others) && items.len() == others.len()
                && forall|i: int|
                0 <= i < items.len() ==> (#[trigger] items[i]).same_up_to_entry_order(others[i]),
            Json::Object(entries) => other matches Json::Object(others) && entries.len()
                == others.len() && exists|place: Seq<int>|
                #[trigger] one_to_one(place, entries.len()) && forall|i: int|
                    0 <= i < entries.len() ==> (#[trigger] entries[i]).0 == others[place[i]].0
                        && entries[i].1.same_up_to_entry_order(others[place[i]].1),
            _ => self == other,
        }
    }
}

impl View for Value {
    type V = Json;

    open spec fn view(&self) -> Json {
        self.model()
    }
}

} // verus!
