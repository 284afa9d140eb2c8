//! Trees written by hand go straight to the aggregator.

use json_sum::{sum_json, Number, Tally, Value};

/// The double that a number casts to.
fn cast(number: &Number) -> f64 {
    match number {
        Number::I64(n) => *n as f64,
        Number::U64(n) => *n as f64,
        Number::F64(bits) => f64::from_bits(*bits),
    }
}

/// Adds a tally up, from the leaves, each sum from left to right.
fn total(tally: &Tally) -> f64 {
    match tally {
        Tally::Zero => 0.0,
        Tally::Number(number) => cast(number),
        Tally::Parts(parts) => parts.iter().map(total).sum(),
    }
}

/// Whether a tally holds a number anywhere.
fn holds_number(tally: &Tally) -> bool {
    match tally {
        Tally::Zero => false,
        Tally::Number(_) => true,
        Tally::Parts(parts) => parts.iter().any(holds_number),
    }
}

fn integer(n: i64) -> Value {
    Value::Number(Number::I64(n))
}

fn double(x: f64) -> Value {
    Value::Number(Number::F64(x.to_bits()))
}

fn text(s: &str) -> Value {
    Value::String(String::from(s))
}

fn object(entries: Vec<(&str, Value)>) -> Value {
    Value::Object(entries.into_iter().map(|(name, value)| (String::from(name), value)).collect())
}

#[test]
fn absent_key_adds_nothing() {
    let tree = object(vec![
        ("a", integer(1)),
        ("b", Value::Array(vec![object(vec![("c", double(2.5))]), integer(3), text("key")])),
        ("keys", object(vec![("Key", integer(4)), ("", integer(5))])),
    ]);
    let tally = sum_json("key", &tree);
    assert!(!holds_number(&tally));
    assert_eq!(total(&tally), 0.0);
}

#[test]
fn single_match_is_the_number_itself() {
    let tally = sum_json("key", &object(vec![("key", integer(-17))]));
    assert_eq!(tally, Tally::Parts(vec![Tally::Number(Number::I64(-17))]));
    assert_eq!(total(&tally), -17.0);

    let tally = sum_json("key", &object(vec![("key", double(9.9))]));
    assert_eq!(tally, Tally::Parts(vec![Tally::Number(Number::F64(9.9f64.to_bits()))]));
    assert_eq!(total(&tally).to_bits(), 9.9f64.to_bits());

    let tally = sum_json("key", &object(vec![("key", Value::Number(Number::U64(u64::MAX)))]));
    assert_eq!(total(&tally), 18446744073709551616.0);
}

#[test]
fn two_runs_agree() {
    let tree = object(vec![
        ("key", double(0.1)),
        ("rest", Value::Array(vec![object(vec![("key", double(0.2))]), object(vec![("key", double(0.3))])])),
    ]);
    let first = sum_json("key", &tree);
    let second = sum_json("key", &tree);
    assert_eq!(first, second);
    assert_eq!(total(&first).to_bits(), total(&second).to_bits());
}

#[test]
fn scalars_add_zero() {
    assert_eq!(sum_json("key", &Value::Null), Tally::Zero);
    assert_eq!(sum_json("key", &Value::Bool(true)), Tally::Zero);
    assert_eq!(sum_json("key", &integer(7)), Tally::Zero);
    assert_eq!(sum_json("key", &text("key")), Tally::Zero);
}

#[test]
fn empty_containers_add_an_empty_sum() {
    assert_eq!(sum_json("key", &Value::Object(vec![])), Tally::Parts(vec![]));
    assert_eq!(sum_json("key", &Value::Array(vec![])), Tally::Parts(vec![]));
    assert_eq!(total(&sum_json("key", &Value::Object(vec![]))), 0.0);
    assert_eq!(total(&sum_json("key", &Value::Array(vec![]))), 0.0);
}

#[test]
fn non_numbers_under_the_key_add_zero() {
    let tree = object(vec![
        ("key", text("12")),
        ("key", Value::Bool(true)),
        ("key", Value::Null),
        ("key", integer(5)),
    ]);
    let tally = sum_json("key", &tree);
    let expected = Tally::Parts(vec![
        Tally::Zero,
        Tally::Zero,
        Tally::Zero,
        Tally::Number(Number::I64(5)),
    ]);
    assert_eq!(tally, expected);
    assert_eq!(total(&tally), 5.0);
}

#[test]
fn containers_under_the_key_are_searched() {
    let tree = object(vec![
        ("key", Value::Array(vec![object(vec![("key", integer(12))]), object(vec![("key", integer(6))])])),
        ("key", object(vec![("key", integer(2)), ("other", integer(100))])),
    ]);
    let tally = sum_json("key", &tree);
    let expected = Tally::Parts(vec![
        Tally::Parts(vec![
            Tally::Parts(vec![Tally::Number(Number::I64(12))]),
            Tally::Parts(vec![Tally::Number(Number::I64(6))]),
        ]),
        Tally::Parts(vec![Tally::Number(Number::I64(2)), Tally::Zero]),
    ]);
    assert_eq!(tally, expected);
    assert_eq!(total(&tally), 20.0);
}

#[test]
fn a_number_in_an_array_is_no_match() {
    let tree = object(vec![("key", Value::Array(vec![integer(1), integer(2), double(3.5)]))]);
    let tally = sum_json("key", &tree);
    assert_eq!(tally, Tally::Parts(vec![Tally::Parts(vec![Tally::Zero, Tally::Zero, Tally::Zero])]));
    assert_eq!(total(&tally), 0.0);
}

#[test]
fn repeated_names_all_count() {
    let tree = object(vec![("key", integer(1)), ("key", integer(2)), ("key", integer(4))]);
    assert_eq!(total(&sum_json("key", &tree)), 7.0);
}

#[test]
fn names_match_exactly() {
    let tree = object(vec![
        ("key", integer(1)),
        ("Key", integer(2)),
        ("ke", integer(4)),
        ("keys", integer(8)),
        (" key", integer(16)),
        ("", integer(32)),
        ("kez", integer(64)),
    ]);
    assert_eq!(total(&sum_json("key", &tree)), 1.0);
    assert_eq!(total(&sum_json("Key", &tree)), 2.0);
    assert_eq!(total(&sum_json("ke", &tree)), 4.0);
    assert_eq!(total(&sum_json("", &tree)), 32.0);
    assert_eq!(total(&sum_json("k", &tree)), 0.0);
}

#[test]
fn nested_sums_are_added_before_their_parent() {
    let tree = object(vec![
        ("key", double(-1e100)),
        ("rest", Value::Array(vec![object(vec![("key", double(1e100))]), object(vec![("key", double(1.0))])])),
    ]);
    let tally = sum_json("key", &tree);
    let expected = Tally::Parts(vec![
        Tally::Number(Number::F64((-1e100f64).to_bits())),
        Tally::Parts(vec![
            Tally::Parts(vec![Tally::Number(Number::F64(1e100f64.to_bits()))]),
            Tally::Parts(vec![Tally::Number(Number::F64(1.0f64.to_bits()))]),
        ]),
    ]);
    assert_eq!(tally, expected);
    assert_eq!(total(&tally), 0.0);
    assert_eq!((-1e100f64 + 1e100f64) + 1.0f64, 1.0);
}

#[test]
fn the_tree_is_left_as_it_was() {
    let tree = object(vec![("key", integer(3)), ("rest", Value::Array(vec![text("a"), Value::Null]))]);
    let copy = object(vec![("key", integer(3)), ("rest", Value::Array(vec![text("a"), Value::Null]))]);
    let _ = sum_json("key", &tree);
    assert_eq!(tree, copy);
}

#[test]
fn deep_nesting_is_followed_to_the_bottom() {
    let mut tree = object(vec![("key", integer(1))]);
    for level in 0..200 {
        tree = if level % 2 == 0 {
            Value::Array(vec![tree, object(vec![("key", integer(1))])])
        } else {
            object(vec![("key", tree), ("other", integer(1000))])
        };
    }
    assert_eq!(total(&sum_json("key", &tree)), 101.0);
}

/// The numbers of a tally, in the order in which they are added.
fn numbers(tally: &Tally, into: &mut Vec<Number>) {
    match tally {
        Tally::Zero => {}
        Tally::Number(number) => into.push(*number),
        Tally::Parts(parts) => {
            for part in parts {
                numbers(part, into);
            }
        }
    }
}

/// The numbers of a tally as integers, sorted.
fn sorted_integers(tally: &Tally) -> Vec<i64> {
    let mut found = Vec::new();
    numbers(tally, &mut found);
    let mut found: Vec<i64> = found
        .iter()
        .map(|number| match number {
            Number::I64(n) => *n,
            other => panic!("an integer stays one, not {:?}", other),
        })
        .collect();
    found.sort();
    found
}

#[test]
fn entry_order_keeps_the_numbers() {
    let one = object(vec![
        ("key", integer(1)),
        ("a", object(vec![("key", integer(2)), ("b", integer(3)), ("key", integer(4))])),
        ("key", Value::Array(vec![object(vec![("x", integer(5)), ("key", integer(6))])])),
    ]);
    let other = object(vec![
        ("key", Value::Array(vec![object(vec![("key", integer(6)), ("x", integer(5))])])),
        ("a", object(vec![("key", integer(4)), ("key", integer(2)), ("b", integer(3))])),
        ("key", integer(1)),
    ]);
    let first = sum_json("key", &one);
    let second = sum_json("key", &other);
    assert_ne!(first, second);
    assert_eq!(sorted_integers(&first), vec![1, 2, 4, 6]);
    assert_eq!(sorted_integers(&second), vec![1, 2, 4, 6]);
    assert_eq!(total(&first), 13.0);
    assert_eq!(total(&second), 13.0);
}

#[test]
fn array_order_keeps_the_numbers() {
    let elements = |order: [usize; 3]| {
        let make = |which: usize| match which {
            0 => object(vec![("key", integer(9))]),
            1 => object(vec![("key", integer(7))]),
            _ => Value::Array(vec![object(vec![("key", integer(5))]), integer(100)]),
        };
        object(vec![("a", Value::Array(order.iter().map(|which| make(*which)).collect()))])
    };
    let first = sum_json("key", &elements([0, 1, 2]));
    let second = sum_json("key", &elements([2, 0, 1]));
    assert_ne!(first, second);
    assert_eq!(sorted_integers(&first), vec![5, 7, 9]);
    assert_eq!(sorted_integers(&second), vec![5, 7, 9]);
    assert_eq!(total(&first), 21.0);
    assert_eq!(total(&second), 21.0);
}

#[test]
fn grouping_keeps_the_numbers() {
    let grouped = Value::Array(vec![
        Value::Array(vec![object(vec![("key", integer(1))]), object(vec![("key", integer(2))])]),
        Value::Array(vec![object(vec![("key", integer(3))])]),
    ]);
    let flat = Value::Array(vec![
        object(vec![("key", integer(1))]),
        object(vec![("key", integer(2))]),
        object(vec![("key", integer(3))]),
    ]);
    assert_eq!(sorted_integers(&sum_json("key", &grouped)), vec![1, 2, 3]);
    assert_eq!(sorted_integers(&sum_json("key", &flat)), vec![1, 2, 3]);
    assert_eq!(total(&sum_json("key", &grouped)), 6.0);
    assert_eq!(total(&sum_json("key", &flat)), 6.0);
}

#[test]
fn a_blank_tally_holds_no_number() {
    let blank = sum_json("key", &object(vec![("a", integer(1)), ("b", Value::Array(vec![text("key")]))]));
    let mut found = Vec::new();
    numbers(&blank, &mut found);
    assert!(!holds_number(&blank));
    assert!(found.is_empty());

    let filled = sum_json("key", &object(vec![("a", object(vec![("key", integer(0))]))]));
    let mut found = Vec::new();
    numbers(&filled, &mut found);
    assert!(holds_number(&filled));
    assert_eq!(found, vec![Number::I64(0)]);
}
