use stringx::Join;
use stringx::Canonical;

#[test]
fn join_iter() {
    assert_eq!(
        "392, 345, 4598645, 2134",
        vec![392u64, 345, 4598645, 2134].join(", ")
    )
}

#[test]
fn join_range() {
    let mut v: Vec<u64> = (1..=10).collect();
    assert_eq!("1 | 2 | 3 | 4 | 5 | 6 | 7 | 8 | 9 | 10", v.join(" | "))
}

#[test]
fn join_one_to_five() {
    assert_eq!("1, 2, 3, 4, 5", vec![1u64, 2, 3, 4, 5].join(", "))
}

#[test]
fn join_empty_sequence() {
    let mut v: Vec<u64> = Vec::new();
    assert_eq!("", v.join(","));
}

#[test]
fn join_empty_sequence_nonempty_separator() {
    let mut v: Vec<u64> = Vec::new();
    assert_eq!("", v.join(" | "));
    let mut w: Vec<String> = Vec::new();
    assert_eq!("", w.join("--"));
}

#[test]
fn join_single_item() {
    let mut v: Vec<String> = vec![String::from("a")];
    assert_eq!("a", v.join(","));
}

#[test]
fn join_single_item_separator_never_emitted() {
    assert_eq!("41", vec![41u64].join(" | "));
    assert_eq!("0", vec![0u64].join("###"));
}

#[test]
fn join_empty_separator() {
    assert_eq!("123", vec![1u64, 2, 3].join(""));
}

#[test]
fn join_keeps_production_order() {
    assert_eq!("5,3,4,1,2", vec![5u64, 3, 4, 1, 2].join(","));
    assert_eq!("b,a", vec![String::from("b"), String::from("a")].join(","));
}

#[test]
fn join_strings_with_separator_like_items() {
    let mut v = vec![String::from("a,b"), String::from("c")];
    assert_eq!("a,b,c", v.join(","));
}

#[test]
fn join_format_options() {
    let string = vec![Some(8379u64), Some(990), None, Some(974385)].join_format(
        " | ",
        |item: &Option<u64>| match item {
            Some(number) => number.canonical_string(),
            None => "_".into(),
        },
    );
    assert_eq!(string, "8379 | 990 | _ | 974385");
}

#[test]
fn join_format_with_canonical_matches_join() {
    let mut v = vec![392u64, 345, 4598645, 2134];
    let formatted = v.join_format(", ", |item: &u64| item.canonical_string());
    assert_eq!(formatted, v.join(", "));

    let mut w = vec![String::from("x"), String::from("y")];
    let formatted = w.join_format("-", |item: &String| item.canonical_string());
    assert_eq!(formatted, w.join("-"));
}

#[test]
fn join_format_constant_formatter() {
    let mut v = vec![7u64, 8, 9];
    assert_eq!("*-*-*", v.join_format("-", |_item: &u64| String::from("*")));
}

#[test]
fn join_inserts_separator_between_each_adjacent_pair() {
    let mut v = vec![11u64, 22, 33];
    let joined = v.join("; ");
    assert_eq!("11; 22; 33", joined);
    let expected_len: usize = "11".len() + "22".len() + "33".len() + 2 * "; ".len();
    assert_eq!(expected_len, joined.len());
}
