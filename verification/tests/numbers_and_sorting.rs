use comic_sources::numbers::{decimal_exec, parse_i32_exec, parse_i64_exec};
use comic_sources::sorting::stable_sort_by_key;

fn chars(text: &str) -> Vec<char> {
    text.chars().collect()
}

#[test]
fn decimal_forms() {
    assert_eq!(decimal_exec(0), chars("0"));
    assert_eq!(decimal_exec(-42), chars("-42"));
    assert_eq!(decimal_exec(i64::MIN), chars("-9223372036854775808"));
}

#[test]
fn decimal_reads_back() {
    for n in [0i64, 7, -7, 1990, i64::MAX, i64::MIN] {
        assert_eq!(parse_i64_exec(&decimal_exec(n)), Some(n));
    }
    for n in [0i32, 12, -12, i32::MAX, i32::MIN] {
        assert_eq!(parse_i32_exec(&decimal_exec(n as i64)), Some(n));
    }
}

#[test]
fn parse_like_std() {
    for text in ["+5", "-0", "007", "", "-", "+", " 1", "1 ", "12a", "9223372036854775808", "2147483648"] {
        let c = chars(text);
        assert_eq!(parse_i64_exec(&c), text.parse::<i64>().ok(), "{text}");
        assert_eq!(parse_i32_exec(&c), text.parse::<i32>().ok(), "{text}");
    }
}

#[test]
fn stable_sort_keeps_ties_in_order() {
    let items = vec![((2, 0), "a"), ((1, 5), "b"), ((2, 0), "c"), ((1, -1), "d"), ((1, 5), "e")];
    let sorted = stable_sort_by_key(items);
    let names: Vec<&str> = sorted.iter().map(|(_, n)| *n).collect();
    assert_eq!(names, vec!["d", "b", "e", "a", "c"]);
}

#[test]
fn stable_sort_of_every_order() {
    let items = vec![((0, 1), 'x'), ((0, 0), 'y'), ((0, 1), 'z')];
    let sorted = stable_sort_by_key(items);
    assert_eq!(sorted, vec![((0, 0), 'y'), ((0, 1), 'x'), ((0, 1), 'z')]);
    assert!(stable_sort_by_key(Vec::<((i128, i128), u8)>::new()).is_empty());
}
