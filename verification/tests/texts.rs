use gotatun_throughput::text::{characters, split_fields, strip_prefix};

#[test]
fn texts_are_split_at_separators() {
    let split = |text: &str| -> Vec<String> {
        split_fields(&characters(text), ':').iter().map(|field| field.iter().collect()).collect()
    };
    assert_eq!(split(""), [""]);
    assert_eq!(split("a"), ["a"]);
    assert_eq!(split(":"), ["", ""]);
    assert_eq!(split("a::bc:"), ["a", "", "bc", ""]);
}

#[test]
fn prefixes_are_stripped() {
    assert_eq!(strip_prefix("grün: 1", "grün: ").unwrap(), "1");
    assert_eq!(strip_prefix("abc", "").unwrap(), "abc");
    assert_eq!(strip_prefix("abc", "abc").unwrap(), "");
    assert_eq!(strip_prefix("abc", "abd"), None);
    assert_eq!(strip_prefix("ab", "abc"), None);
}
