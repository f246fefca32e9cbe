use gau_rs::text::{characters, has_prefix, parse_u32, same_text};

fn read(text: &str) -> Option<u32> {
    let chars: Vec<char> = text.chars().collect();
    parse_u32(&chars, 0)
}

#[test]
fn numbers_are_read_as_the_standard_library_reads_them() {
    let texts = [
        "0", "7", "007", "+7", "+", "", "-7", "++7", "+-7", "7+", " 7", "7 ", "1_000", "0x10",
        "4294967295", "4294967296", "+4294967295", "42949672950", "99999999999999999999999",
        "00000000000000000000000000001", "١٢٣", "12a", "a12", "1.5",
    ];
    for text in texts {
        assert_eq!(read(text), text.parse::<u32>().ok(), "{:?}", text);
    }
}

#[test]
fn exact_numbers() {
    assert_eq!(read("0"), Some(0));
    assert_eq!(read("+15"), Some(15));
    assert_eq!(read("4294967295"), Some(u32::MAX));
    assert_eq!(read("4294967296"), None);
    assert_eq!(read(""), None);
    assert_eq!(read("+"), None);
}

#[test]
fn a_number_behind_a_start() {
    let chars: Vec<char> = "limit=25".chars().collect();
    assert_eq!(parse_u32(&chars, 6), Some(25));
    assert_eq!(parse_u32(&chars, 7), Some(5));
    assert_eq!(parse_u32(&chars, 8), None);
    assert_eq!(parse_u32(&chars, 0), None);
}

#[test]
fn characters_and_prefixes() {
    assert_eq!(characters("héllo"), vec!['h', 'é', 'l', 'l', 'o']);
    assert!(characters("").is_empty());
    let text = characters("limit=5");
    assert!(has_prefix(&text, &characters("limit=")));
    assert!(has_prefix(&text, &characters("")));
    assert!(has_prefix(&text, &text));
    assert!(!has_prefix(&text, &characters("Limit=")));
    assert!(!has_prefix(&text, &characters("limit=55")));
    assert!(same_text("abc", "abc"));
    assert!(!same_text("abc", "abd"));
    assert!(!same_text("abc", "ab"));
    assert!(!same_text("ab", "abc"));
    assert!(same_text("", ""));
}
