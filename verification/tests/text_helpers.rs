use tinyboot::predicate::{
    strings_lexographically_greater_than, strings_lexographically_greater_than_or_equal_to,
    strings_lexographically_less_than, strings_lexographically_less_than_or_equal_to,
};
use tinyboot::text::{chars_of, is_space_char, same_text, split_fields};

#[test]
fn characters_of_a_string() {
    assert_eq!(chars_of(""), Vec::<char>::new());
    assert_eq!(chars_of("a\u{e9}\u{20ac}\u{1f600}"), vec!['a', '\u{e9}', '\u{20ac}', '\u{1f600}']);
    assert!(same_text("", ""));
    assert!(same_text("gr\u{fc}b", "gr\u{fc}b"));
    assert!(!same_text("grub", "grub "));
    assert!(!same_text("grub", "grab"));
}

#[test]
fn fields_are_split_like_the_standard_library() {
    for line in [
        "",
        " ",
        "a",
        "  a  b\tc\r\n d\u{c}e ",
        "15 1 254:1 / /mnt/dev-vda1 ro,relatime - ext4 /dev/vda1 ro",
        "\u{a0}x\u{a0} y",
    ] {
        let expected: Vec<String> = line.split_ascii_whitespace().map(|f| f.to_string()).collect();
        assert_eq!(split_fields(&line.chars().collect()), expected, "{:?}", line);
    }
    for c in ['\0', ' ', '\t', '\n', '\u{b}', '\u{c}', '\r', 'a', '\u{a0}', '\u{2028}'] {
        assert_eq!(is_space_char(c), c.is_ascii_whitespace(), "{:?}", c);
    }
}

#[test]
fn strings_are_ordered_like_the_standard_library() {
    let samples = ["", "a", "ab", "b", "B", "a\u{e9}", "a\u{20ac}", "\u{1f600}", "\u{ffff}", "z"];
    for a in samples {
        for b in samples {
            assert_eq!(strings_lexographically_less_than(a, b), a < b, "{:?} {:?}", a, b);
            assert_eq!(
                strings_lexographically_less_than_or_equal_to(a, b),
                a <= b,
                "{:?} {:?}",
                a,
                b
            );
            assert_eq!(strings_lexographically_greater_than(a, b), a > b, "{:?} {:?}", a, b);
            assert_eq!(
                strings_lexographically_greater_than_or_equal_to(a, b),
                a >= b,
                "{:?} {:?}",
                a,
                b
            );
        }
    }
}
