use trivy_web::text::{chars_of, compare_bytes, compare_str, find, str_eq, string_of, Order};

fn expected(a: &str, b: &str) -> Order {
    if a < b {
        Order::Less
    } else if a > b {
        Order::Greater
    } else {
        Order::Equal
    }
}

#[test]
fn compare_str_orders_as_str_does() {
    let samples = [
        "",
        "a",
        "A",
        "ab",
        "abc",
        "abd",
        "b",
        "https://a",
        "https://b",
        "z",
        "é",
        "e\u{301}",
        "\u{7f}",
        "\u{80}",
        "\u{ffff}",
        "\u{10000}",
        "日本",
        "日本語",
    ];
    for a in samples {
        for b in samples {
            assert_eq!(compare_str(a, b), expected(a, b), "{a:?} against {b:?}");
            assert_eq!(str_eq(a, b), a == b);
        }
    }
}

#[test]
fn compare_bytes_prefix_comes_first() {
    assert_eq!(compare_bytes(b"", b""), Order::Equal);
    assert_eq!(compare_bytes(b"", b"\0"), Order::Less);
    assert_eq!(compare_bytes(b"ab", b"abc"), Order::Less);
    assert_eq!(compare_bytes(b"abc", b"ab"), Order::Greater);
    assert_eq!(compare_bytes(b"ab\xff", b"ac"), Order::Less);
    assert_eq!(compare_bytes(&[200], &[100, 255]), Order::Greater);
}

#[test]
fn chars_round_trip() {
    for text in ["", "plain", "日本語 and more", "tab\there"] {
        let chars = chars_of(text);
        assert_eq!(chars, text.chars().collect::<Vec<char>>());
        assert_eq!(string_of(&chars), text);
    }
}

#[test]
fn find_gives_the_first_occurrence() {
    let text = chars_of("xxhttps://a https://b");
    assert_eq!(find(&text, &chars_of("https://")), Some(2));
    assert_eq!(find(&text, &chars_of("x")), Some(0));
    assert_eq!(find(&text, &chars_of("b")), Some(20));
    assert_eq!(find(&text, &chars_of("")), Some(0));
    assert_eq!(find(&text, &chars_of("http://")), None);
    assert_eq!(find(&chars_of(""), &chars_of("a")), None);
    assert_eq!(find(&chars_of(""), &chars_of("")), Some(0));
    assert_eq!(find(&chars_of("aab"), &chars_of("ab")), Some(1));
    assert_eq!(find(&chars_of("ab"), &chars_of("abc")), None);
}
