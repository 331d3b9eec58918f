use agent_loop::text::{
    chars_of, comes_before, join, render_signed, render_unsigned, same_text, sort, text_between,
    trim_trailing,
};

fn strings(parts: &[&str]) -> Vec<String> {
    parts.iter().map(|s| s.to_string()).collect()
}

#[test]
fn strings_are_compared_taken_apart_and_joined() {
    assert!(same_text("é", "é"));
    assert!(!same_text("a", "ab"));
    assert_eq!(chars_of("aé→"), vec!['a', 'é', '→']);
    assert_eq!(text_between(&chars_of("aé→b"), 1, 3), "é→");
    assert_eq!(join(&strings(&["a", "", "b"]), ", "), "a, , b");
    assert_eq!(join(&Vec::new(), ", "), "");
}

#[test]
fn trailing_characters_are_trimmed() {
    assert_eq!(trim_trailing("http://h/v1///", '/'), "http://h/v1");
    assert_eq!(trim_trailing("a/b", '/'), "a/b");
    assert_eq!(trim_trailing("", '/'), "");
    let once = trim_trailing("x//", '/');
    assert_eq!(trim_trailing(&once, '/'), once);
}

#[test]
fn the_order_is_that_of_strings() {
    let words = ["", "a", "aa", "ab", "b", "B", "é", "\u{ffff}", "\u{10000}"];
    for x in words {
        for y in words {
            assert_eq!(comes_before(x, y), x < y, "{x:?} {y:?}");
        }
    }
    let mut expected = strings(&words);
    expected.sort();
    let mut backwards = strings(&words);
    backwards.reverse();
    assert_eq!(sort(backwards), expected);
    assert_eq!(sort(strings(&["b", "a", "b"])), strings(&["a", "b", "b"]));
}

#[test]
fn numbers_are_rendered_in_decimal() {
    for n in [0u128, 7, 10, 99, 100, u64::MAX as u128, u128::MAX] {
        assert_eq!(render_unsigned(n), n.to_string());
    }
    for n in [0i64, -1, 42, -100, i64::MAX, i64::MIN] {
        assert_eq!(render_signed(n), n.to_string());
    }
}
