use rtime::split_str_len;

#[test]
fn test_split_str_len() {
    assert_eq!(
        split_str_len("123456789012", 4),
        vec!["1234", "5678", "9012"]
    );
    assert_eq!(split_str_len("1234567890", 4), vec!["1234", "5678", "90"]);
}

#[test]
fn empty_line_has_no_rows() {
    assert_eq!(split_str_len("", 4), Vec::<String>::new());
    assert_eq!(split_str_len("", 0), Vec::<String>::new());
}

#[test]
fn line_shorter_than_a_row_is_one_row() {
    assert_eq!(split_str_len("abc", 4), vec!["abc"]);
    assert_eq!(split_str_len("abcd", 4), vec!["abcd"]);
}

#[test]
fn one_character_more_opens_a_row() {
    assert_eq!(split_str_len("abcde", 4), vec!["abcd", "e"]);
}

#[test]
fn rows_of_one_character() {
    assert_eq!(split_str_len("abc", 1), vec!["a", "b", "c"]);
}

#[test]
fn row_wider_than_any_line() {
    assert_eq!(split_str_len("abc", usize::MAX), vec!["abc"]);
}

#[test]
fn rows_count_characters_not_bytes() {
    assert_eq!(split_str_len("äöüßéè", 4), vec!["äöüß", "éè"]);
    assert_eq!(split_str_len("日本語のテキスト", 3), vec!["日本語", "のテキ", "スト"]);
}

#[test]
fn rows_joined_are_the_line() {
    let line = "The quick brown fox jumps over the lazy dog, twice: äöü.";
    let mut len: usize = 1;
    while len <= 60 {
        let rows = split_str_len(line, len);
        assert_eq!(rows.concat(), line);
        assert_eq!(rows.len(), (line.chars().count() + len - 1) / len);
        for (i, row) in rows.iter().enumerate() {
            let width = row.chars().count();
            assert!(width >= 1 && width <= len);
            if i + 1 < rows.len() {
                assert_eq!(width, len);
            }
        }
        len += 1;
    }
}

#[test]
fn very_long_line() {
    let line = "0123456789".repeat(100_000);
    let rows = split_str_len(&line, 80);
    assert_eq!(rows.len(), 12_500);
    assert_eq!(rows[0], "0123456789".repeat(8));
    assert_eq!(rows[12_499], "0123456789".repeat(8));
    assert_eq!(rows.concat(), line);
    let rows = split_str_len(&line, 999_999);
    assert_eq!(rows.len(), 2);
    assert_eq!(rows[1], "9");
}
