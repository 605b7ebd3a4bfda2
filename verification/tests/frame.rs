use rtime::{rows_for, Frame};

fn row(secs: u64, first: bool, content: &str) -> Frame {
    Frame::Row { secs, first, content: content.to_string() }
}

#[test]
fn running_line_is_drawn_over_the_current_line() {
    assert_eq!(Frame::Running { secs: 0 }.text(), "\r\x1b[2K0s  ...");
    assert_eq!(Frame::Running { secs: 75 }.text(), "\r\x1b[2K1m15s  ...");
}

#[test]
fn clearing_comes_before_the_text() {
    let text = Frame::Running { secs: 3 }.text();
    assert!(text.starts_with("\r\x1b[2K"));
    assert_eq!(text.matches("\x1b[2K").count(), 1);
    let text = row(3, true, "x").text();
    assert!(text.starts_with("\r\x1b[2K"));
    assert_eq!(text.matches("\x1b[2K").count(), 1);
}

#[test]
fn break_is_a_line_feed() {
    assert_eq!(Frame::Break.text(), "\n");
}

#[test]
fn first_row_carries_the_time() {
    assert_eq!(row(1, true, "A").text(), "\r\x1b[2K1s|A\n");
    assert_eq!(row(3725, true, "done").text(), "\r\x1b[2K1h02m05s|done\n");
}

#[test]
fn later_rows_carry_blanks_as_wide() {
    assert_eq!(row(1, false, "A").text(), "\r\x1b[2K  |A\n");
    assert_eq!(row(3725, false, "done").text(), "\r\x1b[2K        |done\n");
}

#[test]
fn total_is_a_line_of_its_own() {
    assert_eq!(Frame::Total { secs: 2 }.text(), "\rTotal time: 2s\r\n");
    assert_eq!(Frame::Total { secs: 3600 }.text(), "\rTotal time: 1h00m00s\r\n");
}

#[test]
fn shown_is_the_text_without_the_steering() {
    assert_eq!(Frame::Running { secs: 75 }.shown(), "1m15s  ...");
    assert_eq!(Frame::Break.shown(), "");
    assert_eq!(row(1, true, "A").shown(), "1s|A");
    assert_eq!(row(3725, false, "done").shown(), "        |done");
    assert_eq!(row(0, true, "").shown(), "0s|");
    assert_eq!(Frame::Total { secs: 2 }.shown(), "Total time: 2s");
}

#[test]
fn only_the_total_is_printed_without_a_terminal() {
    assert_eq!(Frame::Total { secs: 2 }.plain(), Some("Total time: 2s\n".to_string()));
    assert_eq!(Frame::Running { secs: 2 }.plain(), None);
    assert_eq!(Frame::Break.plain(), None);
    assert_eq!(row(2, true, "A").plain(), None);
}

#[test]
fn frames_can_be_copied() {
    let one = row(5, true, "text");
    assert_eq!(one.clone(), one);
    assert_eq!(Frame::Break.clone(), Frame::Break);
    assert_eq!(Frame::Running { secs: 9 }.clone(), Frame::Running { secs: 9 });
    assert_eq!(Frame::Total { secs: 9 }.clone(), Frame::Total { secs: 9 });
}

#[test]
fn line_is_wrapped_to_what_the_prefix_leaves() {
    // "1s" takes two columns and the separator one: seven are left of ten.
    assert_eq!(
        rows_for("abcdefghijklmnop", 1, 10),
        vec![row(1, true, "abcdefg"), row(1, false, "hijklmn"), row(1, false, "op")]
    );
}

#[test]
fn short_line_is_one_row() {
    assert_eq!(rows_for("A", 1, 80), vec![row(1, true, "A")]);
}

#[test]
fn empty_line_draws_nothing() {
    assert_eq!(rows_for("", 1, 80), Vec::<Frame>::new());
}

#[test]
fn too_narrow_a_terminal_draws_nothing() {
    assert_eq!(rows_for("abc", 1, 0), Vec::<Frame>::new());
    assert_eq!(rows_for("abc", 1, 2), Vec::<Frame>::new());
    assert_eq!(rows_for("abc", 1, 3), Vec::<Frame>::new());
    assert_eq!(rows_for("abc", 3725, 9), Vec::<Frame>::new());
}

#[test]
fn narrowest_terminal_that_draws() {
    assert_eq!(
        rows_for("abc", 1, 4),
        vec![row(1, true, "a"), row(1, false, "b"), row(1, false, "c")]
    );
    assert_eq!(rows_for("ab", 3725, 10), vec![row(3725, true, "a"), row(3725, false, "b")]);
}

#[test]
fn every_row_fits_the_terminal() {
    let line = "a line that is long enough to be wrapped several times over, whatever the width";
    let mut width: usize = 0;
    while width <= 100 {
        let rows = rows_for(line, 75, width);
        let mut joined = String::new();
        for frame in rows.iter() {
            let text = frame.text();
            let visible = text.trim_start_matches("\r\x1b[2K").trim_end_matches('\n');
            assert!(visible.chars().count() <= width);
            let (prefix, content) = visible.split_at(6);
            assert_eq!(prefix.chars().count(), 6);
            assert!(prefix == "1m15s|" || prefix == "     |");
            assert!(!content.is_empty());
            joined.push_str(content);
        }
        if width > 6 {
            assert_eq!(joined, line);
        } else {
            assert!(rows.is_empty());
        }
        width += 1;
    }
}
