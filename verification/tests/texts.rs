use chat_relay::text::{clock_stamp, format_line, relay_line, trim_line};

#[test]
fn format_line_joins_stamp_name_and_text() {
    assert_eq!(format_line("[12:34:56]", "alice", "hi"), "[12:34:56] alice > hi\n");
    assert_eq!(format_line("[09:05:07]", "alice", "hi"), "[09:05:07] alice > hi\n");
    assert_eq!(format_line("", "", ""), "  > \n");
    assert_eq!(format_line("[00:00:00]", "a b", "x > y"), "[00:00:00] a b > x > y\n");
}

#[test]
fn format_line_ends_in_exactly_one_line_feed() {
    let line = format_line("[09:05:07]", "alice", "hi");
    assert_eq!(line.len(), 22);
    assert!(line.ends_with('\n'));
    assert_eq!(line.matches('\n').count(), 1);
    assert_eq!(line.lines().collect::<Vec<&str>>(), vec!["[09:05:07] alice > hi"]);
}

#[test]
fn trim_line_strips_white_space_at_both_ends() {
    assert_eq!(trim_line("  hi there \n"), "hi there");
    assert_eq!(trim_line("hi\r\n"), "hi");
    assert_eq!(trim_line("\t\u{b}\u{c}x\u{85}\u{a0}"), "x");
    assert_eq!(trim_line("\u{1680}\u{2000}\u{200a}\u{2028}\u{2029}\u{202f}\u{205f}\u{3000}y"), "y");
    assert_eq!(trim_line(""), "");
    assert_eq!(trim_line(" \n "), "");
    assert_eq!(trim_line("solid"), "solid");
}

#[test]
fn trim_line_keeps_what_is_no_white_space() {
    // zero width space and the byte order mark are not white space
    assert_eq!(trim_line("\u{200b}z\u{feff}"), "\u{200b}z\u{feff}");
    assert_eq!(trim_line("\u{1c}q"), "\u{1c}q");
    assert_eq!(trim_line(" a \t b "), "a \t b");
}

#[test]
fn clock_stamp_is_a_time_of_day_in_brackets() {
    let stamp = clock_stamp();
    let b = stamp.as_bytes();
    assert_eq!(b.len(), 10);
    assert_eq!(b[0], b'[');
    assert_eq!(b[3], b':');
    assert_eq!(b[6], b':');
    assert_eq!(b[9], b']');
    for i in [1usize, 2, 4, 5, 7, 8] {
        assert!(b[i].is_ascii_digit());
    }
    let hour: u32 = stamp[1..3].parse().unwrap();
    let minute: u32 = stamp[4..6].parse().unwrap();
    let second: u32 = stamp[7..9].parse().unwrap();
    assert!(hour < 24);
    assert!(minute < 60);
    assert!(second <= 60);
}

#[test]
fn relay_line_puts_a_stamp_before_name_and_text() {
    let line = relay_line("bob", "see you");
    assert_eq!(line.len(), 10 + " bob > see you\n".len());
    assert_eq!(&line[10..], " bob > see you\n");
    assert!(line.starts_with('['));
    assert_eq!(&line[9..10], "]");
    assert_ne!(&line[..10], "[%H:%M:%S]");
}
