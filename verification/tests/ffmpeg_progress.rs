use satsuma_core::convert::progress::{clock_fields, field_after, token_after, LineSplitter};

fn split_all(bytes: &[u8]) -> Vec<String> {
    let mut splitter = LineSplitter::new();
    let mut lines = Vec::new();
    for &b in bytes {
        if let Some(line) = splitter.push(b) {
            lines.push(String::from_utf8(line).unwrap());
        }
    }
    if let Some(line) = splitter.finish() {
        lines.push(String::from_utf8(line).unwrap());
    }
    lines
}

#[test]
fn progress_lines_split_at_both_line_ends_and_skip_empty_ones() {
    let lines = split_all(b"Duration: 00:00:10.00, start\nframe=1 time=00:00:01.00\rframe=2 time=00:00:02.00\r\nlast");
    assert_eq!(
        lines,
        vec![
            "Duration: 00:00:10.00, start",
            "frame=1 time=00:00:01.00",
            "frame=2 time=00:00:02.00",
            "last"
        ]
    );
    assert!(split_all(b"\r\n\n").is_empty());
}

#[test]
fn video_fields_are_cut_at_their_stop_character() {
    assert_eq!(
        field_after("  Duration: 00:01:02.50, start: 0.000000, bitrate: 1 kb/s", "Duration:", ','),
        Some("00:01:02.50".to_string())
    );
    assert_eq!(
        field_after("frame=  10 fps=0.0 q=0.0 size=0kB time=00:00:03.20 bitrate=0.1", "time=", ' '),
        Some("00:00:03.20".to_string())
    );
    assert_eq!(field_after("no marker here", "time=", ' '), None);
}

#[test]
fn audio_tokens_stop_at_a_comma_or_white_space() {
    assert_eq!(
        token_after("  Duration: 00:03:00.00, start: 0.0", "Duration: "),
        Some("00:03:00.00".to_string())
    );
    assert_eq!(token_after("size= 1kB time=N/A bitrate", "time="), Some("N/A".to_string()));
    assert_eq!(token_after("nothing", "time="), None);
}

#[test]
fn clock_fields_split_hours_minutes_seconds() {
    assert_eq!(
        clock_fields("01:02:03.50", true),
        Some(("01".to_string(), "02".to_string(), "03.50".to_string()))
    );
    assert_eq!(clock_fields("1:2:3:4", true), None);
    assert_eq!(clock_fields("1:2:3:4", false), Some(("1".to_string(), "2".to_string(), "3".to_string())));
    assert_eq!(clock_fields("N/A", false), None);
}

#[test]
fn the_splitter_hands_out_exactly_the_non_empty_pieces_between_breaks() {
    let streams: [&[u8]; 5] = [b"", b"a", b"\r\ra\n\nbc\r", b"x\ry\nz", b"frame=1\rframe=2\rframe=3\r"];
    for stream in streams {
        let expected: Vec<String> = stream
            .split(|b| *b == b'\n' || *b == b'\r')
            .filter(|piece| !piece.is_empty())
            .map(|piece| String::from_utf8(piece.to_vec()).unwrap())
            .collect();
        assert_eq!(split_all(stream), expected);
    }
}
