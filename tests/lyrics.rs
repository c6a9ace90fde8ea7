use streamplay::lyrics::{
    decode_html_entities, find_local_lyric, lyric_from_embedded, lyric_from_encoded,
    lyric_from_text, parse_lrc, parse_time, Lyric, LyricLine,
};

#[test]
fn lrc_round_trip_and_current_line() {
    let lines = parse_lrc("[00:01.00]a\n[00:02.50]b");
    assert_eq!(lines.len(), 2);
    assert_eq!(lines[0].time_ms, 1000);
    assert_eq!(lines[0].text, "a");
    assert_eq!(lines[1].time_ms, 2500);
    assert_eq!(lines[1].text, "b");
    let lyric = Lyric { title: String::new(), artist: String::new(), lines };
    assert_eq!(lyric.get_current_line(2000), Some(0));
    assert_eq!(lyric.get_current_line(3000), Some(1));
}

#[test]
fn current_line_edges() {
    let empty = Lyric::empty();
    assert!(empty.is_empty());
    assert_eq!(empty.get_current_line(0), None);
    let lyric = Lyric {
        title: String::new(),
        artist: String::new(),
        lines: vec![
            LyricLine { time_ms: 5000, text: "x".to_string() },
            LyricLine { time_ms: 9000, text: "y".to_string() },
        ],
    };
    assert!(!lyric.is_empty());
    assert_eq!(lyric.get_current_line(1000), Some(0));
    assert_eq!(lyric.get_current_line(5000), Some(0));
    assert_eq!(lyric.get_current_line(9000), Some(1));
}

#[test]
fn parse_time_values() {
    assert_eq!(parse_time("00:01.00"), Some(1000));
    assert_eq!(parse_time("01:02.345"), Some(62340));
    assert_eq!(parse_time("3:07"), Some(187000));
    assert_eq!(parse_time("00:02.5"), Some(2050));
    assert_eq!(parse_time("00:02.xx"), Some(2000));
    assert_eq!(parse_time("1:2:3"), None);
    assert_eq!(parse_time("ab:01"), None);
    assert_eq!(parse_time("0001"), None);
    assert_eq!(parse_time("-1:00"), None);
}

#[test]
fn parse_lrc_sorts_and_skips() {
    let text = "  [00:03.00] late \r\n[ti:Title]\nno stamp\n\n[00:01.00]early\n[00:03.00]again";
    let lines = parse_lrc(text);
    let got: Vec<(u64, String)> = lines.into_iter().map(|l| (l.time_ms, l.text)).collect();
    assert_eq!(
        got,
        vec![
            (1000, "early".to_string()),
            (3000, "late".to_string()),
            (3000, "again".to_string()),
        ]
    );
}

#[test]
fn entities_are_decoded_in_order() {
    assert_eq!(decode_html_entities("a &amp; b &lt;c&gt; &#39;d&#x27; &copy;"), "a & b <c> 'd' ©");
    assert_eq!(decode_html_entities("&amp;lt;"), "<");
    assert_eq!(decode_html_entities("plain"), "plain");
}

#[test]
fn lyric_from_text_decodes_then_parses() {
    let l = lyric_from_text("[00:01.00]Tom &amp; Jerry");
    assert_eq!(l.title, "");
    assert_eq!(l.lines.len(), 1);
    assert_eq!(l.lines[0].text, "Tom & Jerry");
}

#[test]
fn embedded_lyrics_need_lines() {
    assert!(lyric_from_embedded("t", "a", None).is_none());
    assert!(lyric_from_embedded("t", "a", Some("")).is_none());
    assert!(lyric_from_embedded("t", "a", Some("no stamps here")).is_none());
    let l = lyric_from_embedded("t", "a", Some("[00:00.10]hi")).unwrap();
    assert_eq!(l.title, "t");
    assert_eq!(l.artist, "a");
    assert_eq!(l.lines[0].time_ms, 100);
}

#[test]
fn encoded_lyrics_are_base64_utf8() {
    // "[00:01.00]hi" in standard base64
    let l = lyric_from_encoded("WzAwOjAxLjAwXWhp", "T".to_string(), "A".to_string()).unwrap();
    assert_eq!(l.lines.len(), 1);
    assert_eq!(l.lines[0].time_ms, 1000);
    assert_eq!(l.lines[0].text, "hi");
    assert!(lyric_from_encoded("", "T".to_string(), "A".to_string()).is_none());
    assert!(lyric_from_encoded("!!!", "T".to_string(), "A".to_string()).is_none());
    // 0xff is not UTF-8
    assert!(lyric_from_encoded("/w==", "T".to_string(), "A".to_string()).is_none());
}

#[test]
fn local_lyric_lookup() {
    let names = vec!["song.txt".to_string(), "Other.LRC".to_string(), "song.lrc".to_string()];
    assert_eq!(find_local_lyric("/m/song.mp3", &names), Some("/m/song.lrc".to_string()));
    let names = vec!["x.lrc".to_string(), "My SONG (live).txt".to_string()];
    assert_eq!(
        find_local_lyric("/m/my song.flac", &names),
        Some("/m/My SONG (live).txt".to_string())
    );
    let names = vec!["song.doc".to_string()];
    assert_eq!(find_local_lyric("/m/song.mp3", &names), None);
    assert_eq!(find_local_lyric("/m/", &names), None);
}
