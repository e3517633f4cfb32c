use codex_session::palette::apply_palette_responses;
use codex_session::palette::default_bg;
use codex_session::palette::default_colors;
use codex_session::palette::default_fg;
use codex_session::palette::parse_osc_color;
use codex_session::palette::terminal_palette;
use codex_session::palette::DefaultColors;

#[test]
fn palette_answers_fill_slots() {
    let mut palette = [None; 256];
    let mut buffer = b"junk\x1b]4;1;rgb:ffff/0000/8080\x07\x1b]4;2;rgba:ff/00/80/ff\x1b\\\x1b]4;3;rgb:1".to_vec();
    let n = apply_palette_responses(&mut buffer, &mut palette);
    assert_eq!(n, 2);
    assert_eq!(palette[1], Some((255, 0, 128)));
    assert_eq!(palette[2], Some((255, 0, 128)));
    assert_eq!(palette[3], None);
    // the incomplete answer waits for more bytes
    assert_eq!(buffer, b"\x1b]4;3;rgb:1".to_vec());
}

#[test]
fn repeated_and_invalid_answers_fill_nothing() {
    let mut palette = [None; 256];
    palette[5] = Some((1, 2, 3));
    let mut buffer = b"\x1b]4;5;rgb:ff/ff/ff\x07\x1b]4;256;rgb:ff/ff/ff\x07\x1b]4;7;hsv:1/2/3\x07".to_vec();
    assert_eq!(apply_palette_responses(&mut buffer, &mut palette), 0);
    assert_eq!(palette[5], Some((1, 2, 3)));
    assert!(buffer.is_empty());
}

#[test]
fn channel_scaling_rounds() {
    let mut palette = [None; 256];
    let mut buffer = b"\x1b]4;0;rgb:8/80/800\x07\x1b]4; +9 ;rgb: f / 7fff /0\x07".to_vec();
    assert_eq!(apply_palette_responses(&mut buffer, &mut palette), 2);
    // 8/15, 128/255, 2048/4095 of 255
    assert_eq!(palette[0], Some((136, 128, 128)));
    assert_eq!(palette[9], Some((255, 127, 0)));
}

#[test]
fn complete_palette_only() {
    let mut palette = [Some((0u8, 0u8, 0u8)); 256];
    palette[255] = Some((9, 9, 9));
    let full = terminal_palette(&palette).unwrap();
    assert_eq!(full[255], (9, 9, 9));
    palette[17] = None;
    assert_eq!(terminal_palette(&palette), None);
}

#[test]
fn default_colors_from_answers() {
    let buffer = b"\x1b]10;rgb:ffff/ffff/ffff\x07\x1b]11;rgb:0000/0000/0000\x1b\\";
    let colors = default_colors(buffer).unwrap();
    assert_eq!(colors, DefaultColors { fg: (255, 255, 255), bg: (0, 0, 0) });
    assert_eq!(default_fg(Some(colors)), Some((255, 255, 255)));
    assert_eq!(default_bg(Some(colors)), Some((0, 0, 0)));
    assert_eq!(default_fg(None), None);
}

#[test]
fn last_answer_wins_and_echoed_query_has_no_color() {
    let buffer = b"\x1b]11;rgb:00/00/00\x07\x1b]11;rgb:ff/00/00\x07";
    assert_eq!(parse_osc_color(buffer, 11), Some((255, 0, 0)));
    assert_eq!(parse_osc_color(b"\x1b]10;?\x07", 10), None);
    assert_eq!(parse_osc_color(b"\x1b]10;rgb:ff/ff/ff", 10), None);
    assert_eq!(parse_osc_color(b"\x1b]12;rgb:ff/ff/ff\x07", 12), None);
    assert_eq!(default_colors(b"\x1b]10;rgb:ff/ff/ff\x07"), None);
}
