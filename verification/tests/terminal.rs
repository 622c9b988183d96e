use cargo_player::terminal::{
    apply_all_graphics, apply_code, apply_graphics, byte_until_m, code_of_piece, color_of,
    embedded_codes, has_escape, parse, parse_rgb, process_chunk, read_chunks, Chunk, Color, Pen,
    Reading, TextProperty, TextStyle,
};
use cargo_player::text::{parse_byte, split_text};

fn plain() -> TextStyle {
    TextStyle::default()
}

fn stretch(start: usize, end: usize, style: TextStyle, fg: Option<Color>, bg: Option<Color>) -> TextProperty {
    TextProperty {
        start,
        end,
        style,
        fg,
        bg,
    }
}

fn stretches(text: &str) -> Vec<TextProperty> {
    parse(text).unwrap().properties
}

#[test]
fn palette_colors() {
    assert_eq!(Color::Black, parse_rgb(0));
    assert_eq!(Color::White, parse_rgb(7));
    assert_eq!(Color::BrightBlack, parse_rgb(8));
    assert_eq!(Color::BrightRed, parse_rgb(9));
    assert_eq!(Color::BrightWhite, parse_rgb(15));
    assert_eq!(Color::Rgb(0, 0, 0), parse_rgb(16));
    assert_eq!(Color::Rgb(0, 0, 95), parse_rgb(17));
    assert_eq!(Color::Rgb(0, 0, 255), parse_rgb(21));
    assert_eq!(Color::Rgb(0, 95, 0), parse_rgb(22));
    assert_eq!(Color::Rgb(95, 0, 0), parse_rgb(52));
    assert_eq!(Color::Rgb(135, 175, 215), parse_rgb(110));
    assert_eq!(Color::Rgb(255, 0, 0), parse_rgb(196));
    assert_eq!(Color::Rgb(255, 255, 255), parse_rgb(231));
    assert_eq!(Color::Rgb(8, 8, 8), parse_rgb(232));
    assert_eq!(Color::Rgb(18, 18, 18), parse_rgb(233));
    assert_eq!(Color::Rgb(238, 238, 238), parse_rgb(255));
    assert_eq!(Color::Green, color_of(2));
    assert_eq!(Color::BrightCyan, color_of(14));
}

#[test]
fn codes_set_style_and_colors() {
    let mut pen = Pen::new();
    for code in [1, 2, 3, 4, 5, 7, 8, 9, 31, 44] {
        assert!(apply_code(&mut pen, code));
    }
    let all = TextStyle {
        bold: true,
        dim: true,
        italic: true,
        underline: true,
        blink: true,
        reverse: true,
        hidden: true,
        strikethrough: true,
    };
    assert_eq!(
        Pen {
            style: all,
            fg: Some(Color::Red),
            bg: Some(Color::Blue)
        },
        pen
    );
    assert!(apply_code(&mut pen, 97));
    assert!(apply_code(&mut pen, 100));
    assert_eq!(Some(Color::BrightWhite), pen.fg);
    assert_eq!(Some(Color::BrightBlack), pen.bg);
    assert!(apply_code(&mut pen, 39));
    assert_eq!(None, pen.fg);
    assert!(apply_code(&mut pen, 49));
    assert_eq!(None, pen.bg);
    assert_eq!(all, pen.style);
    for code in [6, 10, 22, 29, 38, 48, 50, 89, 98, 99, 108, 255] {
        let before = pen;
        assert!(!apply_code(&mut pen, code), "{}", code);
        assert_eq!(before, pen);
    }
    assert!(apply_code(&mut pen, 0));
    assert_eq!(Pen::new(), pen);
}

#[test]
fn graphics_sequences() {
    let mut pen = Pen::new();
    assert!(apply_graphics(&mut pen, &vec![1, 32, 6, 4]));
    assert!(pen.style.bold);
    assert!(!pen.style.underline);
    assert_eq!(Some(Color::Green), pen.fg);

    assert!(apply_graphics(&mut pen, &vec![38, 5, 196]));
    assert_eq!(Some(Color::Rgb(255, 0, 0)), pen.fg);
    assert!(apply_graphics(&mut pen, &vec![48, 2, 1, 2, 3]));
    assert_eq!(Some(Color::Rgb(1, 2, 3)), pen.bg);
    assert!(apply_graphics(&mut pen, &vec![38, 7]));
    assert_eq!(Some(Color::Rgb(255, 0, 0)), pen.fg);
    assert!(pen.style.bold);

    for codes in [vec![], vec![38], vec![48, 5], vec![38, 2, 1, 2], vec![48, 2]] {
        let before = pen;
        assert!(!apply_graphics(&mut pen, &codes), "{:?}", codes);
        assert_eq!(before, pen);
    }

    assert!(apply_all_graphics(&mut pen, &vec![vec![0], vec![3], vec![38, 5, 2]]));
    assert_eq!(
        Pen {
            style: TextStyle {
                italic: true,
                ..plain()
            },
            fg: Some(Color::Green),
            bg: None
        },
        pen
    );
    let before = pen;
    assert!(!apply_all_graphics(&mut pen, &vec![vec![1], vec![]]));
    assert_eq!(before, pen);
}

#[test]
fn plain_text_is_one_stretch() {
    assert_eq!(vec![stretch(0, 5, plain(), None, None)], stretches("hello"));
    assert_eq!(vec![stretch(0, 3, plain(), None, None)], stretches("é\n"));
    assert!(stretches("").is_empty());
}

#[test]
fn sequences_style_the_text_behind_them() {
    let bold = TextStyle {
        bold: true,
        ..plain()
    };
    assert_eq!(
        vec![
            stretch(0, 3, plain(), None, None),
            stretch(3, 7, bold, Some(Color::Red), None),
            stretch(7, 10, plain(), None, None),
        ],
        stretches("one\u{1b}[1;31mbold\u{1b}[0mend")
    );
    assert_eq!(
        vec![stretch(0, 1, plain(), Some(Color::Rgb(255, 0, 0)), Some(Color::Rgb(1, 2, 3)))],
        stretches("\u{1b}[38;5;196m\u{1b}[48;2;1;2;3mX")
    );
    assert_eq!(
        vec![stretch(0, 1, plain(), None, None)],
        stretches("\u{1b}[2J\u{1b}[sx\u{1b}[u")
    );
    assert!(stretches("\u{1b}[1m\u{1b}[4m").is_empty());
}

#[test]
fn sequences_left_in_the_text_are_read() {
    let bold = TextStyle {
        bold: true,
        ..plain()
    };
    assert_eq!(
        vec![stretch(0, 5, bold, Some(Color::BrightRed), None)],
        stretches("\u{1b}[1;38;5;9merror")
    );
    assert_eq!(
        vec![
            stretch(0, 2, plain(), None, None),
            stretch(2, 6, bold, None, Some(Color::Rgb(10, 20, 30))),
        ],
        stretches("ok\u{1b}[0;1;48;2;10;20;30mdone")
    );
}

#[test]
fn output_that_cannot_be_read() {
    assert!(parse("\u{1b}[0Kx").is_none());
    assert!(parse("\u{1b}[=1h").is_none());
    assert!(parse("\u{1b}[=1l").is_none());
    assert!(parse("\u{1b}[m").is_none());
    assert!(parse("\u{1b}[38m").is_none());
    assert!(parse("\u{1b}[1;2;3;4mtext").is_none());
    assert!(parse("text\u{1b}").is_none());
    assert!(parse("\u{1b}Mx").is_none());
}

#[test]
fn chunks_given_by_hand() {
    let chunks = vec![
        Chunk::Text("ab".to_string()),
        Chunk::Other,
        Chunk::Graphics(vec![4]),
        Chunk::Text(String::new()),
        Chunk::Text("c".to_string()),
    ];
    let underline = TextStyle {
        underline: true,
        ..plain()
    };
    assert_eq!(
        vec![
            stretch(0, 2, plain(), None, None),
            stretch(2, 2, underline, None, None),
            stretch(2, 3, underline, None, None),
        ],
        read_chunks(chunks).unwrap().properties
    );
    assert!(read_chunks(vec![Chunk::Text(String::new())]).unwrap().properties.is_empty());
    assert!(read_chunks(vec![Chunk::Text("a".to_string()), Chunk::SetMode]).is_none());
    assert!(read_chunks(vec![Chunk::ResetMode]).is_none());
    assert!(read_chunks(vec![Chunk::Graphics(vec![])]).is_none());
    assert!(read_chunks(vec![]).unwrap().properties.is_empty());
}

#[test]
fn bytes_that_cannot_be_counted() {
    let mut reading = Reading {
        properties: vec![],
        pen: Pen::new(),
        text_counter: usize::MAX - 1,
    };
    assert!(process_chunk(Chunk::Text("a".to_string()), &mut reading));
    assert_eq!(usize::MAX, reading.text_counter);
    assert!(!process_chunk(Chunk::Text("a".to_string()), &mut reading));
    assert_eq!(usize::MAX, reading.text_counter);
    assert_eq!(1, reading.properties.len());
    assert!(process_chunk(Chunk::Text(String::new()), &mut reading));
    assert_eq!(2, reading.properties.len());
}

#[test]
fn codes_embedded_in_text() {
    assert_eq!(Some(vec![vec![1], vec![38, 5, 9]]), embedded_codes("\u{1b}[1;38;5;9merror"));
    assert_eq!(None, embedded_codes("\u{1b}[1;38;5;9merror;x"));
    assert_eq!(Some(vec![vec![48, 2, 1, 2, 3], vec![0]]), embedded_codes("48;2;1;2;3mtext;6;0"));
    assert_eq!(Some(vec![vec![], vec![7]]), embedded_codes("38;9;7"));
    assert_eq!(Some(vec![]), embedded_codes("6"));
    assert_eq!(None, embedded_codes(""));
    assert_eq!(None, embedded_codes("1;"));
    assert_eq!(None, embedded_codes("1;x"));
    assert_eq!(None, embedded_codes("38"));
    assert_eq!(None, embedded_codes("38;5"));
    assert_eq!(None, embedded_codes("38;2;1;2"));
    assert_eq!(None, embedded_codes("38;2;1;2;m"));
    assert_eq!(None, embedded_codes("38;5;256m"));
    assert_eq!(None, embedded_codes("\u{1b}1"));
    assert_eq!(None, embedded_codes("1;\u{1b}2"));
    assert_eq!(Some(vec![vec![1], vec![2]]), embedded_codes("1;\u{1b}[2"));
}

#[test]
fn pieces_of_sequences() {
    assert_eq!(Some(38), code_of_piece("\u{1b}[38"));
    assert_eq!(Some(3), code_of_piece("+3"));
    assert_eq!(None, code_of_piece("\u{1b}38"));
    assert_eq!(None, code_of_piece("\u{1b}"));
    assert_eq!(None, code_of_piece("\u{1b}["));
    assert_eq!(None, code_of_piece(" 3"));
    assert_eq!(Some(9), byte_until_m("9merror"));
    assert_eq!(Some(9), byte_until_m("9"));
    assert_eq!(Some(1), byte_until_m("1m2m"));
    assert_eq!(None, byte_until_m("merror"));
    assert_eq!(None, byte_until_m("9 m"));
    assert!(has_escape("a\u{1b}"));
    assert!(!has_escape("a[0m"));
    assert!(!has_escape(""));
}

#[test]
fn byte_parsing_agrees_with_std() {
    for text in [
        "", "0", "7", "007", "255", "256", "0255", "+0", "+255", "+256", "+", "-1", "-0", "++1",
        "1+", " 1", "1 ", "1a", "a1", "12345678901234567890", "٣", "1٣", "0x10", "99999999999",
        "000000000000000000000000000001",
    ] {
        assert_eq!(text.parse::<u8>().ok(), parse_byte(text), "{:?}", text);
    }
    for n in 0..=300u32 {
        let text = n.to_string();
        assert_eq!(text.parse::<u8>().ok(), parse_byte(&text));
    }
}

#[test]
fn splitting_agrees_with_std() {
    for text in ["", ";", "a", "a;b", ";a;;b;", "é;ü", "a;b;c;d;e", ";;"] {
        assert_eq!(
            text.split(';').collect::<Vec<_>>(),
            split_text(text, ';'),
            "{:?}",
            text
        );
    }
    assert_eq!(vec!["a", "", "b"], split_text("a;;b", ';'));
}
