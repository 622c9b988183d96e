//! The styles of terminal output: what the escape sequences in a text make
//! of the text between them.

use ansi_parser::{AnsiParser, AnsiSequence, Output};
use vstd::prelude::*;
use vstd::string::*;
use vstd::utf8::encode_utf8;
use crate::seqs::{lemma_position, lemma_position_bounds, position};
use crate::text::{
    byte_value, chars_of, find_char, is_char, offset_of, parse_byte, split, split_text,
    strip_prefix,
};

verus! {

/// A color that an escape code selects.
#[derive(Debug, Copy, Clone, Hash, PartialEq, Eq, Structural)]
pub enum Color {
    Black,
    Red,
    Green,
    Yellow,
    Blue,
    Magenta,
    Cyan,
    White,
    BrightBlack,
    BrightRed,
    BrightGreen,
    BrightYellow,
    BrightBlue,
    BrightMagenta,
    BrightCyan,
    BrightWhite,
    Rgb(u8, u8, u8),
}

/// How text is drawn.
#[derive(Debug, Copy, Clone, Hash, PartialEq, Eq, Structural)]
pub struct TextStyle {
    pub bold: bool,
    pub dim: bool,
    pub italic: bool,
    pub underline: bool,
    pub blink: bool,
    pub reverse: bool,
    pub hidden: bool,
    pub strikethrough: bool,
}

/// The style and colors of one stretch of text, given by the bytes at which
/// it starts and ends.
#[derive(Debug, Copy, Clone, Hash, PartialEq, Eq, Structural)]
pub struct TextProperty {
    pub start: usize,
    pub end: usize,
    pub style: TextStyle,
    pub fg: Option<Color>,
    pub bg: Option<Color>,
}

/// The stretches of a text, in order.
#[derive(Debug)]
pub struct Parsed {
    pub properties: Vec<TextProperty>,
}

/// What the escape codes met so far ask for: the style and the colors of
/// the text that follows.
#[derive(Debug, Copy, Clone, PartialEq, Eq, Structural)]
pub struct Pen {
    pub style: TextStyle,
    pub fg: Option<Color>,
    pub bg: Option<Color>,
}

impl TextStyle {
    /// The style in which nothing is set.
    pub open spec fn plain() -> TextStyle {
        TextStyle {
            bold: false,
            dim: false,
            italic: false,
            underline: false,
            blink: false,
            reverse: false,
            hidden: false,
            strikethrough: false,
        }
    }
}

impl Default for TextStyle {
    fn default() -> (r: Self)
        ensures
            r == TextStyle::plain(),
    {
        TextStyle {
            bold: false,
            dim: false,
            italic: false,
            underline: false,
            blink: false,
            reverse: false,
            hidden: false,
            strikethrough: false,
        }
    }
}

impl Pen {
    /// The pen before any escape code: plain style, default colors.
    pub open spec fn plain() -> Pen {
        Pen { style: TextStyle::plain(), fg: None, bg: None }
    }

    /// The pen before any escape code.
    pub fn new() -> (r: Self)
        ensures
            r == Pen::plain(),
    {
        Pen { style: TextStyle::default(), fg: None, bg: None }
    }
}

/// The named color of a number from 0 to 15: the eight plain colors, then
/// the eight bright ones.
pub open spec fn named_color(n: int) -> Color {
    if n == 0 {
        Color::Black
    } else if n == 1 {
        Color::Red
    } else if n == 2 {
        Color::Green
    } else if n == 3 {
        Color::Yellow
    } else if n == 4 {
        Color::Blue
    } else if n == 5 {
        Color::Magenta
    } else if n == 6 {
        Color::Cyan
    } else if n == 7 {
        Color::White
    } else if n == 8 {
        Color::BrightBlack
    } else if n == 9 {
        Color::BrightRed
    } else if n == 10 {
        Color::BrightGreen
    } else if n == 11 {
        Color::BrightYellow
    } else if n == 12 {
        Color::BrightBlue
    } else if n == 13 {
        Color::BrightMagenta
    } else if n == 14 {
        Color::BrightCyan
    } else {
        Color::BrightWhite
    }
}

/// The intensity of one of the six steps of the color cube.
pub open spec fn cube_level(step: int) -> int {
    if step > 0 {
        55 + step * 40
    } else {
        0
    }
}

/// The color of a number of the 256-color palette: 0 to 15 are the named
/// colors, 16 to 231 the color cube of six steps a part, 232 to 255 the
/// grays.
pub open spec fn palette_color(n: u8) -> Color {
    if n < 16 {
        named_color(n as int)
    } else if n <= 231 {
        Color::Rgb(
            cube_level((n - 16) / 36) as u8,
            cube_level(((n - 16) % 36) / 6) as u8,
            cube_level((n - 16) % 6) as u8,
        )
    } else {
        Color::Rgb(((n - 232) * 10 + 8) as u8, ((n - 232) * 10 + 8) as u8, ((n - 232) * 10 + 8) as u8)
    }
}

/// The named color of a number from 0 to 15.
pub fn color_of(n: u8) -> (r: Color)
    ensures
        r == named_color(n as int),
{
    match n {
        0 => Color::Black,
        1 => Color::Red,
        2 => Color::Green,
        3 => Color::Yellow,
        4 => Color::Blue,
        5 => Color::Magenta,
        6 => Color::Cyan,
        7 => Color::White,
        8 => Color::BrightBlack,
        9 => Color::BrightRed,
        10 => Color::BrightGreen,
        11 => Color::BrightYellow,
        12 => Color::BrightBlue,
        13 => Color::BrightMagenta,
        14 => Color::BrightCyan,
        _ => Color::BrightWhite,
    }
}

/// The color of a number of the 256-color palette.
pub fn parse_rgb(color: u8) -> (r: Color)
    ensures
        r == palette_color(color),
{
    // 0-15 are regular colors, even in color mode 5
    if color < 16 {
        return color_of(color);
    }
    // extended range of colors
    if color <= 231 {
        let index_r: u8 = (color - 16) / 36;
        let rgb_r: u8 = if index_r > 0 {
            55 + index_r * 40
        } else {
            0
        };
        let index_g: u8 = ((color - 16) % 36) / 6;
        let rgb_g: u8 = if index_g > 0 {
            55 + index_g * 40
        } else {
            0
        };
        let index_b: u8 = (color - 16) % 6;
        let rgb_b: u8 = if index_b > 0 {
            55 + index_b * 40
        } else {
            0
        };
        Color::Rgb(rgb_r, rgb_g, rgb_b)
    } else {
        // grayscale colors from 232-255
        let gray: u8 = (color - 232) * 10 + 8;
        Color::Rgb(gray, gray, gray)
    }
}

/// The pen after one code of a graphics sequence, and `None` for a code
/// that ends the reading of the sequence.
pub open spec fn with_code(pen: Pen, code: u8) -> Option<Pen> {
    if code == 0 {
        Some(Pen::plain())
    } else if code == 1 {
        Some(Pen { style: TextStyle { bold: true, ..pen.style }, ..pen })
    } else if code == 2 {
        Some(Pen { style: TextStyle { dim: true, ..pen.style }, ..pen })
    } else if code == 3 {
        Some(Pen { style: TextStyle { italic: true, ..pen.style }, ..pen })
    } else if code == 4 {
        Some(Pen { style: TextStyle { underline: true, ..pen.style }, ..pen })
    } else if code == 5 {
        Some(Pen { style: TextStyle { blink: true, ..pen.style }, ..pen })
    } else if code == 7 {
        Some(Pen { style: TextStyle { reverse: true, ..pen.style }, ..pen })
    } else if code == 8 {
        Some(Pen { style: TextStyle { hidden: true, ..pen.style }, ..pen })
    } else if code == 9 {
        Some(Pen { style: TextStyle { strikethrough: true, ..pen.style }, ..pen })
    } else if 30 <= code <= 37 {
        Some(Pen { fg: Some(named_color(code - 30)), ..pen })
    } else if code == 39 {
        Some(Pen { fg: None, ..pen })
    } else if 40 <= code <= 47 {
        Some(Pen { bg: Some(named_color(code - 40)), ..pen })
    } else if code == 49 {
        Some(Pen { bg: None, ..pen })
    } else if 90 <= code <= 97 {
        Some(Pen { fg: Some(named_color(code - 90 + 8)), ..pen })
    } else if 100 <= code <= 107 {
        Some(Pen { bg: Some(named_color(code - 100 + 8)), ..pen })
    } else {
        None
    }
}

/// The pen after the codes of a graphics sequence were read one by one, up
/// to the first that ends the reading.
pub open spec fn with_codes(pen: Pen, codes: Seq<u8>) -> Pen
    decreases codes.len(),
{
    if codes.len() == 0 {
        pen
    } else {
        match with_code(pen, codes[0]) {
            Some(next) => with_codes(next, codes.drop_first()),
            None => pen,
        }
    }
}

/// Whether a graphics sequence has the codes that its first ones announce:
/// it is not empty, and where it selects an extended color (38 or 48) it
/// names the kind of color, and the palette number behind kind 5 or the
/// three parts behind kind 2.
pub open spec fn graphics_complete(codes: Seq<u8>) -> bool {
    &&& codes.len() >= 1
    &&& codes[0] == 38 || codes[0] == 48 ==> {
        &&& codes.len() >= 2
        &&& codes[1] == 5 ==> codes.len() >= 3
        &&& codes[1] == 2 ==> codes.len() >= 5
    }
}

/// The pen after the extended color of a graphics sequence, if it selects
/// one: 38 sets the foreground and 48 the background, to the palette color
/// behind kind 5 or to the color of the three parts behind kind 2.
pub open spec fn with_extended_color(pen: Pen, codes: Seq<u8>) -> Pen
    recommends
        graphics_complete(codes),
{
    let color = if codes[1] == 5 {
        Some(palette_color(codes[2]))
    } else if codes[1] == 2 {
        Some(Color::Rgb(codes[2], codes[3], codes[4]))
    } else {
        None
    };
    match color {
        Some(c) => if codes[0] == 38 {
            Pen { fg: Some(c), ..pen }
        } else if codes[0] == 48 {
            Pen { bg: Some(c), ..pen }
        } else {
            pen
        },
        None => pen,
    }
}

/// The pen after a graphics sequence: its extended color is set first, then
/// its codes are read one by one.
pub open spec fn with_graphics(pen: Pen, codes: Seq<u8>) -> Pen
    recommends
        graphics_complete(codes),
{
    with_codes(
        if codes[0] == 38 || codes[0] == 48 {
            with_extended_color(pen, codes)
        } else {
            pen
        },
        codes,
    )
}

/// Reads one code of a graphics sequence. Returns whether the reading goes
/// on; the pen is left as it was where it does not.
pub fn apply_code(pen: &mut Pen, code: u8) -> (more: bool)
    ensures
        match with_code(*old(pen), code) {
            Some(next) => more && *final(pen) == next,
            None => !more && *final(pen) == *old(pen),
        },
{
    match code {
        // reset all modes
        0 => {
            *pen = Pen::new();
        },
        1 => {
            pen.style.bold = true;
        },
        2 => {
            pen.style.dim = true;
        },
        3 => {
            pen.style.italic = true;
        },
        4 => {
            pen.style.underline = true;
        },
        5 => {
            pen.style.blink = true;
        },
        7 => {
            pen.style.reverse = true;
        },
        8 => {
            pen.style.hidden = true;
        },
        9 => {
            pen.style.strikethrough = true;
        },
        30..=37 => {
            pen.fg = Some(color_of(code - 30));
        },
        // default colors
        39 => {
            pen.fg = None;
        },
        40..=47 => {
            pen.bg = Some(color_of(code - 40));
        },
        49 => {
            pen.bg = None;
        },
        90..=97 => {
            pen.fg = Some(color_of(code - 90 + 8));
        },
        100..=107 => {
            pen.bg = Some(color_of(code - 100 + 8));
        },
        _ => {
            return false;
        },
    }
    true
}

/// Applies a graphics sequence to the pen. Returns whether the sequence is
/// complete; the pen is left as it was where it is not.
pub fn apply_graphics(pen: &mut Pen, codes: &Vec<u8>) -> (ok: bool)
    ensures
        ok == graphics_complete(codes@),
        ok ==> *final(pen) == with_graphics(*old(pen), codes@),
        !ok ==> *final(pen) == *old(pen),
{
    if codes.len() == 0 {
        return false;
    }
    if codes[0] == 38 || codes[0] == 48 {
        if codes.len() < 2 || (codes[1] == 5 && codes.len() < 3) || (codes[1] == 2 && codes.len()
            < 5) {
            return false;
        }
        if codes[1] == 5 {
            let color: Color = parse_rgb(codes[2]);
            if codes[0] == 38 {
                pen.fg = Some(color);
            } else {
                pen.bg = Some(color);
            }
        } else if codes[1] == 2 {
            let color: Color = Color::Rgb(codes[2], codes[3], codes[4]);
            if codes[0] == 38 {
                pen.fg = Some(color);
            } else {
                pen.bg = Some(color);
            }
        }
    }
    let ghost start = *pen;
    let mut i: usize = 0;
    assert(codes@.skip(0) =~= codes@);
    while i < codes.len()
        invariant
            i <= codes.len(),
            graphics_complete(codes@),
            with_graphics(*old(pen), codes@) == with_codes(start, codes@),
            with_codes(start, codes@) == with_codes(*pen, codes@.skip(i as int)),
        decreases codes.len() - i,
    {
        proof {
            assert(codes@.skip(i as int).drop_first() =~= codes@.skip(i + 1));
        }
        if !apply_code(pen, codes[i]) {
            return true;
        }
        i += 1;
    }
    true
}

/// Model of a piece of terminal output.
pub enum ChunkModel {
    /// Text between escape sequences, or an escape sequence that was not
    /// understood together with the text behind it.
    Text(Seq<char>),
    /// The codes of a graphics sequence.
    Graphics(Seq<u8>),
    /// A sequence that sets a screen mode.
    SetMode,
    /// A sequence that resets a screen mode.
    ResetMode,
    /// Any other escape sequence.
    Other,
}

/// A piece of terminal output.
#[derive(Debug)]
pub enum Chunk {
    Text(String),
    Graphics(Vec<u8>),
    SetMode,
    ResetMode,
    Other,
}

impl View for Chunk {
    type V = ChunkModel;

    open spec fn view(&self) -> ChunkModel {
        match self {
            Chunk::Text(text) => ChunkModel::Text(text@),
            Chunk::Graphics(codes) => ChunkModel::Graphics(codes@),
            Chunk::SetMode => ChunkModel::SetMode,
            Chunk::ResetMode => ChunkModel::ResetMode,
            Chunk::Other => ChunkModel::Other,
        }
    }
}

/// The models of a list of chunks, in order.
pub open spec fn chunks_model(chunks: Seq<Chunk>) -> Seq<ChunkModel> {
    Seq::new(chunks.len(), |i: int| chunks[i]@)
}

/// The codes of a list of graphics sequences, in order.
pub open spec fn codes_model(list: Seq<Vec<u8>>) -> Seq<Seq<u8>> {
    Seq::new(list.len(), |i: int| list[i]@)
}

/// The pieces into which `ansi_parser` cuts a text.
pub uninterp spec fn parsed_chunks(text: Seq<char>) -> Seq<ChunkModel>;

/// What `strip_ansi_escapes` leaves of a text.
pub uninterp spec fn stripped(text: Seq<char>) -> Seq<char>;

/// Walks the iterator of `ansi_parser::AnsiParser::ansi_parse` and hands
/// out each piece: a text block as text, `SetGraphicsMode` with its codes,
/// `SetMode` and `ResetMode` without their argument, and any other
/// sequence as `Other`. Trusted: that the pieces depend on the text alone,
/// which is all that the name `parsed_chunks` says.
#[verifier::external_body]
fn ansi_chunks(text: &str) -> (r: Vec<Chunk>)
    ensures
        chunks_model(r@) == parsed_chunks(text@),
{
    let mut out = Vec::new();
    for chunk in text.ansi_parse() {
        out.push(match chunk {
            Output::TextBlock(t) => Chunk::Text(t.to_string()),
            Output::Escape(AnsiSequence::SetGraphicsMode(codes)) => Chunk::Graphics(codes.to_vec()),
            Output::Escape(AnsiSequence::SetMode(_)) => Chunk::SetMode,
            Output::Escape(AnsiSequence::ResetMode(_)) => Chunk::ResetMode,
            Output::Escape(_) => Chunk::Other,
        });
    }
    out
}

/// Calls `strip_ansi_escapes::strip` and hands out its bytes as text.
/// Trusted: that what is left depends on the text alone, which is all that
/// the name `stripped` says. The call writes characters into memory, so
/// neither the writing fails nor are the bytes anything but text.
#[verifier::external_body]
fn strip_escapes(text: &str) -> (r: String)
    ensures
        r@ == stripped(text@),
{
    String::from_utf8(strip_ansi_escapes::strip(text).unwrap()).unwrap()
}

/// The character that starts an escape sequence.
pub open spec fn escape() -> char {
    '\u{1b}'
}

/// Whether a code stands for itself in a graphics sequence.
pub open spec fn is_single_code(c: u8) -> bool {
    ||| c <= 5
    ||| 7 <= c <= 9
    ||| 30 <= c <= 37
    ||| c == 39
    ||| 40 <= c <= 47
    ||| c == 49
    ||| 90 <= c <= 97
    ||| 100 <= c <= 107
}

/// The code that a piece of an escape sequence denotes. A piece that
/// begins with the escape character must begin with `ESC [`, which is
/// passed over.
pub open spec fn piece_code(piece: Seq<char>) -> Option<u8> {
    if piece.len() > 0 && piece[0] == escape() {
        if piece.len() > 1 && piece[1] == '[' {
            byte_value(piece.skip(2))
        } else {
            None
        }
    } else {
        byte_value(piece)
    }
}

/// A piece up to its first `m`, which ends a graphics sequence.
pub open spec fn until_m(piece: Seq<char>) -> Seq<char> {
    piece.take(offset_of(piece, 'm') as int)
}

/// `codes` put before the sequences of `rest`.
pub open spec fn and_then_graphics(codes: Seq<u8>, rest: Option<Seq<Seq<u8>>>) -> Option<
    Seq<Seq<u8>>,
> {
    match rest {
        Some(list) => Some(seq![codes] + list),
        None => None,
    }
}

/// The graphics sequences that the pieces from `k` on denote, and `None`
/// where a piece denotes no code or a sequence breaks off. A code that
/// stands for itself makes a sequence of its own; 38 or 48 takes the kind
/// of color from the next piece, and behind kind 5 the palette number,
/// behind kind 2 the three parts of the color, the last of them read up to
/// `m`; behind any other kind the sequence is empty. Any other code makes
/// no sequence.
pub open spec fn embedded(pieces: Seq<Seq<char>>, k: int) -> Option<Seq<Seq<u8>>>
    decreases pieces.len() - k,
{
    if k < 0 || k >= pieces.len() {
        Some(Seq::empty())
    } else {
        match piece_code(pieces[k]) {
            None => None,
            Some(c) => if is_single_code(c) {
                and_then_graphics(seq![c], embedded(pieces, k + 1))
            } else if c == 38 || c == 48 {
                if k + 1 >= pieces.len() {
                    None
                } else {
                    match byte_value(pieces[k + 1]) {
                        None => None,
                        Some(kind) => if kind == 2 {
                            if k + 4 >= pieces.len() {
                                None
                            } else {
                                match (
                                    byte_value(pieces[k + 2]),
                                    byte_value(pieces[k + 3]),
                                    byte_value(until_m(pieces[k + 4])),
                                ) {
                                    (Some(r), Some(g), Some(b)) => and_then_graphics(
                                        seq![c, 2u8, r, g, b],
                                        embedded(pieces, k + 5),
                                    ),
                                    _ => None,
                                }
                            }
                        } else if kind == 5 {
                            if k + 2 >= pieces.len() {
                                None
                            } else {
                                match byte_value(until_m(pieces[k + 2])) {
                                    Some(n) => and_then_graphics(
                                        seq![c, 5u8, n],
                                        embedded(pieces, k + 3),
                                    ),
                                    None => None,
                                }
                            }
                        } else {
                            and_then_graphics(Seq::empty(), embedded(pieces, k + 2))
                        },
                    }
                }
            } else {
                embedded(pieces, k + 1)
            },
        }
    }
}

/// The graphics sequences that stand in a text block that the parser did
/// not understand: the block is cut at each `;` and the pieces are read as
/// codes.
pub open spec fn embedded_graphics(text: Seq<char>) -> Option<Seq<Seq<u8>>> {
    embedded(split(text, ';'), 0)
}

/// The pen after each of the graphics sequences of `list`, and `None` where
/// one of them is not complete.
pub open spec fn with_all_graphics(pen: Pen, list: Seq<Seq<u8>>) -> Option<Pen>
    decreases list.len(),
{
    if list.len() == 0 {
        Some(pen)
    } else if graphics_complete(list[0]) {
        with_all_graphics(with_graphics(pen, list[0]), list.drop_first())
    } else {
        None
    }
}

/// Model of the reading of terminal output: the stretches found so far,
/// the pen, and the number of bytes of shown text so far.
pub struct ReadingModel {
    pub properties: Seq<TextProperty>,
    pub pen: Pen,
    pub text_counter: usize,
}

/// The reading of terminal output.
#[derive(Debug)]
pub struct Reading {
    pub properties: Vec<TextProperty>,
    pub pen: Pen,
    pub text_counter: usize,
}

impl View for Reading {
    type V = ReadingModel;

    open spec fn view(&self) -> ReadingModel {
        ReadingModel {
            properties: self.properties@,
            pen: self.pen,
            text_counter: self.text_counter,
        }
    }
}

/// The reading before any output.
pub open spec fn start_of_reading() -> ReadingModel {
    ReadingModel { properties: Seq::empty(), pen: Pen::plain(), text_counter: 0 }
}

/// The text of a block as it is shown: a block that holds the escape
/// character is shown without its escape sequences.
pub open spec fn shown_text(text: Seq<char>) -> Seq<char> {
    if text.contains(escape()) {
        stripped(text)
    } else {
        text
    }
}

/// The pen behind a text block: the graphics sequences that stand in a
/// block with the escape character are applied, and `None` where they
/// cannot be read.
pub open spec fn pen_after_text(pen: Pen, text: Seq<char>) -> Option<Pen> {
    if text.contains(escape()) {
        match embedded_graphics(text) {
            Some(list) => with_all_graphics(pen, list),
            None => None,
        }
    } else {
        Some(pen)
    }
}

/// The reading after a block of `len` bytes of shown text, written with
/// `pen`: the block is a stretch of its own unless it ends at byte 0.
/// `None` where the bytes cannot be counted in a `usize`.
pub open spec fn after_stretch(reading: ReadingModel, pen: Pen, len: usize) -> Option<
    ReadingModel,
> {
    if reading.text_counter + len > usize::MAX {
        None
    } else {
        let end = (reading.text_counter + len) as usize;
        let property = TextProperty {
            start: reading.text_counter,
            end,
            style: pen.style,
            fg: pen.fg,
            bg: pen.bg,
        };
        Some(
            ReadingModel {
                properties: if end > 0 {
                    reading.properties.push(property)
                } else {
                    reading.properties
                },
                pen,
                text_counter: end,
            },
        )
    }
}

/// The reading after one more chunk, and `None` for a chunk that cannot be
/// read: a sequence that sets or resets a screen mode, a graphics sequence
/// that is not complete, a text block whose graphics sequences cannot be
/// read or whose bytes cannot be counted.
pub open spec fn after_chunk(reading: ReadingModel, chunk: ChunkModel) -> Option<ReadingModel> {
    match chunk {
        ChunkModel::Text(text) => match pen_after_text(reading.pen, text) {
            Some(pen) => after_stretch(reading, pen, encode_utf8(shown_text(text)).len() as usize),
            None => None,
        },
        ChunkModel::Graphics(codes) => if graphics_complete(codes) {
            Some(ReadingModel { pen: with_graphics(reading.pen, codes), ..reading })
        } else {
            None
        },
        ChunkModel::SetMode => None,
        ChunkModel::ResetMode => None,
        ChunkModel::Other => Some(reading),
    }
}

/// The reading after the chunks `chunks`, in order, and `None` where one of
/// them cannot be read.
pub open spec fn after_chunks(reading: ReadingModel, chunks: Seq<ChunkModel>) -> Option<
    ReadingModel,
>
    decreases chunks.len(),
{
    if chunks.len() == 0 {
        Some(reading)
    } else {
        match after_chunks(reading, chunks.drop_last()) {
            Some(before) => after_chunk(before, chunks.last()),
            None => None,
        }
    }
}

/// The stretches of a terminal output, and `None` where it cannot be read.
pub open spec fn parse_result(text: Seq<char>) -> Option<Seq<TextProperty>> {
    match after_chunks(start_of_reading(), parsed_chunks(text)) {
        Some(reading) => Some(reading.properties),
        None => None,
    }
}

/// Whether the stretches of a reading lie one behind the other: the first
/// starts at byte 0, each starts where the one before it ends, none ends
/// before it starts, and the last ends at the number of bytes read.
pub open spec fn contiguous(reading: ReadingModel) -> bool {
    let stretches = reading.properties;
    &&& forall|i: int| 0 <= i < stretches.len() ==> (#[trigger] stretches[i]).start <= stretches[i].end
    &&& forall|i: int|
        0 <= i < stretches.len() - 1 ==> (#[trigger] stretches[i]).end == stretches[i + 1].start
    &&& stretches.len() > 0 ==> stretches[0].start == 0
    &&& stretches.len() > 0 ==> stretches.last().end == reading.text_counter
    &&& stretches.len() == 0 ==> reading.text_counter == 0
}

/// Stretches stay one behind the other, whatever chunk is read.
pub proof fn lemma_chunk_keeps_contiguous(reading: ReadingModel, chunk: ChunkModel)
    requires
        contiguous(reading),
        after_chunk(reading, chunk) is Some,
    ensures
        contiguous(after_chunk(reading, chunk)->Some_0),
{
    let next = after_chunk(reading, chunk)->Some_0;
    match chunk {
        ChunkModel::Text(text) => {
            let old_stretches = reading.properties;
            let stretches = next.properties;
            if stretches.len() > old_stretches.len() {
                assert forall|i: int| 0 <= i < stretches.len() - 1 implies (
                #[trigger] stretches[i]).end == stretches[i + 1].start by {
                    if i < old_stretches.len() - 1 {
                        assert(stretches[i] == old_stretches[i]);
                        assert(stretches[i + 1] == old_stretches[i + 1]);
                    } else {
                        assert(stretches[i] == old_stretches.last());
                    }
                }
            }
        },
        _ => {},
    }
}

/// The stretches of a terminal output lie one behind the other.
pub proof fn lemma_chunks_keep_contiguous(reading: ReadingModel, chunks: Seq<ChunkModel>)
    requires
        contiguous(reading),
        after_chunks(reading, chunks) is Some,
    ensures
        contiguous(after_chunks(reading, chunks)->Some_0),
    decreases chunks.len(),
{
    if chunks.len() > 0 {
        lemma_chunks_keep_contiguous(reading, chunks.drop_last());
        lemma_chunk_keeps_contiguous(after_chunks(reading, chunks.drop_last())->Some_0, chunks.last());
    }
}

/// `list` put before the sequences of `rest`.
pub open spec fn and_then_all(list: Seq<Seq<u8>>, rest: Option<Seq<Seq<u8>>>) -> Option<
    Seq<Seq<u8>>,
> {
    match rest {
        Some(more) => Some(list + more),
        None => None,
    }
}

/// The code that a piece of an escape sequence denotes.
pub fn code_of_piece(piece: &str) -> (r: Option<u8>)
    ensures
        r == piece_code(piece@),
{
    let text: Vec<char> = chars_of(piece);
    if text.len() > 0 && text[0] == '\u{1b}' {
        if text.len() > 1 && text[1] == '[' {
            let rest: &str = piece.substring_char(2, text.len());
            assert(rest@ =~= piece@.skip(2));
            parse_byte(rest)
        } else {
            None
        }
    } else {
        parse_byte(piece)
    }
}

/// The number that a piece denotes up to its first `m`.
pub fn byte_until_m(piece: &str) -> (r: Option<u8>)
    ensures
        r == byte_value(until_m(piece@)),
{
    proof {
        lemma_position_bounds(piece@, is_char('m'));
    }
    match find_char(piece, 'm') {
        Some(k) => {
            let head: &str = piece.substring_char(0, k);
            assert(head@ =~= piece@.take(k as int));
            parse_byte(head)
        },
        None => {
            assert(piece@.take(piece@.len() as int) =~= piece@);
            parse_byte(piece)
        },
    }
}

/// The graphics sequences that stand in a text block.
pub fn embedded_codes(text: &str) -> (r: Option<Vec<Vec<u8>>>)
    ensures
        match r {
            Some(list) => embedded_graphics(text@) == Some(codes_model(list@)),
            None => embedded_graphics(text@) is None,
        },
{
    let pieces: Vec<&str> = split_text(text, ';');
    let ghost all = pieces.deep_view();
    let mut out: Vec<Vec<u8>> = Vec::new();
    let mut k: usize = 0;
    assert(and_then_all(codes_model(out@), embedded(all, 0)) == embedded(all, 0)) by {
        match embedded(all, 0) {
            Some(more) => {
                assert(codes_model(out@) + more =~= more);
            },
            None => {},
        }
    }
    while k < pieces.len()
        invariant
            k <= pieces.len(),
            all == pieces.deep_view(),
            all == split(text@, ';'),
            embedded(all, 0) == and_then_all(codes_model(out@), embedded(all, k as int)),
        decreases pieces.len() - k,
    {
        let ghost before = codes_model(out@);
        let code: u8 = match code_of_piece(pieces[k]) {
            Some(c) => c,
            None => {
                return None;
            },
        };
        let single: bool = code <= 5 || (7 <= code && code <= 9) || (30 <= code && code <= 37)
            || code == 39 || (40 <= code && code <= 47) || code == 49 || (90 <= code && code <= 97)
            || (100 <= code && code <= 107);
        if single {
            let mut codes: Vec<u8> = Vec::new();
            codes.push(code);
            out.push(codes);
            proof {
                assert(codes_model(out@) =~= before.push(seq![code]));
                lemma_and_then(before, seq![code], embedded(all, k + 1));
            }
            k += 1;
        } else if code == 38 || code == 48 {
            if pieces.len() - k < 2 {
                return None;
            }
            let kind: u8 = match parse_byte(pieces[k + 1]) {
                Some(kind) => kind,
                None => {
                    return None;
                },
            };
            let mut codes: Vec<u8> = Vec::new();
            if kind == 2 {
                if pieces.len() - k < 5 {
                    return None;
                }
                let r: Option<u8> = parse_byte(pieces[k + 2]);
                let g: Option<u8> = parse_byte(pieces[k + 3]);
                let b: Option<u8> = byte_until_m(pieces[k + 4]);
                match (r, g, b) {
                    (Some(r), Some(g), Some(b)) => {
                        codes.push(code);
                        codes.push(kind);
                        codes.push(r);
                        codes.push(g);
                        codes.push(b);
                        assert(codes@ =~= seq![code, 2u8, r, g, b]);
                        out.push(codes);
                        proof {
                            assert(codes_model(out@) =~= before.push(seq![code, 2u8, r, g, b]));
                            lemma_and_then(before, seq![code, 2u8, r, g, b], embedded(all, k + 5));
                        }
                        k += 5;
                    },
                    _ => {
                        return None;
                    },
                }
            } else if kind == 5 {
                if pieces.len() - k < 3 {
                    return None;
                }
                match byte_until_m(pieces[k + 2]) {
                    Some(n) => {
                        codes.push(code);
                        codes.push(kind);
                        codes.push(n);
                        assert(codes@ =~= seq![code, 5u8, n]);
                        out.push(codes);
                        proof {
                            assert(codes_model(out@) =~= before.push(seq![code, 5u8, n]));
                            lemma_and_then(before, seq![code, 5u8, n], embedded(all, k + 3));
                        }
                        k += 3;
                    },
                    None => {
                        return None;
                    },
                }
            } else {
                assert(codes@ =~= Seq::<u8>::empty());
                out.push(codes);
                proof {
                    assert(codes_model(out@) =~= before.push(Seq::<u8>::empty()));
                    lemma_and_then(before, Seq::<u8>::empty(), embedded(all, k + 2));
                }
                k += 2;
            }
        } else {
            k += 1;
        }
    }
    proof {
        assert(codes_model(out@) + Seq::<Seq<u8>>::empty() =~= codes_model(out@));
    }
    Some(out)
}

/// Putting one sequence and then the rest behind a list is putting the
/// rest behind the list with the sequence at its end.
pub proof fn lemma_and_then(list: Seq<Seq<u8>>, codes: Seq<u8>, rest: Option<Seq<Seq<u8>>>)
    ensures
        and_then_all(list, and_then_graphics(codes, rest)) == and_then_all(list.push(codes), rest),
{
    match rest {
        Some(more) => {
            assert(list + (seq![codes] + more) =~= list.push(codes) + more);
        },
        None => {},
    }
}

/// Applies each of the graphics sequences of `list` to the pen. Returns
/// whether all of them are complete; the pen is left as it was where one
/// is not.
pub fn apply_all_graphics(pen: &mut Pen, list: &Vec<Vec<u8>>) -> (ok: bool)
    ensures
        match with_all_graphics(*old(pen), codes_model(list@)) {
            Some(next) => ok && *final(pen) == next,
            None => !ok && *final(pen) == *old(pen),
        },
{
    let ghost all = codes_model(list@);
    let mut next: Pen = *pen;
    let mut i: usize = 0;
    assert(all.skip(0) =~= all);
    while i < list.len()
        invariant
            i <= list.len(),
            all == codes_model(list@),
            *pen == *old(pen),
            with_all_graphics(*old(pen), all) == with_all_graphics(next, all.skip(i as int)),
        decreases list.len() - i,
    {
        proof {
            assert(all.skip(i as int).drop_first() =~= all.skip(i + 1));
            assert(all.skip(i as int)[0] == list[i as int]@);
        }
        if !apply_graphics(&mut next, &list[i]) {
            return false;
        }
        i += 1;
    }
    *pen = next;
    true
}

/// Whether a text holds the escape character.
pub fn has_escape(text: &str) -> (r: bool)
    ensures
        r == text@.contains(escape()),
{
    proof {
        lemma_position_bounds(text@, is_char(escape()));
    }
    match find_char(text, '\u{1b}') {
        Some(k) => {
            assert(text@[k as int] == escape());
            true
        },
        None => {
            assert forall|i: int| 0 <= i < text@.len() implies text@[i] != escape() by {}
            false
        },
    }
}

/// Reads one more chunk. Returns whether it can be read; the reading is
/// left as it was where it cannot.
pub fn process_chunk(chunk: Chunk, reading: &mut Reading) -> (ok: bool)
    ensures
        match after_chunk(old(reading)@, chunk@) {
            Some(next) => ok && final(reading)@ == next,
            None => !ok && *final(reading) == *old(reading),
        },
{
    match chunk {
        Chunk::Text(text) => {
            let mut pen: Pen = reading.pen;
            let len: usize;
            if has_escape(text.as_str()) {
                // graphics sequences that the parser left in the text
                match embedded_codes(text.as_str()) {
                    Some(list) => {
                        if !apply_all_graphics(&mut pen, &list) {
                            return false;
                        }
                    },
                    None => {
                        return false;
                    },
                }
                let shown: String = strip_escapes(text.as_str());
                len = shown.as_str().len();
            } else {
                len = text.as_str().len();
            }
            if len > usize::MAX - reading.text_counter {
                return false;
            }
            let property = TextProperty {
                start: reading.text_counter,
                end: reading.text_counter + len,
                style: pen.style,
                fg: pen.fg,
                bg: pen.bg,
            };
            if property.end > 0 {
                reading.properties.push(property);
            }
            reading.pen = pen;
            reading.text_counter = reading.text_counter + len;
            true
        },
        Chunk::Graphics(codes) => apply_graphics(&mut reading.pen, &codes),
        Chunk::SetMode => false,
        Chunk::ResetMode => false,
        Chunk::Other => true,
    }
}

/// Reads the chunks of a terminal output, in order. Returns the stretches,
/// and `None` where a chunk cannot be read.
pub fn read_chunks(chunks: Vec<Chunk>) -> (r: Option<Parsed>)
    ensures
        match r {
            Some(parsed) => after_chunks(start_of_reading(), chunks_model(chunks@)) is Some
                && after_chunks(start_of_reading(), chunks_model(chunks@))->Some_0.properties
                == parsed.properties@,
            None => after_chunks(start_of_reading(), chunks_model(chunks@)) is None,
        },
{
    let ghost all = chunks_model(chunks@);
    let mut reading = Reading { properties: Vec::new(), pen: Pen::new(), text_counter: 0 };
    assert(all.take(0) =~= Seq::<ChunkModel>::empty());
    for chunk in it: chunks
        invariant
            it.seq() == chunks@,
            all == chunks_model(chunks@),
            after_chunks(start_of_reading(), all.take(it.index() as int)) == Some(reading@),
    {
        let ghost k = it.index() as int;
        proof {
            assert(all.take(k + 1).drop_last() =~= all.take(k));
            assert(all.take(k + 1).last() == chunk@);
        }
        if !process_chunk(chunk, &mut reading) {
            proof {
                lemma_after_chunks_fails(start_of_reading(), all, k + 1);
            }
            return None;
        }
    }
    assert(all.take(chunks@.len() as int) =~= all);
    Some(Parsed { properties: reading.properties })
}

/// A reading that cannot get past some of the chunks cannot get past all
/// of them.
pub proof fn lemma_after_chunks_fails(reading: ReadingModel, chunks: Seq<ChunkModel>, k: int)
    requires
        0 <= k <= chunks.len(),
        after_chunks(reading, chunks.take(k)) is None,
    ensures
        after_chunks(reading, chunks) is None,
    decreases chunks.len() - k,
{
    if k < chunks.len() {
        assert(chunks.take(k + 1).drop_last() =~= chunks.take(k));
        lemma_after_chunks_fails(reading, chunks, k + 1);
    } else {
        assert(chunks.take(k) =~= chunks);
    }
}

/// The stretches of a terminal output: for each block of text the bytes at
/// which it starts and ends in the text as it is shown, and the style and
/// colors that the escape sequences before it ask for. `None` where the
/// output holds a sequence that cannot be read.
pub fn parse(text: &str) -> (r: Option<Parsed>)
    ensures
        match r {
            Some(parsed) => parse_result(text@) == Some(parsed.properties@),
            None => parse_result(text@) is None,
        },
{
    read_chunks(ansi_chunks(text))
}

} // verus!
