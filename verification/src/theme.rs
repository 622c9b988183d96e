//! The colors of the terminal.

use vstd::prelude::*;
use crate::terminal::Color;

verus! {

/// A color by its red, green and blue parts.
#[derive(Debug, Copy, Clone, Hash, PartialEq, Eq, Structural)]
pub struct Rgb(pub u8, pub u8, pub u8);

impl Default for Rgb {
    fn default() -> (r: Self)
        ensures
            r == Rgb(0, 0, 0),
    {
        Rgb(0, 0, 0)
    }
}

/// The sixteen colors that escape codes name.
#[derive(Debug, Copy, Clone, Hash, PartialEq, Eq, Structural)]
pub struct AnsiColors {
    pub black: Rgb,
    pub red: Rgb,
    pub green: Rgb,
    pub yellow: Rgb,
    pub blue: Rgb,
    pub magenta: Rgb,
    pub cyan: Rgb,
    pub white: Rgb,
    pub bright_black: Rgb,
    pub bright_red: Rgb,
    pub bright_green: Rgb,
    pub bright_yellow: Rgb,
    pub bright_blue: Rgb,
    pub bright_magenta: Rgb,
    pub bright_cyan: Rgb,
    pub bright_white: Rgb,
}

impl AnsiColors {
    /// The colors as they come without any setting.
    pub open spec fn standard() -> AnsiColors {
        AnsiColors {
            black: Rgb(12, 12, 12),
            red: Rgb(197, 15, 31),
            green: Rgb(19, 161, 14),
            yellow: Rgb(193, 156, 0),
            blue: Rgb(0, 55, 218),
            magenta: Rgb(136, 23, 152),
            cyan: Rgb(58, 150, 221),
            white: Rgb(204, 204, 204),
            bright_black: Rgb(118, 118, 118),
            bright_red: Rgb(231, 72, 86),
            bright_green: Rgb(22, 198, 12),
            bright_yellow: Rgb(249, 241, 165),
            bright_blue: Rgb(59, 120, 255),
            bright_magenta: Rgb(180, 0, 158),
            bright_cyan: Rgb(97, 214, 214),
            bright_white: Rgb(242, 242, 242),
        }
    }

    /// The colors with each plain color replaced by its bright one.
    pub open spec fn brightened(self) -> AnsiColors {
        AnsiColors {
            black: self.bright_black,
            red: self.bright_red,
            green: self.bright_green,
            yellow: self.bright_yellow,
            blue: self.bright_blue,
            magenta: self.bright_magenta,
            cyan: self.bright_cyan,
            white: self.bright_white,
            ..self
        }
    }
}

impl AnsiColors {
    /// What a color of the terminal looks like: a named color as these
    /// colors give it, any other color by its own parts.
    pub open spec fn shade(self, color: Color) -> Rgb {
        match color {
            Color::Black => self.black,
            Color::Red => self.red,
            Color::Green => self.green,
            Color::Yellow => self.yellow,
            Color::Blue => self.blue,
            Color::Magenta => self.magenta,
            Color::Cyan => self.cyan,
            Color::White => self.white,
            Color::BrightBlack => self.bright_black,
            Color::BrightRed => self.bright_red,
            Color::BrightGreen => self.bright_green,
            Color::BrightYellow => self.bright_yellow,
            Color::BrightBlue => self.bright_blue,
            Color::BrightMagenta => self.bright_magenta,
            Color::BrightCyan => self.bright_cyan,
            Color::BrightWhite => self.bright_white,
            Color::Rgb(r, g, b) => Rgb(r, g, b),
        }
    }

    /// What a color of the terminal looks like.
    pub fn rgb_of(&self, color: Color) -> (r: Rgb)
        ensures
            r == self.shade(color),
    {
        match color {
            Color::Black => self.black,
            Color::Red => self.red,
            Color::Green => self.green,
            Color::Yellow => self.yellow,
            Color::Blue => self.blue,
            Color::Magenta => self.magenta,
            Color::Cyan => self.cyan,
            Color::White => self.white,
            Color::BrightBlack => self.bright_black,
            Color::BrightRed => self.bright_red,
            Color::BrightGreen => self.bright_green,
            Color::BrightYellow => self.bright_yellow,
            Color::BrightBlue => self.bright_blue,
            Color::BrightMagenta => self.bright_magenta,
            Color::BrightCyan => self.bright_cyan,
            Color::BrightWhite => self.bright_white,
            Color::Rgb(r, g, b) => Rgb(r, g, b),
        }
    }
}

impl AnsiColors {
    /// The color in which a stretch of text is drawn: its foreground as
    /// these colors give it, and `default_color` where it has none.
    pub fn text_color(&self, fg: Option<Color>, default_color: Rgb) -> (r: Rgb)
        ensures
            r == (match fg {
                Some(color) => self.shade(color),
                None => default_color,
            }),
    {
        match fg {
            Some(color) => self.rgb_of(color),
            None => default_color,
        }
    }

    /// The color behind a stretch of text: its background as these colors
    /// give it, and none where it has none.
    pub fn background_color(&self, bg: Option<Color>) -> (r: Option<Rgb>)
        ensures
            r == (match bg {
                Some(color) => Some(self.shade(color)),
                None => None,
            }),
    {
        match bg {
            Some(color) => Some(self.rgb_of(color)),
            None => None,
        }
    }
}

impl Default for AnsiColors {
    fn default() -> (r: Self)
        ensures
            r == AnsiColors::standard(),
    {
        AnsiColors {
            black: Rgb(12, 12, 12),
            red: Rgb(197, 15, 31),
            green: Rgb(19, 161, 14),
            yellow: Rgb(193, 156, 0),
            blue: Rgb(0, 55, 218),
            magenta: Rgb(136, 23, 152),
            cyan: Rgb(58, 150, 221),
            white: Rgb(204, 204, 204),
            bright_black: Rgb(118, 118, 118),
            bright_red: Rgb(231, 72, 86),
            bright_green: Rgb(22, 198, 12),
            bright_yellow: Rgb(249, 241, 165),
            bright_blue: Rgb(59, 120, 255),
            bright_magenta: Rgb(180, 0, 158),
            bright_cyan: Rgb(97, 214, 214),
            bright_white: Rgb(242, 242, 242),
        }
    }
}

/// The settings of the theme.
#[derive(Debug)]
pub struct ThemeConfig {
    pub ansi_colors: AnsiColors,
    /// Whether the plain colors are shown as their bright ones.
    pub force_bright: bool,
}

impl Default for ThemeConfig {
    fn default() -> (r: Self)
        ensures
            r.ansi_colors == AnsiColors::standard(),
            r.force_bright,
    {
        ThemeConfig { ansi_colors: AnsiColors::default(), force_bright: true }
    }
}

impl ThemeConfig {
    /// The colors that the terminal shows: those of the theme, with each
    /// plain color replaced by its bright one where `force_bright` is set.
    pub fn get_ansi_colors(&self) -> (r: AnsiColors)
        ensures
            r == (if self.force_bright {
                self.ansi_colors.brightened()
            } else {
                self.ansi_colors
            }),
    {
        if self.force_bright {
            AnsiColors {
                black: self.ansi_colors.bright_black,
                red: self.ansi_colors.bright_red,
                green: self.ansi_colors.bright_green,
                yellow: self.ansi_colors.bright_yellow,
                blue: self.ansi_colors.bright_blue,
                magenta: self.ansi_colors.bright_magenta,
                cyan: self.ansi_colors.bright_cyan,
                white: self.ansi_colors.bright_white,
                bright_black: self.ansi_colors.bright_black,
                bright_red: self.ansi_colors.bright_red,
                bright_green: self.ansi_colors.bright_green,
                bright_yellow: self.ansi_colors.bright_yellow,
                bright_blue: self.ansi_colors.bright_blue,
                bright_magenta: self.ansi_colors.bright_magenta,
                bright_cyan: self.ansi_colors.bright_cyan,
                bright_white: self.ansi_colors.bright_white,
            }
        } else {
            self.ansi_colors
        }
    }
}

} // verus!
