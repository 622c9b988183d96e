//! The themes of the code editor.

use vstd::prelude::*;
use vstd::string::*;

verus! {

/// A theme of the syntax highlighter.
#[derive(Debug, Clone, Copy, Hash, PartialEq, Eq, Structural)]
pub enum SyntectTheme {
    Base16EightiesDark,
    Base16MochaDark,
    Base16OceanDark,
    Base16OceanLight,
    InspiredGitHub,
    SolarizedDark,
    SolarizedLight,
}

impl SyntectTheme {
    /// The themes, in the order in which they are offered.
    pub open spec fn every() -> Seq<SyntectTheme> {
        seq![
            SyntectTheme::Base16EightiesDark,
            SyntectTheme::Base16MochaDark,
            SyntectTheme::Base16OceanDark,
            SyntectTheme::Base16OceanLight,
            SyntectTheme::InspiredGitHub,
            SyntectTheme::SolarizedDark,
            SyntectTheme::SolarizedLight,
        ]
    }

    /// The name under which the theme is offered.
    pub open spec fn title(self) -> Seq<char> {
        match self {
            SyntectTheme::Base16EightiesDark => "Base16 Eighties (dark)"@,
            SyntectTheme::Base16MochaDark => "Base16 Mocha (dark)"@,
            SyntectTheme::Base16OceanDark => "Base16 Ocean (dark)"@,
            SyntectTheme::Base16OceanLight => "Base16 Ocean (light)"@,
            SyntectTheme::InspiredGitHub => "InspiredGitHub (light)"@,
            SyntectTheme::SolarizedDark => "Solarized (dark)"@,
            SyntectTheme::SolarizedLight => "Solarized (light)"@,
        }
    }

    /// The key under which the highlighter holds the theme.
    pub open spec fn key(self) -> Seq<char> {
        match self {
            SyntectTheme::Base16EightiesDark => "base16-eighties.dark"@,
            SyntectTheme::Base16MochaDark => "base16-mocha.dark"@,
            SyntectTheme::Base16OceanDark => "base16-ocean.dark"@,
            SyntectTheme::Base16OceanLight => "base16-ocean.light"@,
            SyntectTheme::InspiredGitHub => "InspiredGitHub"@,
            SyntectTheme::SolarizedDark => "Solarized (dark)"@,
            SyntectTheme::SolarizedLight => "Solarized (light)"@,
        }
    }

    /// Whether the theme is a dark one.
    pub open spec fn dark(self) -> bool {
        self == SyntectTheme::Base16EightiesDark || self == SyntectTheme::Base16MochaDark || self
            == SyntectTheme::Base16OceanDark || self == SyntectTheme::SolarizedDark
    }

    /// The themes, in the order in which they are offered.
    pub fn all() -> (r: Vec<Self>)
        ensures
            r@ == SyntectTheme::every(),
    {
        let mut out: Vec<SyntectTheme> = Vec::new();
        out.push(SyntectTheme::Base16EightiesDark);
        out.push(SyntectTheme::Base16MochaDark);
        out.push(SyntectTheme::Base16OceanDark);
        out.push(SyntectTheme::Base16OceanLight);
        out.push(SyntectTheme::InspiredGitHub);
        out.push(SyntectTheme::SolarizedDark);
        out.push(SyntectTheme::SolarizedLight);
        assert(out@ =~= SyntectTheme::every());
        out
    }

    /// The name under which the theme is offered.
    pub fn name(&self) -> (r: &'static str)
        ensures
            r@ == self.title(),
    {
        match self {
            SyntectTheme::Base16EightiesDark => "Base16 Eighties (dark)",
            SyntectTheme::Base16MochaDark => "Base16 Mocha (dark)",
            SyntectTheme::Base16OceanDark => "Base16 Ocean (dark)",
            SyntectTheme::Base16OceanLight => "Base16 Ocean (light)",
            SyntectTheme::InspiredGitHub => "InspiredGitHub (light)",
            SyntectTheme::SolarizedDark => "Solarized (dark)",
            SyntectTheme::SolarizedLight => "Solarized (light)",
        }
    }

    /// The key under which the highlighter holds the theme.
    pub fn syntect_key_name(&self) -> (r: &'static str)
        ensures
            r@ == self.key(),
    {
        match self {
            SyntectTheme::Base16EightiesDark => "base16-eighties.dark",
            SyntectTheme::Base16MochaDark => "base16-mocha.dark",
            SyntectTheme::Base16OceanDark => "base16-ocean.dark",
            SyntectTheme::Base16OceanLight => "base16-ocean.light",
            SyntectTheme::InspiredGitHub => "InspiredGitHub",
            SyntectTheme::SolarizedDark => "Solarized (dark)",
            SyntectTheme::SolarizedLight => "Solarized (light)",
        }
    }

    /// Whether the theme is a dark one.
    pub fn is_dark(&self) -> (r: bool)
        ensures
            r == self.dark(),
    {
        match self {
            SyntectTheme::Base16EightiesDark
            | SyntectTheme::Base16MochaDark
            | SyntectTheme::Base16OceanDark
            | SyntectTheme::SolarizedDark => true,
            SyntectTheme::Base16OceanLight
            | SyntectTheme::InspiredGitHub
            | SyntectTheme::SolarizedLight => false,
        }
    }
}

/// The theme of the code editor: whether the editor is dark, and the theme
/// of the highlighter.
#[derive(Debug, Clone, Copy, Hash, PartialEq, Eq, Structural)]
pub struct CodeTheme {
    pub dark_mode: bool,
    pub syntect_theme: SyntectTheme,
}

impl CodeTheme {
    /// The theme of a dark editor.
    pub fn dark() -> (r: Self)
        ensures
            r == (CodeTheme { dark_mode: true, syntect_theme: SyntectTheme::Base16MochaDark }),
    {
        CodeTheme { dark_mode: true, syntect_theme: SyntectTheme::Base16MochaDark }
    }

    /// The theme of a light editor.
    pub fn light() -> (r: Self)
        ensures
            r == (CodeTheme { dark_mode: false, syntect_theme: SyntectTheme::SolarizedLight }),
    {
        CodeTheme { dark_mode: false, syntect_theme: SyntectTheme::SolarizedLight }
    }

    /// The theme that goes with a dark or a light surrounding.
    pub fn for_mode(dark_mode: bool) -> (r: Self)
        ensures
            r == (if dark_mode {
                CodeTheme { dark_mode: true, syntect_theme: SyntectTheme::Base16MochaDark }
            } else {
                CodeTheme { dark_mode: false, syntect_theme: SyntectTheme::SolarizedLight }
            }),
    {
        if dark_mode {
            CodeTheme::dark()
        } else {
            CodeTheme::light()
        }
    }
}

impl Default for CodeTheme {
    fn default() -> (r: Self)
        ensures
            r == (CodeTheme { dark_mode: true, syntect_theme: SyntectTheme::Base16MochaDark }),
    {
        CodeTheme::dark()
    }
}

/// The editor of one scratch: the language that it highlights and the code
/// in it.
#[derive(Debug, Clone)]
pub struct CodeEditor {
    pub language: String,
    pub code: String,
}

/// The code of a new scratch.
pub const FIRST_SCRATCH: &'static str = r#"// How to write scratches
//
// Simply write `use some_crate;` anywhere, and the dependency will get
// inferred and included automatically at the latest version!
// This creates a simple depdendency requirement like so:
//     serde = "*"
//
// If you have more complex requirements (such as features, or a specific
// version), at the top of your file, use //# to specify custom
// dependencies. All //# must be the very first lines in order to be
// recognized.
//# serde = { version = "1.0.152", features = ["derive"] }
//
// You can also include any extra custom cargo.toml with //>
// All //> must be in one block, and either at the top of the file or after
// any //# . Once the last consecutive //> is found,
// no more //> blocks will work.
//> [profile.dev]
//> opt-level = 1
//

use serde::{Serialize, Deserialize};
use serde_json;

#[derive(Serialize, Deserialize, Debug)]
struct Point {
    x: i32,
    y: i32,
}

fn main() {
    let point = Point { x: 1, y: 2 };

    // Convert the Point to a JSON string.
    let serialized = serde_json::to_string(&point).unwrap();

    // Prints serialized = {"x":1,"y":2}
    println!("serialized = {}", serialized);

    // Convert the JSON string back to a Point.
    let deserialized: Point = serde_json::from_str(&serialized).unwrap();

    // Prints deserialized = Point { x: 1, y: 2 }
    println!("deserialized = {:?}", deserialized);
}
"#;

impl Default for CodeEditor {
    fn default() -> (r: Self)
        ensures
            r.language@ == "rs"@,
            r.code@ == FIRST_SCRATCH@,
    {
        CodeEditor {
            language: String::from_str("rs"),
            code: String::from_str(
                FIRST_SCRATCH,
            ),
        }
    }
}

} // verus!
