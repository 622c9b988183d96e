use cargo_player::code_editor::{CodeEditor, CodeTheme, SyntectTheme};
use cargo_player::{infer_deps, File};
use cargo_player::github::{GitHub, GitHubError};
use cargo_player::terminal::Color;
use cargo_player::theme::{AnsiColors, Rgb, ThemeConfig};
use cargo_player::win_version::{is_supported_os, is_win10_1809, is_win11, is_win11_22h2};

#[test]
fn standard_colors() {
    let colors = AnsiColors::default();
    assert_eq!(Rgb(12, 12, 12), colors.black);
    assert_eq!(Rgb(197, 15, 31), colors.red);
    assert_eq!(Rgb(19, 161, 14), colors.green);
    assert_eq!(Rgb(193, 156, 0), colors.yellow);
    assert_eq!(Rgb(0, 55, 218), colors.blue);
    assert_eq!(Rgb(136, 23, 152), colors.magenta);
    assert_eq!(Rgb(58, 150, 221), colors.cyan);
    assert_eq!(Rgb(204, 204, 204), colors.white);
    assert_eq!(Rgb(118, 118, 118), colors.bright_black);
    assert_eq!(Rgb(231, 72, 86), colors.bright_red);
    assert_eq!(Rgb(22, 198, 12), colors.bright_green);
    assert_eq!(Rgb(249, 241, 165), colors.bright_yellow);
    assert_eq!(Rgb(59, 120, 255), colors.bright_blue);
    assert_eq!(Rgb(180, 0, 158), colors.bright_magenta);
    assert_eq!(Rgb(97, 214, 214), colors.bright_cyan);
    assert_eq!(Rgb(242, 242, 242), colors.bright_white);
    assert_eq!(Rgb(0, 0, 0), Rgb::default());
}

#[test]
fn forced_bright_colors() {
    let mut theme = ThemeConfig::default();
    assert!(theme.force_bright);
    let shown = theme.get_ansi_colors();
    let plain = AnsiColors::default();
    assert_eq!(plain.bright_black, shown.black);
    assert_eq!(plain.bright_red, shown.red);
    assert_eq!(plain.bright_green, shown.green);
    assert_eq!(plain.bright_yellow, shown.yellow);
    assert_eq!(plain.bright_blue, shown.blue);
    assert_eq!(plain.bright_magenta, shown.magenta);
    assert_eq!(plain.bright_cyan, shown.cyan);
    assert_eq!(plain.bright_white, shown.white);
    assert_eq!(plain.bright_black, shown.bright_black);
    assert_eq!(plain.bright_white, shown.bright_white);

    theme.force_bright = false;
    assert_eq!(plain, theme.get_ansi_colors());
}

#[test]
fn colors_of_the_terminal() {
    let colors = AnsiColors::default();
    assert_eq!(colors.black, colors.rgb_of(Color::Black));
    assert_eq!(colors.red, colors.rgb_of(Color::Red));
    assert_eq!(colors.green, colors.rgb_of(Color::Green));
    assert_eq!(colors.yellow, colors.rgb_of(Color::Yellow));
    assert_eq!(colors.blue, colors.rgb_of(Color::Blue));
    assert_eq!(colors.magenta, colors.rgb_of(Color::Magenta));
    assert_eq!(colors.cyan, colors.rgb_of(Color::Cyan));
    assert_eq!(colors.white, colors.rgb_of(Color::White));
    assert_eq!(colors.bright_black, colors.rgb_of(Color::BrightBlack));
    assert_eq!(colors.bright_red, colors.rgb_of(Color::BrightRed));
    assert_eq!(colors.bright_green, colors.rgb_of(Color::BrightGreen));
    assert_eq!(colors.bright_yellow, colors.rgb_of(Color::BrightYellow));
    assert_eq!(colors.bright_blue, colors.rgb_of(Color::BrightBlue));
    assert_eq!(colors.bright_magenta, colors.rgb_of(Color::BrightMagenta));
    assert_eq!(colors.bright_cyan, colors.rgb_of(Color::BrightCyan));
    assert_eq!(colors.bright_white, colors.rgb_of(Color::BrightWhite));
    assert_eq!(Rgb(1, 2, 3), colors.rgb_of(Color::Rgb(1, 2, 3)));

    assert_eq!(colors.red, colors.text_color(Some(Color::Red), Rgb(9, 9, 9)));
    assert_eq!(Rgb(9, 9, 9), colors.text_color(None, Rgb(9, 9, 9)));
    assert_eq!(Some(colors.blue), colors.background_color(Some(Color::Blue)));
    assert_eq!(None, colors.background_color(None));
}

#[test]
fn windows_releases() {
    assert!(!is_win10_1809(17762));
    assert!(is_win10_1809(17763));
    assert!(is_win10_1809(21999));
    assert!(!is_win10_1809(22000));
    assert!(!is_win11(21999));
    assert!(is_win11(22000));
    assert!(!is_win11_22h2(22620));
    assert!(is_win11_22h2(22621));
    assert!(!is_supported_os(0));
    assert!(!is_supported_os(17762));
    assert!(is_supported_os(17763));
    assert!(is_supported_os(22000));
    assert!(is_supported_os(u32::MAX));
}

#[test]
fn editor_themes() {
    let all = SyntectTheme::all();
    assert_eq!(
        vec![
            SyntectTheme::Base16EightiesDark,
            SyntectTheme::Base16MochaDark,
            SyntectTheme::Base16OceanDark,
            SyntectTheme::Base16OceanLight,
            SyntectTheme::InspiredGitHub,
            SyntectTheme::SolarizedDark,
            SyntectTheme::SolarizedLight,
        ],
        all
    );
    let names: Vec<&str> = all.iter().map(|theme| theme.name()).collect();
    assert_eq!(
        vec![
            "Base16 Eighties (dark)",
            "Base16 Mocha (dark)",
            "Base16 Ocean (dark)",
            "Base16 Ocean (light)",
            "InspiredGitHub (light)",
            "Solarized (dark)",
            "Solarized (light)",
        ],
        names
    );
    let keys: Vec<&str> = all.iter().map(|theme| theme.syntect_key_name()).collect();
    assert_eq!(
        vec![
            "base16-eighties.dark",
            "base16-mocha.dark",
            "base16-ocean.dark",
            "base16-ocean.light",
            "InspiredGitHub",
            "Solarized (dark)",
            "Solarized (light)",
        ],
        keys
    );
    let dark: Vec<bool> = all.iter().map(|theme| theme.is_dark()).collect();
    assert_eq!(vec![true, true, true, false, false, true, false], dark);

    assert_eq!(
        CodeTheme {
            dark_mode: true,
            syntect_theme: SyntectTheme::Base16MochaDark
        },
        CodeTheme::dark()
    );
    assert_eq!(
        CodeTheme {
            dark_mode: false,
            syntect_theme: SyntectTheme::SolarizedLight
        },
        CodeTheme::light()
    );
    assert_eq!(CodeTheme::dark(), CodeTheme::default());
    assert_eq!(CodeTheme::dark(), CodeTheme::for_mode(true));
    assert_eq!(CodeTheme::light(), CodeTheme::for_mode(false));
}

#[test]
fn gist_errors() {
    assert_eq!(GitHubError::Forbidden, GitHubError::from_status(403));
    assert_eq!(GitHubError::NotFound, GitHubError::from_status(404));
    assert_eq!(GitHubError::ValidationFailed, GitHubError::from_status(422));
    assert_eq!(GitHubError::Unknown, GitHubError::from_status(500));
    assert_eq!(GitHubError::Unknown, GitHubError::from_status(200));
    assert_eq!("No access token found", GitHubError::NoAuthentication.to_string());
    assert_eq!("Forbidden", GitHubError::Forbidden.to_string());
    assert_eq!("Resource not found", GitHubError::NotFound.to_string());
    assert_eq!(
        "Validation failed, or the endpoint has been spammed.",
        GitHubError::ValidationFailed.to_string()
    );
    assert_eq!("Unknnown error occurred", GitHubError::Unknown.to_string());

    let mut account = GitHub::default();
    assert!(!account.is_authenticated());
    assert_eq!(Err(GitHubError::NoAuthentication), account.check_authentication());
    account.access_token = "token".to_string();
    assert!(account.is_authenticated());
    assert_eq!(Ok(()), account.check_authentication());
}

#[test]
fn new_scratch() {
    let editor = CodeEditor::default();
    assert_eq!("rs", editor.language);
    assert!(editor.code.starts_with("// How to write scratches\n//\n"));
    assert!(editor.code.ends_with("println!(\"deserialized = {:?}\", deserialized);\n}\n"));
    assert_eq!(45, editor.code.lines().count());
    assert_eq!(
        "serde = \"*\"\nserde_json = \"*\"",
        infer_deps(&[File::new("main", &editor.code)]).unwrap()
    );
}
