use cargo_player::project::is_toolchain_dir;
use cargo_player::project_builder::{extra_cargo, find_main, render_cargo_toml};
use cargo_player::{
    Backtrace, BuildType, CargoCommandBuilder, Channel, Edition, File, Project, ProjectBuilder,
    Subcommand,
};

fn command_line(builder: &CargoCommandBuilder) -> String {
    let mut line = builder.program().to_string();
    for arg in builder.args() {
        line.push_str(&format!(" {}", arg));
    }
    line
}

#[test]
fn cargo_command_format_order() {
    let mut builder = CargoCommandBuilder::new();
    builder
        .channel(Channel::Stable)
        .subcommand(Subcommand::Run)
        .cargo_flags(&["--bar2"])
        .cargo_flag("--foo")
        .cargo_flags(&["--bar", "--baz"])
        .subcommand_flags(&["--subflag2"])
        .subcommand_flag("--subflag")
        .subcommand_flags(&["--subbar", "--subbaz"])
        .build_type(BuildType::Release)
        .dash_arg("--dash")
        .dash_args(&["--another-dash", "--and-two"]);

    assert_eq!("cargo +stable --bar2 --foo --bar --baz run --subflag2 --subflag --subbar --subbaz --release -- --dash --another-dash --and-two", command_line(&builder));

    // BuildType::Debug is a no-op
    let mut builder = CargoCommandBuilder::new();
    builder
        .channel(Channel::Stable)
        .subcommand(Subcommand::Run)
        .build_type(BuildType::Debug);

    assert_eq!("cargo +stable run", command_line(&builder));
}

#[test]
fn empty_builder_gives_no_argument() {
    let builder = CargoCommandBuilder::new();
    assert!(builder.args().is_empty());
    assert_eq!("cargo", builder.program());
}

#[test]
fn started_dash_list_gives_the_separator() {
    let mut builder = CargoCommandBuilder::new();
    builder.dash_args(&[]).cargo_flags(&[]);
    assert_eq!(vec!["--"], builder.args());
    assert_eq!(Some(vec![]), builder.cargo_flags);
    assert_eq!(None, builder.subcommand_flags);
}

#[test]
fn names_on_the_command_line() {
    assert_eq!("stable", Channel::Stable.as_str());
    assert_eq!("beta", Channel::Beta.as_str());
    assert_eq!("nightly", Channel::Nightly.as_str());
    assert_eq!("run", Subcommand::Run.as_str());
    assert_eq!("build", Subcommand::Build.as_str());
    assert_eq!("test", Subcommand::Test.as_str());
    assert_eq!("rustc", Subcommand::ASM.as_str());
    assert_eq!("expand", Subcommand::Expand.as_str());
    assert_eq!("miri", Subcommand::Miri.as_str());
    assert_eq!("check", Subcommand::Check.as_str());
    assert_eq!("clippy", Subcommand::Clippy.as_str());
    assert_eq!("fmt", Subcommand::Rustfmt.as_str());
    assert_eq!("", Backtrace::Off.as_str());
    assert_eq!("1", Backtrace::Short.as_str());
    assert_eq!("full", Backtrace::Full.as_str());
    assert_eq!("", BuildType::Debug.as_str());
    assert_eq!("--release", BuildType::Release.as_str());
    assert_eq!("2015", Edition::E2015.to_string());
    assert_eq!("2018", Edition::E2018.to_string());
    assert_eq!("2021", Edition::E2021.as_str());
}

#[test]
fn defaults() {
    assert_eq!(Edition::E2021, Edition::default());
    assert_eq!(Subcommand::Run, Subcommand::default());
    assert_eq!(Channel::Stable, Channel::default());
    assert_eq!(Backtrace::Off, Backtrace::default());
    assert_eq!(BuildType::Debug, BuildType::default());
}

#[test]
fn new_project_is_empty() {
    let project = Project::new("scratch");
    assert!(project.files.is_empty());
    assert_eq!(Edition::E2021, project.edition);
    assert!(project.env.is_empty());
    assert!(project.cargo_command_builder.args().is_empty());
    assert_eq!(None, project.location);
    assert_eq!(None, project.target_prefix);
    assert_eq!(project.hash, Project::new("scratch").hash);
    assert_ne!(project.hash, Project::new("other").hash);

    let project = Project::with_hash(9);
    assert_eq!(9, project.hash);
    assert!(project.files.is_empty());
    assert_eq!(0, Project::default().hash);
}

#[test]
fn project_collects_files_and_settings() {
    let mut project = Project::new(1u8);
    project
        .file(File::new("main", "fn main() {}"))
        .files(&[File::new("a", "A"), File::new("b", "B")])
        .channel(Channel::Nightly)
        .cargo_flag("-q")
        .cargo_flags(&["-v"])
        .subcommand(Subcommand::Miri)
        .subcommand_flag("run")
        .subcommand_flags(&["--offline"])
        .build_type(BuildType::Release)
        .dash_arg("x")
        .dash_args(&["y", "z"])
        .edition(Edition::E2018)
        .target_prefix("play");

    let names: Vec<&str> = project.files.iter().map(|f| f.name).collect();
    let codes: Vec<&str> = project.files.iter().map(|f| f.code).collect();
    assert_eq!(vec!["main", "a", "b"], names);
    assert_eq!(vec!["fn main() {}", "A", "B"], codes);
    assert_eq!(Edition::E2018, project.edition);
    assert_eq!(Some("play"), project.target_prefix);
    assert_eq!(
        vec!["+nightly", "-q", "-v", "miri", "run", "--offline", "--release", "--", "x", "y", "z"],
        project.cargo_command_builder.args()
    );
}

#[test]
fn environment_is_set_replaced_and_removed() {
    let mut project = Project::new(0u8);
    project
        .env_var("A", "1")
        .env_var("B", "2")
        .env_var("A", "3")
        .rust_flags("-C opt-level=1")
        .env_vars(&[("B", "4"), ("C", "5"), ("C", "6")]);
    assert_eq!(
        vec![("A", "3"), ("B", "4"), ("RUSTFLAGS", "-C opt-level=1"), ("C", "6")],
        project.env
    );
    project.rust_flags("");
    project.remove_env_var("B");
    project.remove_env_var("absent");
    assert_eq!(vec![("A", "3"), ("RUSTFLAGS", ""), ("C", "6")], project.env);
}

#[test]
fn backtrace_sets_or_removes_its_variable() {
    let mut project = Project::new(0u8);
    project.env_var("X", "x").backtrace(Backtrace::Short);
    assert_eq!(vec![("X", "x"), ("RUST_BACKTRACE", "1")], project.env);
    project.backtrace(Backtrace::Full);
    assert_eq!(vec![("X", "x"), ("RUST_BACKTRACE", "full")], project.env);
    project.backtrace(Backtrace::Off);
    assert_eq!(vec![("X", "x")], project.env);
    project.backtrace(Backtrace::Off);
    assert_eq!(vec![("X", "x")], project.env);
}

#[test]
fn cargo_toml_of_a_project() {
    let mut project = Project::new("id");
    project
        .file(File::new(
            "main",
            "//# serde = \"1\"\n//> [profile.dev]\n//> opt-level = 1\n//\nuse serde;\nuse regex;\nmod util;\n",
        ))
        .file(File::new("util", "use rand;\nuse regex;\n"))
        .edition(Edition::E2018);
    project.hash = 42;
    let builder = ProjectBuilder::new(&project);
    assert_eq!(
        "[package]\nname = \"p42\"\nversion = \"0.1.0\"\nedition = \"2018\"\n\n[dependencies]\nserde = \"1\"\nregex = \"*\"\nrand = \"*\"\n\n[profile.dev]\nopt-level = 1\n",
        builder.create_cargo_toml()
    );
    assert_eq!("cargo-play.42", builder.folder_name());
    assert_eq!("util.rs", ProjectBuilder::source_file_name(&project.files[1]));

    project.target_prefix("rust-play");
    project.hash = u64::MAX;
    assert_eq!(
        "rust-play.18446744073709551615",
        ProjectBuilder::new(&project).folder_name()
    );
}

#[test]
fn cargo_toml_without_extra_text() {
    assert_eq!(
        "[package]\nname = \"p0\"\nversion = \"0.1.0\"\nedition = \"2021\"\n\n[dependencies]\n\n",
        render_cargo_toml(0, Edition::E2021, "", "")
    );
    assert_eq!(
        "[package]\nname = \"p77\"\nversion = \"0.1.0\"\nedition = \"2015\"\n\n[dependencies]\na = \"*\"\n\nextra",
        render_cargo_toml(77, Edition::E2015, "a = \"*\"", "extra")
    );
}

#[test]
fn extra_text_comes_from_the_leading_run() {
    assert_eq!("", extra_cargo(""));
    assert_eq!("", extra_cargo("fn main() {}\n//> late\n"));
    assert_eq!("a\nb\n", extra_cargo("//> a\n//# dep\n//> b\n\n//> c\n"));
    assert_eq!("a //> b\n", extra_cargo("//> a //> b\r\nuse x;"));
    assert_eq!("//> \n", extra_cargo("//> //> "));
    assert_eq!(" a \n", extra_cargo("//>  a "));
    assert_eq!("\n", extra_cargo("//> "));
    assert_eq!("", extra_cargo("//>\n"));
}

#[test]
fn entry_file_is_the_first_named_main() {
    let files = vec![
        File::new("lib", "//> wrong\n"),
        File::new("main", "//> right\n"),
        File::new("main", "//> later\n"),
    ];
    assert_eq!(1, find_main(&files));
    assert_eq!(1, find_main(&vec![File::new("Main", "")]));
    assert_eq!(0, find_main(&vec![]));

    let mut project = Project::new(0u8);
    project.files(&files);
    project.hash = 314;
    assert_eq!(
        "[package]\nname = \"p314\"\nversion = \"0.1.0\"\nedition = \"2021\"\n\n[dependencies]\n\n\nright\n",
        ProjectBuilder::new(&project).create_cargo_toml()
    );
}

fn parts(names: &[&str]) -> Vec<String> {
    names.iter().map(|name| name.to_string()).collect()
}

#[test]
fn toolchain_directories() {
    assert!(is_toolchain_dir(&parts(&[
        "/", "home", "me", ".rustup", "toolchains", "stable", "bin"
    ])));
    assert!(is_toolchain_dir(&parts(&[".rustup", "toolchains", "lib"])));
    assert!(is_toolchain_dir(&parts(&[
        ".rustup", "toolchains", "x", "lib", "rustlib", "bin"
    ])));
    assert!(!is_toolchain_dir(&parts(&[".rustup", "toolchains", "stable"])));
    assert!(!is_toolchain_dir(&parts(&[".rustup", "toolchains"])));
    assert!(!is_toolchain_dir(&parts(&["toolchains", ".rustup", "bin"])));
    assert!(!is_toolchain_dir(&parts(&[".rustup", "..", "toolchains", "bin"])));
    assert!(!is_toolchain_dir(&parts(&["/", "usr", "bin"])));
    assert!(!is_toolchain_dir(&parts(&["toolchains", "bin"])));
    assert!(!is_toolchain_dir(&parts(&["bin"])));
    assert!(!is_toolchain_dir(&parts(&[])));
    assert!(!is_toolchain_dir(&parts(&[".rustup", "toolchains", "Bin"])));
}

#[test]
fn freeform_text_is_copied_as_it_stands() {
    let mut project = Project::with_hash(55);
    project.file(File::new("main", "//> //> "));
    assert_eq!(
        "[package]\nname = \"p55\"\nversion = \"0.1.0\"\nedition = \"2021\"\n\n[dependencies]\n\n\n//> \n",
        ProjectBuilder::new(&project).create_cargo_toml()
    );
}
