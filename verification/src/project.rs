//! Projects: the source files of a scratch and how it is to be built.

use std::collections::hash_map::DefaultHasher;
use std::hash::{Hash, Hasher};
use vstd::prelude::*;
use crate::cargo_command_builder::{CargoCommandBuilder, flags_of, texts_of};
use crate::seqs::{lemma_position, lemma_position_bounds, position};
use crate::text::text_eq;

verus! {

/// The edition of the language that a project is built with.
#[derive(Debug, Clone, Copy, PartialEq, Eq, Structural)]
pub enum Edition {
    E2015,
    E2018,
    E2021,
}

/// What cargo is asked to do.
#[derive(Debug, Clone, Copy, PartialEq, Eq, Structural)]
pub enum Subcommand {
    /// Run the program.
    Run,
    /// Build the code and do nothing else.
    Build,
    /// Run the tests.
    Test,
    /// Show the assembly.
    ASM,
    /// Expand the macros.
    Expand,
    /// Check for undefined behaviour.
    Miri,
    /// Check the code.
    Check,
    /// Check against the linter.
    Clippy,
    /// Run the code formatter.
    Rustfmt,
}

/// The toolchain channel.
#[derive(Debug, Clone, Copy, PartialEq, Eq, Structural)]
pub enum Channel {
    Stable,
    Beta,
    Nightly,
}

/// How much of a backtrace a panic prints.
#[derive(Debug, Clone, Copy, PartialEq, Eq, Structural)]
pub enum Backtrace {
    Off,
    Short,
    Full,
}

/// Debug or release.
#[derive(Debug, Clone, Copy, PartialEq, Eq, Structural)]
pub enum BuildType {
    Debug,
    Release,
}

impl Edition {
    /// The edition as a manifest names it.
    pub open spec fn text(self) -> Seq<char> {
        match self {
            Edition::E2015 => "2015"@,
            Edition::E2018 => "2018"@,
            Edition::E2021 => "2021"@,
        }
    }

    /// The edition as a manifest names it.
    pub fn as_str(self) -> (r: &'static str)
        ensures
            r@ == self.text(),
    {
        match self {
            Edition::E2015 => "2015",
            Edition::E2018 => "2018",
            Edition::E2021 => "2021",
        }
    }

    /// The edition as a manifest names it.
    pub fn to_string(self) -> (r: String)
        ensures
            r@ == self.text(),
    {
        self.as_str().to_owned()
    }
}

impl Default for Edition {
    fn default() -> (r: Self)
        ensures
            r == Edition::E2021,
    {
        Edition::E2021
    }
}

impl Subcommand {
    /// The subcommand as the command line names it.
    pub open spec fn text(self) -> Seq<char> {
        match self {
            Subcommand::Run => "run"@,
            Subcommand::Build => "build"@,
            Subcommand::Test => "test"@,
            Subcommand::ASM => "rustc"@,
            Subcommand::Expand => "expand"@,
            Subcommand::Miri => "miri"@,
            Subcommand::Check => "check"@,
            Subcommand::Clippy => "clippy"@,
            Subcommand::Rustfmt => "fmt"@,
        }
    }

    /// The subcommand as the command line names it.
    pub fn as_str(self) -> (r: &'static str)
        ensures
            r@ == self.text(),
    {
        match self {
            Subcommand::Run => "run",
            Subcommand::Build => "build",
            Subcommand::Test => "test",
            Subcommand::ASM => "rustc",
            Subcommand::Expand => "expand",
            Subcommand::Miri => "miri",
            Subcommand::Check => "check",
            Subcommand::Clippy => "clippy",
            Subcommand::Rustfmt => "fmt",
        }
    }
}

impl Default for Subcommand {
    fn default() -> (r: Self)
        ensures
            r == Subcommand::Run,
    {
        Subcommand::Run
    }
}

impl Channel {
    /// The channel as the command line names it.
    pub open spec fn text(self) -> Seq<char> {
        match self {
            Channel::Stable => "stable"@,
            Channel::Beta => "beta"@,
            Channel::Nightly => "nightly"@,
        }
    }

    /// The channel as the command line names it.
    pub fn as_str(self) -> (r: &'static str)
        ensures
            r@ == self.text(),
    {
        match self {
            Channel::Stable => "stable",
            Channel::Beta => "beta",
            Channel::Nightly => "nightly",
        }
    }
}

impl Default for Channel {
    fn default() -> (r: Self)
        ensures
            r == Channel::Stable,
    {
        Channel::Stable
    }
}

impl Backtrace {
    /// The value of `RUST_BACKTRACE` that asks for this backtrace.
    pub open spec fn text(self) -> Seq<char> {
        match self {
            Backtrace::Off => ""@,
            Backtrace::Short => "1"@,
            Backtrace::Full => "full"@,
        }
    }

    /// The value of `RUST_BACKTRACE` that asks for this backtrace.
    pub fn as_str(self) -> (r: &'static str)
        ensures
            r@ == self.text(),
    {
        match self {
            Backtrace::Off => "",
            Backtrace::Short => "1",
            Backtrace::Full => "full",
        }
    }
}

impl Default for Backtrace {
    fn default() -> (r: Self)
        ensures
            r == Backtrace::Off,
    {
        Backtrace::Off
    }
}

impl BuildType {
    /// The flag that asks for this build type; none for a debug build.
    pub open spec fn text(self) -> Seq<char> {
        match self {
            BuildType::Debug => ""@,
            BuildType::Release => "--release"@,
        }
    }

    /// The flag that asks for this build type; none for a debug build.
    pub fn as_str(self) -> (r: &'static str)
        ensures
            r@ == self.text(),
    {
        match self {
            BuildType::Debug => "",
            BuildType::Release => "--release",
        }
    }
}

impl Default for BuildType {
    fn default() -> (r: Self)
        ensures
            r == BuildType::Debug,
    {
        BuildType::Debug
    }
}

/// A source file: the name of its module and its text.
#[derive(Debug, Clone, Copy)]
pub struct File<'a> {
    pub name: &'a str,
    pub code: &'a str,
}

impl<'a> File<'a> {
    /// A file of the given name and text.
    pub fn new(name: &'a str, code: &'a str) -> (r: Self)
        ensures
            r.name@ == name@,
            r.code@ == code@,
    {
        Self { name, code }
    }
}

/// A project: its source files, how it is built and run, and where it was
/// put on disk.
#[derive(Debug, Clone)]
pub struct Project<'a> {
    pub files: Vec<File<'a>>,
    /// Tells projects apart: two projects with the same number share a
    /// directory.
    pub hash: u64,
    pub edition: Edition,
    /// The environment of the command, as pairs of variable and value.
    pub env: Vec<(&'a str, &'a str)>,
    pub cargo_command_builder: CargoCommandBuilder<'a>,
    /// The directory of the project, once it was created.
    pub location: Option<String>,
    /// What the name of the directory begins with, where it is not the
    /// default.
    pub target_prefix: Option<&'a str>,
}

/// The test that a search for the variable `var` applies.
pub open spec fn names_var(var: Seq<char>) -> spec_fn((Seq<char>, Seq<char>)) -> bool {
    |entry: (Seq<char>, Seq<char>)| entry.0 == var
}

/// The environment with `var` set to `val`: the first entry for `var` is
/// replaced, and where there is none the pair is appended.
pub open spec fn env_set(
    env: Seq<(Seq<char>, Seq<char>)>,
    var: Seq<char>,
    val: Seq<char>,
) -> Seq<(Seq<char>, Seq<char>)> {
    let k = position(env, names_var(var)) as int;
    if k < env.len() {
        env.update(k, (var, val))
    } else {
        env.push((var, val))
    }
}

/// The environment without its first entry for `var`.
pub open spec fn env_unset(env: Seq<(Seq<char>, Seq<char>)>, var: Seq<char>) -> Seq<
    (Seq<char>, Seq<char>),
> {
    let k = position(env, names_var(var)) as int;
    if k < env.len() {
        env.remove(k)
    } else {
        env
    }
}

/// The environment with each of `vars` set, in order.
pub open spec fn env_set_all(
    env: Seq<(Seq<char>, Seq<char>)>,
    vars: Seq<(Seq<char>, Seq<char>)>,
) -> Seq<(Seq<char>, Seq<char>)>
    decreases vars.len(),
{
    if vars.len() == 0 {
        env
    } else {
        env_set(env_set_all(env, vars.drop_last()), vars.last().0, vars.last().1)
    }
}

/// No variable has two entries.
pub open spec fn vars_distinct(env: Seq<(Seq<char>, Seq<char>)>) -> bool {
    forall|i: int, j: int|
        0 <= i < env.len() && 0 <= j < env.len() && i != j ==> (#[trigger] env[i]).0 != (
        #[trigger] env[j]).0
}

/// Setting a variable gives it one entry with the value set, and leaves
/// every variable with at most one entry if every variable had at most one.
pub proof fn lemma_env_set(env: Seq<(Seq<char>, Seq<char>)>, var: Seq<char>, val: Seq<char>)
    ensures
        position(env_set(env, var, val), names_var(var)) < env_set(env, var, val).len(),
        env_set(env, var, val)[position(env_set(env, var, val), names_var(var)) as int] == (
            var,
            val,
        ),
        vars_distinct(env) ==> vars_distinct(env_set(env, var, val)),
{
    lemma_position_bounds(env, names_var(var));
    let k = position(env, names_var(var)) as int;
    let next = env_set(env, var, val);
    assert forall|j: int| 0 <= j < k implies !names_var(var)(next[j]) by {
        assert(next[j] == env[j]);
    }
    assert(names_var(var)(next[k]));
    lemma_position(next, names_var(var), k);
    if vars_distinct(env) {
        assert forall|i: int, j: int|
            0 <= i < next.len() && 0 <= j < next.len() && i != j implies (#[trigger] next[i]).0 != (
        #[trigger] next[j]).0 by {
            if k < env.len() {
                assert(next[i].0 == env[i].0);
                assert(next[j].0 == env[j].0);
            } else if i < env.len() && j < env.len() {
                assert(next[i] == env[i]);
                assert(next[j] == env[j]);
            } else if i < env.len() {
                assert(next[i] == env[i]);
                assert(!names_var(var)(env[i]));
            } else {
                assert(next[j] == env[j]);
                assert(!names_var(var)(env[j]));
            }
        }
    }
}

/// Taking a variable out leaves no entry for it, if it had at most one.
pub proof fn lemma_env_unset(env: Seq<(Seq<char>, Seq<char>)>, var: Seq<char>)
    requires
        vars_distinct(env),
    ensures
        vars_distinct(env_unset(env, var)),
        forall|i: int| 0 <= i < env_unset(env, var).len() ==> (#[trigger] env_unset(env, var)[i]).0 != var,
{
    lemma_position_bounds(env, names_var(var));
    let k = position(env, names_var(var)) as int;
    let next = env_unset(env, var);
    if k < env.len() {
        assert(names_var(var)(env[k]));
        assert forall|i: int| 0 <= i < next.len() implies next[i] == env[if i < k {
            i
        } else {
            i + 1
        }] by {}
        assert forall|i: int, j: int|
            0 <= i < next.len() && 0 <= j < next.len() && i != j implies (#[trigger] next[i]).0 != (
        #[trigger] next[j]).0 by {
            let a = if i < k {
                i
            } else {
                i + 1
            };
            let b = if j < k {
                j
            } else {
                j + 1
            };
            assert(env[a].0 != env[b].0);
        }
        assert forall|i: int| 0 <= i < next.len() implies (#[trigger] next[i]).0 != var by {
            let a = if i < k {
                i
            } else {
                i + 1
            };
            assert(env[a].0 != env[k].0);
        }
    } else {
        assert forall|i: int| 0 <= i < next.len() implies (#[trigger] next[i]).0 != var by {
            assert(!names_var(var)(env[i]));
        }
    }
}

/// The pairs of a list of variables and values.
pub open spec fn vars_model(vars: Seq<(&str, &str)>) -> Seq<(Seq<char>, Seq<char>)> {
    Seq::new(vars.len(), |i: int| (vars[i].0@, vars[i].1@))
}

/// Feeds a value into a hasher with `Hash::hash`. Trusted, and nothing is
/// said of the state of the hasher afterwards: what a value feeds is up to
/// its type.
#[verifier::external_body]
fn feed<H: Hash>(value: &H, hasher: &mut DefaultHasher) {
    value.hash(hasher);
}

/// The place of the first entry for `var`, or the length where there is
/// none.
fn find_var(env: &Vec<(&str, &str)>, var: &str) -> (k: usize)
    ensures
        k == position(env.deep_view(), names_var(var@)),
        k <= env.len(),
{
    let mut i: usize = 0;
    while i < env.len()
        invariant
            i <= env.len(),
            forall|j: int| 0 <= j < i ==> env.deep_view()[j].0 != var@,
        decreases env.len() - i,
    {
        if text_eq(env[i].0, var) {
            proof {
                assert(env.deep_view()[i as int].0 == var@);
                lemma_position(env.deep_view(), names_var(var@), i as int);
            }
            return i;
        }
        assert(env.deep_view()[i as int].0 != var@);
        i += 1;
    }
    proof {
        lemma_position(env.deep_view(), names_var(var@), i as int);
    }
    i
}

/// Sets `var` to `val` in an environment.
fn set_var<'a>(env: &mut Vec<(&'a str, &'a str)>, var: &'a str, val: &'a str)
    ensures
        final(env).deep_view() == env_set(old(env).deep_view(), var@, val@),
{
    let k: usize = find_var(env, var);
    if k < env.len() {
        env.set(k, (var, val));
        assert(env.deep_view() =~= old(env).deep_view().update(k as int, (var@, val@)));
    } else {
        env.push((var, val));
        assert(env.deep_view() =~= old(env).deep_view().push((var@, val@)));
    }
}

/// Takes the first entry for `var` out of an environment.
fn unset_var(env: &mut Vec<(&str, &str)>, var: &str)
    ensures
        final(env).deep_view() == env_unset(old(env).deep_view(), var@),
{
    let k: usize = find_var(env, var);
    if k < env.len() {
        env.remove(k);
        assert(env.deep_view() =~= old(env).deep_view().remove(k as int));
    }
}

/// Whether a directory of rustup's toolchains stands at place `k` of the
/// components of a path: `toolchains`, directly below `.rustup`.
pub open spec fn toolchains_at(parts: Seq<Seq<char>>, k: int) -> bool {
    1 <= k < parts.len() && parts[k - 1] == ".rustup"@ && parts[k] == "toolchains"@
}

/// Whether the components of a path are those of the `bin` or `lib`
/// directory of a rustup toolchain: the last is `lib` or `bin`, and
/// somewhere `toolchains` stands directly below `.rustup`.
pub open spec fn toolchain_dir(parts: Seq<Seq<char>>) -> bool {
    &&& parts.len() > 0
    &&& parts.last() == "lib"@ || parts.last() == "bin"@
    &&& exists|k: int| toolchains_at(parts, k)
}

/// Whether the components of a path are those of the `bin` or `lib`
/// directory of a rustup toolchain. The cargo in such a directory does not
/// understand `+toolchain`, so the directory is to leave the search path
/// before cargo is run.
pub fn is_toolchain_dir(parts: &Vec<String>) -> (r: bool)
    ensures
        r == toolchain_dir(parts.deep_view()),
{
    let n: usize = parts.len();
    if n == 0 {
        return false;
    }
    if !text_eq(parts[n - 1].as_str(), "lib") && !text_eq(parts[n - 1].as_str(), "bin") {
        return false;
    }
    let mut k: usize = 1;
    while k < n
        invariant
            1 <= k <= n,
            n == parts.len(),
            parts.deep_view().last() == "lib"@ || parts.deep_view().last() == "bin"@,
            forall|j: int| 1 <= j < k ==> !toolchains_at(parts.deep_view(), j),
        decreases n - k,
    {
        if text_eq(parts[k - 1].as_str(), ".rustup") && text_eq(parts[k].as_str(), "toolchains") {
            assert(toolchains_at(parts.deep_view(), k as int));
            return true;
        }
        k += 1;
    }
    false
}

impl<'a> Default for Project<'a> {
    fn default() -> (r: Self)
        ensures
            r.files@.len() == 0,
            r.hash == 0,
            r.edition == Edition::E2021,
            r.env@.len() == 0,
            r.cargo_command_builder.channel is None,
            r.cargo_command_builder.subcommand is None,
            r.cargo_command_builder.build_type is None,
            r.cargo_command_builder.cargo_flags is None,
            r.cargo_command_builder.subcommand_flags is None,
            r.cargo_command_builder.dash_args is None,
            r.location is None,
            r.target_prefix is None,
    {
        Project::with_hash(0)
    }
}

impl<'a> Project<'a> {
    /// A project without files that `hashable` identifies: projects made
    /// from equal values share a directory. The number of the project is
    /// what std's default hasher makes of the value.
    pub fn new<H: Hash>(hashable: H) -> (r: Self)
        ensures
            r.files@.len() == 0,
            r.edition == Edition::E2021,
            r.env@.len() == 0,
            r.cargo_command_builder.channel is None,
            r.cargo_command_builder.subcommand is None,
            r.cargo_command_builder.build_type is None,
            r.cargo_command_builder.cargo_flags is None,
            r.cargo_command_builder.subcommand_flags is None,
            r.cargo_command_builder.dash_args is None,
            r.location is None,
            r.target_prefix is None,
    {
        let mut hasher: DefaultHasher = DefaultHasher::new();
        feed(&hashable, &mut hasher);
        Project::with_hash(hasher.finish())
    }

    /// A project without files that has the number `hash`.
    pub fn with_hash(hash: u64) -> (r: Self)
        ensures
            r.hash == hash,
            r.files@.len() == 0,
            r.edition == Edition::E2021,
            r.env@.len() == 0,
            r.cargo_command_builder.channel is None,
            r.cargo_command_builder.subcommand is None,
            r.cargo_command_builder.build_type is None,
            r.cargo_command_builder.cargo_flags is None,
            r.cargo_command_builder.subcommand_flags is None,
            r.cargo_command_builder.dash_args is None,
            r.location is None,
            r.target_prefix is None,
    {
        Project {
            files: Vec::new(),
            hash,
            edition: Edition::E2021,
            env: Vec::new(),
            cargo_command_builder: CargoCommandBuilder::new(),
            location: None,
            target_prefix: None,
        }
    }

    /// Appends a source file.
    pub fn file(&mut self, file: File<'a>) -> (r: &mut Self)
        ensures
            r.files@ == old(self).files@.push(file),
            *r == (Project { files: r.files, ..*old(self) }),
            *final(self) == *final(r),
    {
        self.files.push(file);
        self
    }

    /// Appends source files.
    pub fn files(&mut self, files: &[File<'a>]) -> (r: &mut Self)
        ensures
            r.files@ == old(self).files@ + files@,
            *r == (Project { files: r.files, ..*old(self) }),
            *final(self) == *final(r),
    {
        self.files.extend_from_slice(files);
        self
    }

    /// Sets the toolchain channel.
    pub fn channel(&mut self, channel: Channel) -> (r: &mut Self)
        ensures
            r.cargo_command_builder == (CargoCommandBuilder {
                channel: Some(channel),
                ..old(self).cargo_command_builder
            }),
            *r == (Project { cargo_command_builder: r.cargo_command_builder, ..*old(self) }),
            *final(self) == *final(r),
    {
        self.cargo_command_builder.channel(channel);
        self
    }

    /// Appends a flag of cargo itself.
    pub fn cargo_flag(&mut self, flag: &'a str) -> (r: &mut Self)
        ensures
            r.cargo_command_builder.cargo_flags is Some,
            flags_of(r.cargo_command_builder.cargo_flags) == flags_of(
                old(self).cargo_command_builder.cargo_flags,
            ).push(flag@),
            r.cargo_command_builder == (CargoCommandBuilder {
                cargo_flags: r.cargo_command_builder.cargo_flags,
                ..old(self).cargo_command_builder
            }),
            *r == (Project { cargo_command_builder: r.cargo_command_builder, ..*old(self) }),
            *final(self) == *final(r),
    {
        self.cargo_command_builder.cargo_flag(flag);
        self
    }

    /// Appends flags of cargo itself.
    pub fn cargo_flags(&mut self, flags: &[&'a str]) -> (r: &mut Self)
        ensures
            r.cargo_command_builder.cargo_flags is Some,
            flags_of(r.cargo_command_builder.cargo_flags) == flags_of(
                old(self).cargo_command_builder.cargo_flags,
            ) + texts_of(flags@),
            r.cargo_command_builder == (CargoCommandBuilder {
                cargo_flags: r.cargo_command_builder.cargo_flags,
                ..old(self).cargo_command_builder
            }),
            *r == (Project { cargo_command_builder: r.cargo_command_builder, ..*old(self) }),
            *final(self) == *final(r),
    {
        self.cargo_command_builder.cargo_flags(flags);
        self
    }

    /// Sets the subcommand.
    pub fn subcommand(&mut self, subcommand: Subcommand) -> (r: &mut Self)
        ensures
            r.cargo_command_builder == (CargoCommandBuilder {
                subcommand: Some(subcommand),
                ..old(self).cargo_command_builder
            }),
            *r == (Project { cargo_command_builder: r.cargo_command_builder, ..*old(self) }),
            *final(self) == *final(r),
    {
        self.cargo_command_builder.subcommand(subcommand);
        self
    }

    /// Appends a flag of the subcommand.
    pub fn subcommand_flag(&mut self, flag: &'a str) -> (r: &mut Self)
        ensures
            r.cargo_command_builder.subcommand_flags is Some,
            flags_of(r.cargo_command_builder.subcommand_flags) == flags_of(
                old(self).cargo_command_builder.subcommand_flags,
            ).push(flag@),
            r.cargo_command_builder == (CargoCommandBuilder {
                subcommand_flags: r.cargo_command_builder.subcommand_flags,
                ..old(self).cargo_command_builder
            }),
            *r == (Project { cargo_command_builder: r.cargo_command_builder, ..*old(self) }),
            *final(self) == *final(r),
    {
        self.cargo_command_builder.subcommand_flag(flag);
        self
    }

    /// Appends flags of the subcommand.
    pub fn subcommand_flags(&mut self, flags: &[&'a str]) -> (r: &mut Self)
        ensures
            r.cargo_command_builder.subcommand_flags is Some,
            flags_of(r.cargo_command_builder.subcommand_flags) == flags_of(
                old(self).cargo_command_builder.subcommand_flags,
            ) + texts_of(flags@),
            r.cargo_command_builder == (CargoCommandBuilder {
                subcommand_flags: r.cargo_command_builder.subcommand_flags,
                ..old(self).cargo_command_builder
            }),
            *r == (Project { cargo_command_builder: r.cargo_command_builder, ..*old(self) }),
            *final(self) == *final(r),
    {
        self.cargo_command_builder.subcommand_flags(flags);
        self
    }

    /// Sets the build type.
    pub fn build_type(&mut self, build_type: BuildType) -> (r: &mut Self)
        ensures
            r.cargo_command_builder == (CargoCommandBuilder {
                build_type: Some(build_type),
                ..old(self).cargo_command_builder
            }),
            *r == (Project { cargo_command_builder: r.cargo_command_builder, ..*old(self) }),
            *final(self) == *final(r),
    {
        self.cargo_command_builder.build_type(build_type);
        self
    }

    /// Appends an argument behind `--`.
    pub fn dash_arg(&mut self, arg: &'a str) -> (r: &mut Self)
        ensures
            r.cargo_command_builder.dash_args is Some,
            flags_of(r.cargo_command_builder.dash_args) == flags_of(
                old(self).cargo_command_builder.dash_args,
            ).push(arg@),
            r.cargo_command_builder == (CargoCommandBuilder {
                dash_args: r.cargo_command_builder.dash_args,
                ..old(self).cargo_command_builder
            }),
            *r == (Project { cargo_command_builder: r.cargo_command_builder, ..*old(self) }),
            *final(self) == *final(r),
    {
        self.cargo_command_builder.dash_arg(arg);
        self
    }

    /// Appends arguments behind `--`.
    pub fn dash_args(&mut self, args: &[&'a str]) -> (r: &mut Self)
        ensures
            r.cargo_command_builder.dash_args is Some,
            flags_of(r.cargo_command_builder.dash_args) == flags_of(
                old(self).cargo_command_builder.dash_args,
            ) + texts_of(args@),
            r.cargo_command_builder == (CargoCommandBuilder {
                dash_args: r.cargo_command_builder.dash_args,
                ..old(self).cargo_command_builder
            }),
            *r == (Project { cargo_command_builder: r.cargo_command_builder, ..*old(self) }),
            *final(self) == *final(r),
    {
        self.cargo_command_builder.dash_args(args);
        self
    }

    /// Sets the edition.
    pub fn edition(&mut self, edition: Edition) -> (r: &mut Self)
        ensures
            *r == (Project { edition: edition, ..*old(self) }),
            *final(self) == *final(r),
    {
        self.edition = edition;
        self
    }

    /// Sets what a panic prints of the backtrace: `RUST_BACKTRACE` leaves
    /// the environment for `Backtrace::Off`, and is set to `1` or `full`
    /// otherwise.
    pub fn backtrace(&mut self, backtrace: Backtrace) -> (r: &mut Self)
        ensures
            r.env.deep_view() == (if backtrace == Backtrace::Off {
                env_unset(old(self).env.deep_view(), "RUST_BACKTRACE"@)
            } else {
                env_set(old(self).env.deep_view(), "RUST_BACKTRACE"@, backtrace.text())
            }),
            *r == (Project { env: r.env, ..*old(self) }),
            *final(self) == *final(r),
    {
        match backtrace {
            Backtrace::Off => {
                unset_var(&mut self.env, "RUST_BACKTRACE");
            },
            _ => {
                set_var(&mut self.env, "RUST_BACKTRACE", backtrace.as_str());
            },
        }
        self
    }

    /// Sets `RUSTFLAGS`, replacing its value where it has one.
    pub fn rust_flags(&mut self, val: &'a str) -> (r: &mut Self)
        ensures
            r.env.deep_view() == env_set(old(self).env.deep_view(), "RUSTFLAGS"@, val@),
            *r == (Project { env: r.env, ..*old(self) }),
            *final(self) == *final(r),
    {
        set_var(&mut self.env, "RUSTFLAGS", val);
        self
    }

    /// Sets a variable of the environment, replacing its value where it
    /// has one.
    pub fn env_var(&mut self, var: &'a str, val: &'a str) -> (r: &mut Self)
        ensures
            r.env.deep_view() == env_set(old(self).env.deep_view(), var@, val@),
            *r == (Project { env: r.env, ..*old(self) }),
            *final(self) == *final(r),
    {
        set_var(&mut self.env, var, val);
        self
    }

    /// Sets variables of the environment, in order.
    pub fn env_vars(&mut self, vars: &[(&'a str, &'a str)]) -> (r: &mut Self)
        ensures
            r.env.deep_view() == env_set_all(old(self).env.deep_view(), vars_model(vars@)),
            *r == (Project { env: r.env, ..*old(self) }),
            *final(self) == *final(r),
    {
        let ghost all = vars_model(vars@);
        let mut i: usize = 0;
        assert(all.take(0) =~= Seq::<(Seq<char>, Seq<char>)>::empty());
        while i < vars.len()
            invariant
                i <= vars.len(),
                all == vars_model(vars@),
                self.env.deep_view() == env_set_all(old(self).env.deep_view(), all.take(i as int)),
                *self == (Project { env: self.env, ..*old(self) }),
            decreases vars.len() - i,
        {
            proof {
                assert(all.take(i + 1).drop_last() =~= all.take(i as int));
                assert(all.take(i + 1).last() == (vars[i as int].0@, vars[i as int].1@));
            }
            set_var(&mut self.env, vars[i].0, vars[i].1);
            i += 1;
        }
        assert(all.take(vars.len() as int) =~= all);
        self
    }

    /// Takes a variable out of the environment.
    pub fn remove_env_var(&mut self, var: &str)
        ensures
            final(self).env.deep_view() == env_unset(old(self).env.deep_view(), var@),
            *final(self) == (Project { env: final(self).env, ..*old(self) }),
    {
        unset_var(&mut self.env, var);
    }

    /// Sets what the name of the project's directory begins with.
    pub fn target_prefix(&mut self, prefix: &'a str) -> (r: &mut Self)
        ensures
            *r == (Project { target_prefix: Some(prefix), ..*old(self) }),
            *final(self) == *final(r),
    {
        self.target_prefix = Some(prefix);
        self
    }
}

} // verus!
