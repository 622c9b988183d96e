//! The arguments of a cargo invocation: toolchain channel, flags,
//! subcommand and what follows `--`.

use vstd::prelude::*;
use vstd::string::*;
use crate::project::{BuildType, Channel, Subcommand};

verus! {

/// Collects the parts of a cargo command line.
#[derive(Debug, Clone)]
pub struct CargoCommandBuilder<'a> {
    pub channel: Option<Channel>,
    pub subcommand: Option<Subcommand>,
    /// Debug or release.
    pub build_type: Option<BuildType>,
    pub cargo_flags: Option<Vec<&'a str>>,
    pub subcommand_flags: Option<Vec<&'a str>>,
    pub dash_args: Option<Vec<&'a str>>,
}

/// The flags of a list that may not have been started yet.
pub open spec fn flags_of(list: Option<Vec<&str>>) -> Seq<Seq<char>> {
    match list {
        Some(flags) => flags.deep_view(),
        None => Seq::empty(),
    }
}

/// The texts of a list of flags.
pub open spec fn texts_of(flags: Seq<&str>) -> Seq<Seq<char>> {
    Seq::new(flags.len(), |i: int| flags[i]@)
}

impl<'a> CargoCommandBuilder<'a> {
    /// The arguments that follow the program name `cargo`, in order:
    /// `+<channel>`, the cargo flags, the subcommand, its flags,
    /// `--release` for a release build, and `--` with what follows it.
    pub open spec fn command_args(self) -> Seq<Seq<char>> {
        channel_part(self.channel) + flags_of(self.cargo_flags) + subcommand_part(self.subcommand)
            + flags_of(self.subcommand_flags) + release_part(self.build_type) + dash_part(
            self.dash_args,
        )
    }

    /// A builder with nothing set.
    pub fn new() -> (r: Self)
        ensures
            r.channel is None,
            r.subcommand is None,
            r.build_type is None,
            r.cargo_flags is None,
            r.subcommand_flags is None,
            r.dash_args is None,
    {
        CargoCommandBuilder {
            channel: None,
            subcommand: None,
            build_type: None,
            cargo_flags: None,
            subcommand_flags: None,
            dash_args: None,
        }
    }

    /// Sets the toolchain channel.
    pub fn channel(&mut self, channel: Channel) -> (r: &mut Self)
        ensures
            *r == (CargoCommandBuilder { channel: Some(channel), ..*old(self) }),
            *final(self) == *final(r),
    {
        self.channel = Some(channel);
        self
    }

    /// Sets the subcommand.
    pub fn subcommand(&mut self, subcommand: Subcommand) -> (r: &mut Self)
        ensures
            *r == (CargoCommandBuilder { subcommand: Some(subcommand), ..*old(self) }),
            *final(self) == *final(r),
    {
        self.subcommand = Some(subcommand);
        self
    }

    /// Sets the build type.
    pub fn build_type(&mut self, build_type: BuildType) -> (r: &mut Self)
        ensures
            *r == (CargoCommandBuilder { build_type: Some(build_type), ..*old(self) }),
            *final(self) == *final(r),
    {
        self.build_type = Some(build_type);
        self
    }

    /// Appends a flag of the subcommand.
    pub fn subcommand_flag(&mut self, flag: &'a str) -> (r: &mut Self)
        ensures
            r.subcommand_flags is Some,
            flags_of(r.subcommand_flags) == flags_of(old(self).subcommand_flags).push(flag@),
            r.channel == old(self).channel,
            r.subcommand == old(self).subcommand,
            r.build_type == old(self).build_type,
            r.cargo_flags == old(self).cargo_flags,
            r.dash_args == old(self).dash_args,
            *final(self) == *final(r),
    {
        push_flag(&mut self.subcommand_flags, flag);
        self
    }

    /// Appends flags of the subcommand.
    pub fn subcommand_flags(&mut self, flags: &[&'a str]) -> (r: &mut Self)
        ensures
            r.subcommand_flags is Some,
            flags_of(r.subcommand_flags) == flags_of(old(self).subcommand_flags) + texts_of(flags@),
            r.channel == old(self).channel,
            r.subcommand == old(self).subcommand,
            r.build_type == old(self).build_type,
            r.cargo_flags == old(self).cargo_flags,
            r.dash_args == old(self).dash_args,
            *final(self) == *final(r),
    {
        push_flags(&mut self.subcommand_flags, flags);
        self
    }

    /// Appends a flag of cargo itself.
    pub fn cargo_flag(&mut self, flag: &'a str) -> (r: &mut Self)
        ensures
            r.cargo_flags is Some,
            flags_of(r.cargo_flags) == flags_of(old(self).cargo_flags).push(flag@),
            r.channel == old(self).channel,
            r.subcommand == old(self).subcommand,
            r.build_type == old(self).build_type,
            r.subcommand_flags == old(self).subcommand_flags,
            r.dash_args == old(self).dash_args,
            *final(self) == *final(r),
    {
        push_flag(&mut self.cargo_flags, flag);
        self
    }

    /// Appends flags of cargo itself.
    pub fn cargo_flags(&mut self, flags: &[&'a str]) -> (r: &mut Self)
        ensures
            r.cargo_flags is Some,
            flags_of(r.cargo_flags) == flags_of(old(self).cargo_flags) + texts_of(flags@),
            r.channel == old(self).channel,
            r.subcommand == old(self).subcommand,
            r.build_type == old(self).build_type,
            r.subcommand_flags == old(self).subcommand_flags,
            r.dash_args == old(self).dash_args,
            *final(self) == *final(r),
    {
        push_flags(&mut self.cargo_flags, flags);
        self
    }

    /// Appends an argument behind `--`.
    pub fn dash_arg(&mut self, arg: &'a str) -> (r: &mut Self)
        ensures
            r.dash_args is Some,
            flags_of(r.dash_args) == flags_of(old(self).dash_args).push(arg@),
            r.channel == old(self).channel,
            r.subcommand == old(self).subcommand,
            r.build_type == old(self).build_type,
            r.cargo_flags == old(self).cargo_flags,
            r.subcommand_flags == old(self).subcommand_flags,
            *final(self) == *final(r),
    {
        push_flag(&mut self.dash_args, arg);
        self
    }

    /// Appends arguments behind `--`.
    pub fn dash_args(&mut self, args: &[&'a str]) -> (r: &mut Self)
        ensures
            r.dash_args is Some,
            flags_of(r.dash_args) == flags_of(old(self).dash_args) + texts_of(args@),
            r.channel == old(self).channel,
            r.subcommand == old(self).subcommand,
            r.build_type == old(self).build_type,
            r.cargo_flags == old(self).cargo_flags,
            r.subcommand_flags == old(self).subcommand_flags,
            *final(self) == *final(r),
    {
        push_flags(&mut self.dash_args, args);
        self
    }

    /// The program that the command runs.
    pub fn program(&self) -> (r: &'static str)
        ensures
            r@ == "cargo"@,
    {
        "cargo"
    }

    /// The arguments of the command, in order.
    pub fn args(&self) -> (r: Vec<String>)
        ensures
            r.deep_view() == self.command_args(),
    {
        let mut out: Vec<String> = Vec::new();
        match self.channel {
            Some(channel) => {
                let mut arg: String = String::from_str("+");
                arg.append(channel.as_str());
                out.push(arg);
            },
            None => {},
        }
        assert(out.deep_view() =~= channel_part(self.channel));
        append_flags(&mut out, &self.cargo_flags);
        match self.subcommand {
            Some(subcommand) => append_text(&mut out, subcommand.as_str()),
            None => {
                assert(out.deep_view() =~= out.deep_view() + Seq::<Seq<char>>::empty());
            },
        }
        append_flags(&mut out, &self.subcommand_flags);
        match self.build_type {
            Some(BuildType::Release) => append_text(&mut out, BuildType::Release.as_str()),
            _ => {
                assert(out.deep_view() =~= out.deep_view() + Seq::<Seq<char>>::empty());
            },
        }
        match &self.dash_args {
            Some(args) => {
                let ghost before = out.deep_view();
                append_text(&mut out, "--");
                append_flags(&mut out, &self.dash_args);
                assert(out.deep_view() =~= before + (seq!["--"@] + args.deep_view()));
            },
            None => {
                assert(out.deep_view() =~= out.deep_view() + Seq::<Seq<char>>::empty());
            },
        }
        out
    }
}

/// The argument that selects the toolchain channel.
pub open spec fn channel_part(channel: Option<Channel>) -> Seq<Seq<char>> {
    match channel {
        Some(channel) => seq!["+"@ + channel.text()],
        None => Seq::empty(),
    }
}

/// The argument that names the subcommand.
pub open spec fn subcommand_part(subcommand: Option<Subcommand>) -> Seq<Seq<char>> {
    match subcommand {
        Some(subcommand) => seq![subcommand.text()],
        None => Seq::empty(),
    }
}

/// The flag of a release build; a debug build has none.
pub open spec fn release_part(build_type: Option<BuildType>) -> Seq<Seq<char>> {
    if build_type == Some(BuildType::Release) {
        seq![BuildType::Release.text()]
    } else {
        Seq::empty()
    }
}

/// `--` and the arguments behind it, where such a list was started.
pub open spec fn dash_part(args: Option<Vec<&str>>) -> Seq<Seq<char>> {
    match args {
        Some(args) => seq!["--"@] + args.deep_view(),
        None => Seq::empty(),
    }
}

/// Appends one argument.
fn append_text(out: &mut Vec<String>, text: &str)
    ensures
        final(out).deep_view() == old(out).deep_view() + seq![text@],
{
    out.push(String::from_str(text));
    assert(out.deep_view() =~= old(out).deep_view() + seq![text@]);
}

impl<'a> Default for CargoCommandBuilder<'a> {
    fn default() -> (r: Self)
        ensures
            r.channel is None,
            r.subcommand is None,
            r.build_type is None,
            r.cargo_flags is None,
            r.subcommand_flags is None,
            r.dash_args is None,
    {
        CargoCommandBuilder::new()
    }
}

/// Appends `flag` to a list, which is started where it was not.
fn push_flag<'a>(list: &mut Option<Vec<&'a str>>, flag: &'a str)
    ensures
        *final(list) is Some,
        flags_of(*final(list)) == flags_of(*old(list)).push(flag@),
{
    let mut flags: Vec<&'a str> = match list.take() {
        Some(flags) => flags,
        None => Vec::new(),
    };
    let ghost before = flags.deep_view();
    assert(before =~= flags_of(*old(list)));
    flags.push(flag);
    assert(flags.deep_view() =~= before.push(flag@));
    *list = Some(flags);
}

/// Appends `more` to a list, which is started where it was not.
fn push_flags<'a>(list: &mut Option<Vec<&'a str>>, more: &[&'a str])
    ensures
        *final(list) is Some,
        flags_of(*final(list)) == flags_of(*old(list)) + texts_of(more@),
{
    let mut flags: Vec<&'a str> = match list.take() {
        Some(flags) => flags,
        None => Vec::new(),
    };
    let ghost before = flags.deep_view();
    assert(before =~= flags_of(*old(list)));
    flags.extend_from_slice(more);
    assert(flags.deep_view() =~= before + texts_of(more@));
    *list = Some(flags);
}

/// Appends the flags of a list to `out`, each as text of its own.
fn append_flags(out: &mut Vec<String>, list: &Option<Vec<&str>>)
    ensures
        final(out).deep_view() == old(out).deep_view() + flags_of(*list),
{
    match list {
        Some(flags) => {
            let ghost all = flags.deep_view();
            let mut i: usize = 0;
            assert(out.deep_view() =~= old(out).deep_view() + all.take(0));
            while i < flags.len()
                invariant
                    i <= flags.len(),
                    all == flags.deep_view(),
                    out.deep_view() == old(out).deep_view() + all.take(i as int),
                decreases flags.len() - i,
            {
                let ghost before = out.deep_view();
                out.push(String::from_str(flags[i]));
                assert(out.deep_view() =~= before.push(flags[i as int]@));
                assert(old(out).deep_view() + all.take(i + 1) =~= (old(out).deep_view() + all.take(
                    i as int,
                )).push(flags[i as int]@));
                i += 1;
            }
            assert(all.take(flags.len() as int) =~= all);
        },
        None => {
            assert(out.deep_view() =~= old(out).deep_view() + Seq::<Seq<char>>::empty());
        },
    }
}

} // verus!
