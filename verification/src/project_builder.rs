//! What a project looks like on disk: the text of its manifest and the
//! names of its directory and files.

use vstd::prelude::*;
use vstd::string::*;
use crate::infer::{codes_of, dependency_prefix, infer_deps, manifest, parsed_trees};
use crate::project::{Edition, File, Project};
use crate::seqs::{lemma_position, lemma_position_bounds, position};
use crate::text::{
    after_first_line, decimal, decimal_text, first_line, has_prefix, is_char, line_break,
    split_first_line, strip_prefix, text_eq,
};

verus! {

/// Lays a project out for cargo.
pub struct ProjectBuilder<'a, 'b> {
    pub project: &'a Project<'b>,
}

/// The prefix of a line of freeform manifest text.
pub open spec fn config_prefix() -> Seq<char> {
    "//> "@
}

/// The freeform manifest text of a source text. It is taken from the
/// unbroken run of lines at the start that begin with either prefix: a
/// line with the config prefix contributes what stands behind the prefix,
/// as it is, followed by a line break; a line with the dependency prefix is
/// passed over.
pub open spec fn extra_config(code: Seq<char>) -> Seq<char>
    decreases code.len(),
{
    if code.len() == 0 {
        Seq::empty()
    } else if config_prefix().is_prefix_of(first_line(code)) {
        first_line(code).skip(config_prefix().len() as int) + line_break() + extra_config(
            after_first_line(code),
        )
    } else if dependency_prefix().is_prefix_of(first_line(code)) {
        extra_config(after_first_line(code))
    } else {
        Seq::empty()
    }
}

/// The test that a search for the entry file applies.
pub open spec fn is_main<'a>() -> spec_fn(File<'a>) -> bool {
    |file: File<'a>| file.name@ == "main"@
}

/// Whether one of the files is the entry file, the one named `main`.
pub open spec fn has_main(files: Seq<File>) -> bool {
    position(files, is_main()) < files.len()
}

/// The entry file: the first file named `main`.
pub open spec fn main_file(files: Seq<File>) -> File
    recommends
        has_main(files),
{
    files[position(files, is_main()) as int]
}

/// The text of a manifest: the package `p<id>` of the given edition, the
/// dependency lines, and the freeform text behind an empty line where there
/// is any.
pub open spec fn cargo_toml(
    id: u64,
    edition: Edition,
    dependencies: Seq<char>,
    extra: Seq<char>,
) -> Seq<char> {
    "[package]\nname = \"p"@ + decimal(id as nat) + "\"\nversion = \"0.1.0\"\nedition = \""@
        + edition.text() + "\"\n\n[dependencies]\n"@ + dependencies + line_break() + (if extra.len()
        > 0 {
        line_break() + extra
    } else {
        Seq::empty()
    })
}

/// The name of the directory of a project: the prefix, `cargo-play` where
/// none was set, a dot, and the number of the project.
pub open spec fn folder_name_of(prefix: Option<&str>, hash: u64) -> Seq<char> {
    (match prefix {
        Some(name) => name@,
        None => "cargo-play"@,
    }) + "."@ + decimal(hash as nat)
}

/// The freeform manifest text of a source text.
pub fn extra_cargo(code: &str) -> (r: String)
    ensures
        r@ == extra_config(code@),
{
    let mut out: String = String::new();
    let mut rest: &str = code;
    assert(out@ + extra_config(rest@) =~= extra_config(code@));
    loop
        invariant
            extra_config(code@) == out@ + extra_config(rest@),
        ensures
            extra_config(code@) == out@,
        decreases rest@.len(),
    {
        if rest.is_empty() {
            assert(out@ + Seq::<char>::empty() =~= out@);
            break ;
        }
        let (line, next) = split_first_line(rest);
        proof {
            lemma_position_bounds(rest@, is_char('\n'));
        }
        let ghost before = out@;
        match strip_prefix(line, "//> ") {
            Some(kept) => {
                out.append(kept);
                out.append("\n");
                assert(before + (kept@ + line_break() + extra_config(next@)) =~= out@
                    + extra_config(next@));
            },
            None => {
                if !has_prefix(line, "//# ") {
                    assert(out@ + Seq::<char>::empty() =~= out@);
                    break ;
                }
            },
        }
        rest = next;
    }
    out
}

/// The text of a manifest.
pub fn render_cargo_toml(id: u64, edition: Edition, dependencies: &str, extra: &str) -> (r: String)
    ensures
        r@ == cargo_toml(id, edition, dependencies@, extra@),
{
    let mut out: String = String::from_str("[package]\nname = \"p");
    out.append(decimal_text(id).as_str());
    out.append("\"\nversion = \"0.1.0\"\nedition = \"");
    out.append(edition.as_str());
    out.append("\"\n\n[dependencies]\n");
    out.append(dependencies);
    out.append("\n");
    if !extra.is_empty() {
        let ghost before = out@;
        out.append("\n");
        out.append(extra);
        assert(out@ =~= before + (line_break() + extra@));
    } else {
        assert(out@ =~= out@ + Seq::<char>::empty());
    }
    out
}

/// The place of the entry file among `files`, or their number where none
/// is named `main`.
pub fn find_main(files: &Vec<File>) -> (k: usize)
    ensures
        k == position(files@, is_main()),
        k <= files.len(),
{
    let mut i: usize = 0;
    while i < files.len()
        invariant
            i <= files.len(),
            forall|j: int| 0 <= j < i ==> files[j].name@ != "main"@,
        decreases files.len() - i,
    {
        if text_eq(files[i].name, "main") {
            proof {
                lemma_position(files@, is_main(), i as int);
            }
            return i;
        }
        i += 1;
    }
    proof {
        lemma_position(files@, is_main(), i as int);
    }
    i
}

impl<'a, 'b> ProjectBuilder<'a, 'b> {
    /// A builder for `project`.
    pub fn new(project: &'a Project<'b>) -> (r: Self)
        ensures
            r.project == project,
    {
        Self { project }
    }

    /// The text of the manifest of the project: its package is named after
    /// the number of the project, its dependencies are inferred from all
    /// files, and the freeform text is that of the entry file.
    pub fn create_cargo_toml(&self) -> (r: String)
        requires
            has_main(self.project.files@),
        ensures
            r@ == cargo_toml(
                self.project.hash,
                self.project.edition,
                manifest(codes_of(self.project.files@), parsed_trees(self.project.files@)),
                extra_config(main_file(self.project.files@).code@),
            ),
    {
        let dependencies: String = match infer_deps(self.project.files.as_slice()) {
            Ok(text) => text,
            Err(_) => String::new(),
        };
        let k: usize = find_main(&self.project.files);
        let extra: String = extra_cargo(self.project.files[k].code);
        render_cargo_toml(
            self.project.hash,
            self.project.edition,
            dependencies.as_str(),
            extra.as_str(),
        )
    }

    /// The name of the directory of the project.
    pub fn folder_name(&self) -> (r: String)
        ensures
            r@ == folder_name_of(self.project.target_prefix, self.project.hash),
    {
        let mut out: String = match self.project.target_prefix {
            Some(name) => String::from_str(name),
            None => String::from_str("cargo-play"),
        };
        out.append(".");
        out.append(decimal_text(self.project.hash).as_str());
        out
    }

    /// The name of the file that holds `file`: its name and `.rs`.
    pub fn source_file_name(file: &File) -> (r: String)
        ensures
            r@ == file.name@ + ".rs"@,
    {
        let mut out: String = String::from_str(file.name);
        out.append(".rs");
        out
    }
}

} // verus!
