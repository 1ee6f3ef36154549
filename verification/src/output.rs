//! The input of a compilation and the names of its output files.

use vstd::prelude::*;
use vstd::string::*;
use crate::path::{filestem, join, normalize, with_extension, dir_path, path_filestem, path_join, path_normalize, path_with_extension, path_dir_path};
use crate::session::{OutputType, Session, opt_str_view};

verus! {

/// Where the source of a compilation comes from.
#[derive(Debug)]
pub enum Input {
    /// Load source from file
    FileInput(String),
    /// The string is the source
    StrInput(String),
}

/// An `Input` with its strings taken as character sequences.
pub enum InputView {
    FileInput(Seq<char>),
    StrInput(Seq<char>),
}

impl View for Input {
    type V = InputView;

    open spec fn view(&self) -> InputView {
        match self {
            Input::FileInput(p) => InputView::FileInput(p@),
            Input::StrInput(s) => InputView::StrInput(s@),
        }
    }
}

/// The name used for source code that doesn't originate in a file (e.g.
/// source from stdin or a string).
pub open spec fn spec_anon_src() -> Seq<char> {
    "<anon>"@
}

/// The name used for source code that doesn't originate in a file (e.g.
/// source from stdin or a string).
pub fn anon_src() -> (r: String)
    ensures
        r@ == spec_anon_src(),
{
    String::from_str("<anon>")
}

/// The name of the source: the path of a file in its normal form, else the
/// anonymous name.
pub open spec fn spec_source_name(input: InputView) -> Seq<char> {
    match input {
        InputView::FileInput(p) => normalize(p),
        InputView::StrInput(_) => spec_anon_src(),
    }
}

/// The name of the source: the path of a file, else the anonymous name.
pub fn source_name(input: &Input) -> (r: String)
    ensures
        r@ == spec_source_name(input@),
{
    match input {
        Input::FileInput(p) => path_normalize(p.as_str()),
        Input::StrInput(_) => anon_src(),
    }
}

/// An input whose file path has a file stem (a string input always has one).
pub open spec fn input_has_stem(input: InputView) -> bool {
    match input {
        InputView::FileInput(p) => filestem(normalize(p)) is Some,
        InputView::StrInput(_) => true,
    }
}

/// The stem of the input: the file stem of its path in normal form, or
/// `rust_out` for a string.
pub open spec fn input_filestem(input: InputView) -> Seq<char> {
    match input {
        InputView::FileInput(p) => filestem(normalize(p))->0,
        InputView::StrInput(_) => "rust_out"@,
    }
}

impl Input {
    /// The stem of the input: the file stem of its path, or `rust_out` for a
    /// string.
    pub fn filestem(&self) -> (r: String)
        requires
            input_has_stem(self@),
        ensures
            r@ == input_filestem(self@),
    {
        match self {
            Input::FileInput(p) => match path_filestem(path_normalize(p.as_str()).as_str()) {
                Some(s) => s,
                None => String::new(),
            },
            Input::StrInput(_) => String::from_str("rust_out"),
        }
    }
}

/// Where the outputs of a compilation go: a directory and a file stem, or a
/// single file that every output is written to.
#[derive(Debug)]
pub struct OutputFilenames {
    pub out_directory: String,
    pub out_filestem: String,
    pub single_output_file: Option<String>,
}

/// `OutputFilenames` with its strings taken as character sequences.
pub struct OutputFilenamesView {
    pub out_directory: Seq<char>,
    pub out_filestem: Seq<char>,
    pub single_output_file: Option<Seq<char>>,
}

impl View for OutputFilenames {
    type V = OutputFilenamesView;

    open spec fn view(&self) -> OutputFilenamesView {
        OutputFilenamesView {
            out_directory: self.out_directory@,
            out_filestem: self.out_filestem@,
            single_output_file: opt_str_view(self.single_output_file),
        }
    }
}

/// The extension of the file of an output type; none for an executable.
pub open spec fn output_extension(t: OutputType) -> Seq<char> {
    match t {
        OutputType::Bitcode => "bc"@,
        OutputType::Assembly => "s"@,
        OutputType::LlvmAssembly => "ll"@,
        OutputType::Object => "o"@,
        OutputType::Exe => ""@,
    }
}

/// The file of an output type in the output directory: the stem there, with
/// the type's extension, or bare for an executable.
pub open spec fn spec_temp_path(o: OutputFilenamesView, t: OutputType) -> Seq<char> {
    let base = join(o.out_directory, o.out_filestem);
    match t {
        OutputType::Exe => base,
        _ => with_extension(base, output_extension(t)),
    }
}

/// The file of an output type: the single output file where there is one,
/// else the file in the output directory.
pub open spec fn spec_output_path(o: OutputFilenamesView, t: OutputType) -> Seq<char> {
    match o.single_output_file {
        Some(p) => p,
        None => spec_temp_path(o, t),
    }
}

/// The stem in the output directory with the given extension.
pub open spec fn spec_output_with_extension(o: OutputFilenamesView, ext: Seq<char>) -> Seq<char> {
    with_extension(join(o.out_directory, o.out_filestem), ext)
}

impl OutputFilenames {
    /// The file of an output type: the single output file where there is
    /// one, else the file in the output directory.
    pub fn path(&self, flavor: OutputType) -> (r: String)
        ensures
            r@ == spec_output_path(self@, flavor),
    {
        match &self.single_output_file {
            Some(p) => p.clone(),
            None => self.temp_path(flavor),
        }
    }

    /// The file of an output type in the output directory.
    pub fn temp_path(&self, flavor: OutputType) -> (r: String)
        ensures
            r@ == spec_temp_path(self@, flavor),
    {
        let base = path_join(self.out_directory.as_str(), self.out_filestem.as_str());
        match flavor {
            OutputType::Bitcode => path_with_extension(base.as_str(), "bc"),
            OutputType::Assembly => path_with_extension(base.as_str(), "s"),
            OutputType::LlvmAssembly => path_with_extension(base.as_str(), "ll"),
            OutputType::Object => path_with_extension(base.as_str(), "o"),
            OutputType::Exe => base,
        }
    }

    /// The stem in the output directory with the given extension.
    pub fn with_extension(&self, extension: &str) -> (r: String)
        ensures
            r@ == spec_output_with_extension(self@, extension@),
    {
        let base = path_join(self.out_directory.as_str(), self.out_filestem.as_str());
        path_with_extension(base.as_str(), extension)
    }
}

/// A warning that the driver gives while choosing output file names.
#[derive(Clone, Copy, PartialEq, Eq, Structural, Debug)]
pub enum OutputWarning {
    /// `-o` was given but several outputs were requested.
    IgnoringOutputFile,
    /// `--out-dir` was given along with `-o`.
    IgnoringOutDir,
}

/// The text of an output warning.
pub open spec fn output_warning_message(w: OutputWarning) -> Seq<char> {
    match w {
        OutputWarning::IgnoringOutputFile =>
            "ignoring specified output filename because multiple outputs were requested"@,
        OutputWarning::IgnoringOutDir => "ignoring --out-dir flag due to -o flag."@,
    }
}

impl OutputWarning {
    /// The text of this warning.
    pub fn message(&self) -> (r: String)
        ensures
            r@ == output_warning_message(*self),
    {
        match self {
            OutputWarning::IgnoringOutputFile => String::from_str(
                "ignoring specified output filename because multiple outputs were requested",
            ),
            OutputWarning::IgnoringOutDir => String::from_str(
                "ignoring --out-dir flag due to -o flag.",
            ),
        }
    }
}

/// The inputs of `build_output_filenames` that it may not panic on: a path
/// with a file stem where it reads one.
pub open spec fn output_names_defined(input: InputView, ofile: Option<Seq<char>>) -> bool {
    match ofile {
        None => input_has_stem(input),
        Some(f) => filestem(normalize(f)) is Some,
    }
}

/// Where the outputs go, with the warnings given on the way; paths are taken
/// in their normal form. Without `-o`: the `--out-dir` directory (or `.`) and
/// the crate's name where its crate id gives one, else the input's stem.
/// With `-o`: the file's directory and stem, the file itself being the single
/// output only where at most one output was requested.
pub open spec fn spec_output_filenames(
    input: InputView,
    odir: Option<Seq<char>>,
    ofile: Option<Seq<char>>,
    crate_name: Option<Seq<char>>,
    n_outputs: nat,
) -> (OutputFilenamesView, Seq<OutputWarning>) {
    match ofile {
        None => (
            OutputFilenamesView {
                out_directory: match odir {
                    Some(d) => normalize(d),
                    None => "."@,
                },
                out_filestem: match crate_name {
                    Some(n) => n,
                    None => input_filestem(input),
                },
                single_output_file: None,
            },
            Seq::empty(),
        ),
        Some(f) => (
            OutputFilenamesView {
                out_directory: dir_path(normalize(f)),
                out_filestem: filestem(normalize(f))->0,
                single_output_file: if n_outputs > 1 {
                    None
                } else {
                    Some(normalize(f))
                },
            },
            (if n_outputs > 1 {
                seq![OutputWarning::IgnoringOutputFile]
            } else {
                Seq::empty()
            }) + (if odir is Some {
                seq![OutputWarning::IgnoringOutDir]
            } else {
                Seq::empty()
            }),
        ),
    }
}

/// Where the outputs of a compilation go, with the warnings given on the way.
/// `crate_name` is the name of the crate id among the crate's attributes, if
/// it has one.
pub fn build_output_filenames(
    input: &Input,
    odir: &Option<String>,
    ofile: &Option<String>,
    crate_name: &Option<String>,
    sess: &Session,
) -> (r: (OutputFilenames, Vec<OutputWarning>))
    requires
        output_names_defined(input@, opt_str_view(*ofile)),
    ensures
        (r.0@, r.1@) == spec_output_filenames(
            input@,
            opt_str_view(*odir),
            opt_str_view(*ofile),
            opt_str_view(*crate_name),
            sess.opts.output_types@.len(),
        ),
{
    let mut warnings: Vec<OutputWarning> = Vec::new();
    match ofile {
        None => {
            let dirpath = match odir {
                Some(d) => path_normalize(d.as_str()),
                None => String::from_str("."),
            };
            let stem = match crate_name {
                Some(n) => n.clone(),
                None => input.filestem(),
            };
            assert(warnings@ =~= Seq::<OutputWarning>::empty());
            (OutputFilenames { out_directory: dirpath, out_filestem: stem, single_output_file: None }, warnings)
        },
        Some(out_file) => {
            let f = path_normalize(out_file.as_str());
            let single = if sess.opts.output_types.len() > 1 {
                warnings.push(OutputWarning::IgnoringOutputFile);
                None
            } else {
                Some(f.clone())
            };
            if odir.is_some() {
                warnings.push(OutputWarning::IgnoringOutDir);
            }
            assert(warnings@ =~= (if sess.opts.output_types@.len() > 1 {
                seq![OutputWarning::IgnoringOutputFile]
            } else {
                Seq::empty()
            }) + (if odir.is_some() {
                seq![OutputWarning::IgnoringOutDir]
            } else {
                Seq::empty()
            }));
            let stem = match path_filestem(f.as_str()) {
                Some(s) => s,
                None => String::new(),
            };
            (
                OutputFilenames {
                    out_directory: path_dir_path(f.as_str()),
                    out_filestem: stem,
                    single_output_file: single,
                },
                warnings,
            )
        },
    }
}

} // verus!
