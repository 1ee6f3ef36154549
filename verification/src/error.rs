//! Errors that the driver reports before compilation starts.

use vstd::prelude::*;
use vstd::string::*;
use crate::session::{LintLevel, lint_level_name, lint_level_name_str};

verus! {

/// An error in the command line or in the session it describes.
#[derive(Debug)]
pub enum DriverError {
    /// The arguments do not fit the option table; the text says why.
    ArgParse(String),
    /// A `--crate-type` part names no crate type.
    UnknownCrateType(String),
    /// A lint flag of the given level names no known lint.
    UnknownLint(LintLevel, String),
    /// A `-Z` flag names no debugging option.
    UnknownDebugFlag(String),
    /// An `--emit` part names no output type.
    UnknownEmission(String),
    /// Both `-O` and `--opt-level` were given.
    OptAndOptLevel,
    /// `--opt-level` was given a value other than 0 to 3.
    BadOptLevel(String),
    /// Both `-g` and `--debuginfo` were given.
    GAndDebuginfo,
    /// `--debuginfo` was given a value other than 0 to 2.
    BadDebuginfo(String),
    /// A `--cfg` argument is not a configuration item.
    BadCfgSpec(String),
    /// A `-C` option names no codegen option.
    UnknownCodegenOption(String),
    /// A `-C` flag option was given a value.
    CodegenOptionTakesNoValue(String),
    /// A `-C` option that needs a value was given none.
    CodegenOptionRequiresValue(String),
    /// The target triple names no known operating system.
    UnknownOs,
    /// The target triple names no known architecture.
    UnknownArch(String),
    /// The argument of `--pretty` names no pretty-printing mode.
    BadPrettyMode,
}

/// A `DriverError` with its strings taken as character sequences.
pub enum ErrorView {
    ArgParse(Seq<char>),
    UnknownCrateType(Seq<char>),
    UnknownLint(LintLevel, Seq<char>),
    UnknownDebugFlag(Seq<char>),
    UnknownEmission(Seq<char>),
    OptAndOptLevel,
    BadOptLevel(Seq<char>),
    GAndDebuginfo,
    BadDebuginfo(Seq<char>),
    BadCfgSpec(Seq<char>),
    UnknownCodegenOption(Seq<char>),
    CodegenOptionTakesNoValue(Seq<char>),
    CodegenOptionRequiresValue(Seq<char>),
    UnknownOs,
    UnknownArch(Seq<char>),
    BadPrettyMode,
}

impl View for DriverError {
    type V = ErrorView;

    open spec fn view(&self) -> ErrorView {
        match self {
            DriverError::ArgParse(s) => ErrorView::ArgParse(s@),
            DriverError::UnknownCrateType(s) => ErrorView::UnknownCrateType(s@),
            DriverError::UnknownLint(l, s) => ErrorView::UnknownLint(*l, s@),
            DriverError::UnknownDebugFlag(s) => ErrorView::UnknownDebugFlag(s@),
            DriverError::UnknownEmission(s) => ErrorView::UnknownEmission(s@),
            DriverError::OptAndOptLevel => ErrorView::OptAndOptLevel,
            DriverError::BadOptLevel(s) => ErrorView::BadOptLevel(s@),
            DriverError::GAndDebuginfo => ErrorView::GAndDebuginfo,
            DriverError::BadDebuginfo(s) => ErrorView::BadDebuginfo(s@),
            DriverError::BadCfgSpec(s) => ErrorView::BadCfgSpec(s@),
            DriverError::UnknownCodegenOption(s) => ErrorView::UnknownCodegenOption(s@),
            DriverError::CodegenOptionTakesNoValue(s) => ErrorView::CodegenOptionTakesNoValue(s@),
            DriverError::CodegenOptionRequiresValue(s) => ErrorView::CodegenOptionRequiresValue(s@),
            DriverError::UnknownOs => ErrorView::UnknownOs,
            DriverError::UnknownArch(s) => ErrorView::UnknownArch(s@),
            DriverError::BadPrettyMode => ErrorView::BadPrettyMode,
        }
    }
}

/// The text that the driver prints for an error.
pub open spec fn error_message(e: ErrorView) -> Seq<char> {
    match e {
        ErrorView::ArgParse(s) => s,
        ErrorView::UnknownCrateType(s) => "unknown crate type: `"@ + s + "`"@,
        ErrorView::UnknownLint(l, s) => "unknown "@ + lint_level_name(l) + " flag: "@ + s,
        ErrorView::UnknownDebugFlag(s) => "unknown debug flag: "@ + s,
        ErrorView::UnknownEmission(s) => "unknown emission type: `"@ + s + "`"@,
        ErrorView::OptAndOptLevel => "-O and --opt-level both provided"@,
        ErrorView::BadOptLevel(s) => "optimization level needs to be between 0-3 (instead was `"@ + s
            + "`)"@,
        ErrorView::GAndDebuginfo => "-g and --debuginfo both provided"@,
        ErrorView::BadDebuginfo(s) => "debug info level needs to be between 0-2 (instead was `"@ + s
            + "`)"@,
        ErrorView::BadCfgSpec(s) => "invalid --cfg argument: "@ + s,
        ErrorView::UnknownCodegenOption(s) => "unknown codegen option: `"@ + s + "`"@,
        ErrorView::CodegenOptionTakesNoValue(s) => "codegen option `"@ + s + "` takes no value"@,
        ErrorView::CodegenOptionRequiresValue(s) => "codegen option `"@ + s
            + "` requires a value (-C "@ + s + "=<value>)"@,
        ErrorView::UnknownOs => "unknown operating system"@,
        ErrorView::UnknownArch(s) => "unknown architecture: "@ + s,
        ErrorView::BadPrettyMode =>
            "argument to `pretty` must be one of `normal`, `expanded`, `typed`, `identified`, or `expanded,identified`"@,
    }
}

fn join2(a: &str, b: &str) -> (r: String)
    ensures
        r@ == a@ + b@,
{
    let mut r = String::from_str(a);
    r.append(b);
    r
}

fn join3(a: &str, b: &str, c: &str) -> (r: String)
    ensures
        r@ == a@ + b@ + c@,
{
    let mut r = String::from_str(a);
    r.append(b);
    r.append(c);
    r
}

impl DriverError {
    /// The text that the driver prints for this error.
    pub fn message(&self) -> (r: String)
        ensures
            r@ == error_message(self@),
    {
        match self {
            DriverError::ArgParse(s) => s.clone(),
            DriverError::UnknownCrateType(s) => join3("unknown crate type: `", s.as_str(), "`"),
            DriverError::UnknownLint(l, s) => {
                let mut r = join3("unknown ", lint_level_name_str(*l), " flag: ");
                r.append(s.as_str());
                r
            },
            DriverError::UnknownDebugFlag(s) => join2("unknown debug flag: ", s.as_str()),
            DriverError::UnknownEmission(s) => join3("unknown emission type: `", s.as_str(), "`"),
            DriverError::OptAndOptLevel => String::from_str("-O and --opt-level both provided"),
            DriverError::BadOptLevel(s) => join3(
                "optimization level needs to be between 0-3 (instead was `",
                s.as_str(),
                "`)",
            ),
            DriverError::GAndDebuginfo => String::from_str("-g and --debuginfo both provided"),
            DriverError::BadDebuginfo(s) => join3(
                "debug info level needs to be between 0-2 (instead was `",
                s.as_str(),
                "`)",
            ),
            DriverError::BadCfgSpec(s) => join2("invalid --cfg argument: ", s.as_str()),
            DriverError::UnknownCodegenOption(s) => join3(
                "unknown codegen option: `",
                s.as_str(),
                "`",
            ),
            DriverError::CodegenOptionTakesNoValue(s) => join3(
                "codegen option `",
                s.as_str(),
                "` takes no value",
            ),
            DriverError::CodegenOptionRequiresValue(s) => {
                let mut r = join3("codegen option `", s.as_str(), "` requires a value (-C ");
                r.append(s.as_str());
                r.append("=<value>)");
                r
            },
            DriverError::UnknownOs => String::from_str("unknown operating system"),
            DriverError::UnknownArch(s) => join2("unknown architecture: ", s.as_str()),
            DriverError::BadPrettyMode => String::from_str(
                "argument to `pretty` must be one of `normal`, `expanded`, `typed`, `identified`, or `expanded,identified`",
            ),
        }
    }
}

} // verus!
