//! The session model: what the driver reads of the compiler's options and
//! target configuration.

use vstd::prelude::*;
use crate::config::{MetaItem, MetaItemView};

verus! {

/// A kind of crate that the compiler can emit.
#[derive(Clone, Copy, PartialEq, Eq, Structural, Debug)]
pub enum CrateType {
    Executable,
    Dylib,
    Rlib,
    Staticlib,
}

/// A kind of output file; the variants stand in the order in which outputs
/// are sorted.
#[derive(Clone, Copy, PartialEq, Eq, Structural, Debug)]
pub enum OutputType {
    Bitcode,
    Assembly,
    LlvmAssembly,
    Object,
    Exe,
}

/// The optimization level.
#[derive(Clone, Copy, PartialEq, Eq, Structural, Debug)]
pub enum OptLevel {
    No,
    Less,
    Default,
    Aggressive,
}

/// How much debug information to emit.
#[derive(Clone, Copy, PartialEq, Eq, Structural, Debug)]
pub enum DebugInfoLevel {
    NoDebugInfo,
    LimitedDebugInfo,
    FullDebugInfo,
}

/// The level at which a lint is reported.
#[derive(Clone, Copy, PartialEq, Eq, Structural, Debug)]
pub enum LintLevel {
    Allow,
    Warn,
    Deny,
    Forbid,
}

/// A target operating system.
#[derive(Clone, Copy, PartialEq, Eq, Structural, Debug)]
pub enum Os {
    Win32,
    Macos,
    Linux,
    Android,
    Freebsd,
}

/// A target architecture.
#[derive(Clone, Copy, PartialEq, Eq, Structural, Debug)]
pub enum Architecture {
    X86,
    X86_64,
    Arm,
    Mips,
}

/// The machine type of `int`.
#[derive(Clone, Copy, PartialEq, Eq, Structural, Debug)]
pub enum IntTy {
    TyI32,
    TyI64,
}

/// The machine type of `uint`.
#[derive(Clone, Copy, PartialEq, Eq, Structural, Debug)]
pub enum UintTy {
    TyU32,
    TyU64,
}

/// The name of a lint level, as the long lint options spell it.
pub open spec fn lint_level_name(l: LintLevel) -> Seq<char> {
    match l {
        LintLevel::Allow => "allow"@,
        LintLevel::Warn => "warn"@,
        LintLevel::Deny => "deny"@,
        LintLevel::Forbid => "forbid"@,
    }
}

/// The short option of a lint level: its name's first letter in upper case.
pub open spec fn lint_level_short(l: LintLevel) -> Seq<char> {
    match l {
        LintLevel::Allow => "A"@,
        LintLevel::Warn => "W"@,
        LintLevel::Deny => "D"@,
        LintLevel::Forbid => "F"@,
    }
}

/// The name of a lint level.
pub fn lint_level_name_str(l: LintLevel) -> (r: &'static str)
    ensures
        r@ == lint_level_name(l),
{
    match l {
        LintLevel::Allow => "allow",
        LintLevel::Warn => "warn",
        LintLevel::Deny => "deny",
        LintLevel::Forbid => "forbid",
    }
}

/// The short option of a lint level.
pub fn lint_level_short_str(l: LintLevel) -> (r: &'static str)
    ensures
        r@ == lint_level_short(l),
{
    match l {
        LintLevel::Allow => "A",
        LintLevel::Warn => "W",
        LintLevel::Deny => "D",
        LintLevel::Forbid => "F",
    }
}

pub const VERBOSE: u64 = 0x1;
pub const TIME_PASSES: u64 = 0x2;
pub const COUNT_LLVM_INSNS: u64 = 0x4;
pub const TIME_LLVM_PASSES: u64 = 0x8;
pub const TRANS_STATS: u64 = 0x10;
pub const ASM_COMMENTS: u64 = 0x20;
pub const NO_VERIFY: u64 = 0x40;
pub const BORROWCK_STATS: u64 = 0x80;
pub const NO_LANDING_PADS: u64 = 0x100;
pub const DEBUG_LLVM: u64 = 0x200;
pub const SHOW_SPAN: u64 = 0x400;
pub const COUNT_TYPE_SIZES: u64 = 0x800;
pub const META_STATS: u64 = 0x1000;
pub const NO_OPT: u64 = 0x2000;
pub const GC: u64 = 0x4000;
pub const PRINT_LINK_ARGS: u64 = 0x8000;
pub const PRINT_LLVM_PASSES: u64 = 0x10000;
pub const LTO: u64 = 0x20000;
pub const AST_JSON: u64 = 0x40000;
pub const AST_JSON_NOEXPAND: u64 = 0x80000;
pub const LS: u64 = 0x100000;

/// The names that `-Z` accepts, in the order of the debugging-options table.
pub open spec fn debug_flag_names() -> Seq<Seq<char>> {
    seq![
        "verbose"@,
        "time-passes"@,
        "count-llvm-insns"@,
        "time-llvm-passes"@,
        "trans-stats"@,
        "asm-comments"@,
        "no-verify"@,
        "borrowck-stats"@,
        "no-landing-pads"@,
        "debug-llvm"@,
        "show-span"@,
        "count-type-sizes"@,
        "meta-stats"@,
        "no-opt"@,
        "print-link-args"@,
        "gc"@,
        "print-llvm-passes"@,
        "lto"@,
        "ast-json"@,
        "ast-json-noexpand"@,
        "ls"@,
    ]
}

/// The bit of each entry of the debugging-options table.
pub open spec fn debug_flag_bits() -> Seq<u64> {
    seq![
        VERBOSE,
        TIME_PASSES,
        COUNT_LLVM_INSNS,
        TIME_LLVM_PASSES,
        TRANS_STATS,
        ASM_COMMENTS,
        NO_VERIFY,
        BORROWCK_STATS,
        NO_LANDING_PADS,
        DEBUG_LLVM,
        SHOW_SPAN,
        COUNT_TYPE_SIZES,
        META_STATS,
        NO_OPT,
        PRINT_LINK_ARGS,
        GC,
        PRINT_LLVM_PASSES,
        LTO,
        AST_JSON,
        AST_JSON_NOEXPAND,
        LS,
    ]
}

/// The number of entries of the debugging-options table.
pub const NUM_DEBUG_FLAGS: usize = 21;

/// Entry `i` of the debugging-options table: its name and its bit.
pub fn debug_flag_entry(i: usize) -> (r: (&'static str, u64))
    requires
        i < NUM_DEBUG_FLAGS,
    ensures
        r.0@ == debug_flag_names()[i as int],
        r.1 == debug_flag_bits()[i as int],
{
    match i {
        0 => ("verbose", VERBOSE),
        1 => ("time-passes", TIME_PASSES),
        2 => ("count-llvm-insns", COUNT_LLVM_INSNS),
        3 => ("time-llvm-passes", TIME_LLVM_PASSES),
        4 => ("trans-stats", TRANS_STATS),
        5 => ("asm-comments", ASM_COMMENTS),
        6 => ("no-verify", NO_VERIFY),
        7 => ("borrowck-stats", BORROWCK_STATS),
        8 => ("no-landing-pads", NO_LANDING_PADS),
        9 => ("debug-llvm", DEBUG_LLVM),
        10 => ("show-span", SHOW_SPAN),
        11 => ("count-type-sizes", COUNT_TYPE_SIZES),
        12 => ("meta-stats", META_STATS),
        13 => ("no-opt", NO_OPT),
        14 => ("print-link-args", PRINT_LINK_ARGS),
        15 => ("gc", GC),
        16 => ("print-llvm-passes", PRINT_LLVM_PASSES),
        17 => ("lto", LTO),
        18 => ("ast-json", AST_JSON),
        19 => ("ast-json-noexpand", AST_JSON_NOEXPAND),
        _ => ("ls", LS),
    }
}

/// Options for code generation, set with `-C`.
#[derive(Debug)]
pub struct CodegenOptions {
    pub ar: Option<String>,
    pub linker: Option<String>,
    pub link_args: Vec<String>,
    pub target_cpu: String,
    pub target_feature: String,
    pub passes: Vec<String>,
    pub llvm_args: Vec<String>,
    pub save_temps: bool,
    pub android_cross_path: Option<String>,
    pub no_rpath: bool,
    pub no_prepopulate_passes: bool,
    pub no_vectorize_loops: bool,
    pub no_vectorize_slp: bool,
    pub soft_float: bool,
    pub gen_crate_map: bool,
    pub prefer_dynamic: bool,
    pub no_integrated_as: bool,
    pub relocation_model: String,
}

/// `CodegenOptions` with its strings taken as character sequences.
pub struct CodegenView {
    pub ar: Option<Seq<char>>,
    pub linker: Option<Seq<char>>,
    pub link_args: Seq<Seq<char>>,
    pub target_cpu: Seq<char>,
    pub target_feature: Seq<char>,
    pub passes: Seq<Seq<char>>,
    pub llvm_args: Seq<Seq<char>>,
    pub save_temps: bool,
    pub android_cross_path: Option<Seq<char>>,
    pub no_rpath: bool,
    pub no_prepopulate_passes: bool,
    pub no_vectorize_loops: bool,
    pub no_vectorize_slp: bool,
    pub soft_float: bool,
    pub gen_crate_map: bool,
    pub prefer_dynamic: bool,
    pub no_integrated_as: bool,
    pub relocation_model: Seq<char>,
}

/// An optional string taken as an optional character sequence.
pub open spec fn opt_str_view(o: Option<String>) -> Option<Seq<char>> {
    match o {
        Some(s) => Some(s@),
        None => None,
    }
}

impl View for CodegenOptions {
    type V = CodegenView;

    open spec fn view(&self) -> CodegenView {
        CodegenView {
            ar: opt_str_view(self.ar),
            linker: opt_str_view(self.linker),
            link_args: self.link_args.deep_view(),
            target_cpu: self.target_cpu@,
            target_feature: self.target_feature@,
            passes: self.passes.deep_view(),
            llvm_args: self.llvm_args.deep_view(),
            save_temps: self.save_temps,
            android_cross_path: opt_str_view(self.android_cross_path),
            no_rpath: self.no_rpath,
            no_prepopulate_passes: self.no_prepopulate_passes,
            no_vectorize_loops: self.no_vectorize_loops,
            no_vectorize_slp: self.no_vectorize_slp,
            soft_float: self.soft_float,
            gen_crate_map: self.gen_crate_map,
            prefer_dynamic: self.prefer_dynamic,
            no_integrated_as: self.no_integrated_as,
            relocation_model: self.relocation_model@,
        }
    }
}

/// The codegen options before any `-C` option is applied.
pub open spec fn default_codegen() -> CodegenView {
    CodegenView {
        ar: None,
        linker: None,
        link_args: Seq::empty(),
        target_cpu: "generic"@,
        target_feature: ""@,
        passes: Seq::empty(),
        llvm_args: Seq::empty(),
        save_temps: false,
        android_cross_path: None,
        no_rpath: false,
        no_prepopulate_passes: false,
        no_vectorize_loops: false,
        no_vectorize_slp: false,
        soft_float: false,
        gen_crate_map: false,
        prefer_dynamic: false,
        no_integrated_as: false,
        relocation_model: "pic"@,
    }
}

/// The codegen options before any `-C` option is applied.
pub fn basic_codegen_options() -> (r: CodegenOptions)
    ensures
        r@ == default_codegen(),
{
    let r = CodegenOptions {
        ar: None,
        linker: None,
        link_args: Vec::new(),
        target_cpu: String::from_str("generic"),
        target_feature: String::from_str(""),
        passes: Vec::new(),
        llvm_args: Vec::new(),
        save_temps: false,
        android_cross_path: None,
        no_rpath: false,
        no_prepopulate_passes: false,
        no_vectorize_loops: false,
        no_vectorize_slp: false,
        soft_float: false,
        gen_crate_map: false,
        prefer_dynamic: false,
        no_integrated_as: false,
        relocation_model: String::from_str("pic"),
    };
    assert(r.link_args.deep_view() =~= Seq::<Seq<char>>::empty());
    assert(r.passes.deep_view() =~= Seq::<Seq<char>>::empty());
    assert(r.llvm_args.deep_view() =~= Seq::<Seq<char>>::empty());
    r
}

/// The options of a compilation session.
#[derive(Debug)]
pub struct SessionOptions {
    pub crate_types: Vec<CrateType>,
    pub gc: bool,
    pub optimize: OptLevel,
    pub debuginfo: DebugInfoLevel,
    pub lint_opts: Vec<(String, LintLevel)>,
    pub output_types: Vec<OutputType>,
    pub addl_lib_search_paths: Vec<String>,
    pub maybe_sysroot: Option<String>,
    pub target_triple: String,
    pub cfg: Vec<MetaItem>,
    pub test: bool,
    pub parse_only: bool,
    pub no_trans: bool,
    pub no_analysis: bool,
    pub debugging_opts: u64,
    pub write_dependency_info: (bool, Option<String>),
    pub print_metas: (bool, bool, bool),
    pub cg: CodegenOptions,
}

/// `SessionOptions` with its strings taken as character sequences.
pub struct SessionOptionsView {
    pub crate_types: Seq<CrateType>,
    pub gc: bool,
    pub optimize: OptLevel,
    pub debuginfo: DebugInfoLevel,
    pub lint_opts: Seq<(Seq<char>, LintLevel)>,
    pub output_types: Seq<OutputType>,
    pub addl_lib_search_paths: Seq<Seq<char>>,
    pub maybe_sysroot: Option<Seq<char>>,
    pub target_triple: Seq<char>,
    pub cfg: Seq<MetaItemView>,
    pub test: bool,
    pub parse_only: bool,
    pub no_trans: bool,
    pub no_analysis: bool,
    pub debugging_opts: u64,
    pub write_dependency_info: (bool, Option<Seq<char>>),
    pub print_metas: (bool, bool, bool),
    pub cg: CodegenView,
}

/// A sequence of lint settings with the lint names taken as character sequences.
pub open spec fn lint_opts_view(s: Seq<(String, LintLevel)>) -> Seq<(Seq<char>, LintLevel)> {
    Seq::new(s.len(), |i: int| (s[i].0@, s[i].1))
}

/// A sequence of configuration items taken by their views.
pub open spec fn meta_items_view(s: Seq<MetaItem>) -> Seq<MetaItemView> {
    Seq::new(s.len(), |i: int| s[i]@)
}

impl View for SessionOptions {
    type V = SessionOptionsView;

    open spec fn view(&self) -> SessionOptionsView {
        SessionOptionsView {
            crate_types: self.crate_types@,
            gc: self.gc,
            optimize: self.optimize,
            debuginfo: self.debuginfo,
            lint_opts: lint_opts_view(self.lint_opts@),
            output_types: self.output_types@,
            addl_lib_search_paths: self.addl_lib_search_paths.deep_view(),
            maybe_sysroot: opt_str_view(self.maybe_sysroot),
            target_triple: self.target_triple@,
            cfg: meta_items_view(self.cfg@),
            test: self.test,
            parse_only: self.parse_only,
            no_trans: self.no_trans,
            no_analysis: self.no_analysis,
            debugging_opts: self.debugging_opts,
            write_dependency_info: (
                self.write_dependency_info.0,
                opt_str_view(self.write_dependency_info.1),
            ),
            print_metas: self.print_metas,
            cg: self.cg@,
        }
    }
}

/// The target configuration of a session.
#[derive(Clone, Copy, PartialEq, Eq, Structural, Debug)]
pub struct Config {
    pub os: Os,
    pub arch: Architecture,
    pub int_type: IntTy,
    pub uint_type: UintTy,
}

/// A compilation session: its options, its target configuration, the paths
/// that it was set up with, and the state that the compilation fills in.
#[derive(Debug)]
pub struct Session {
    pub targ_cfg: Config,
    pub opts: SessionOptions,
    pub default_sysroot: Option<String>,
    pub local_crate_source_file: Option<String>,
    pub working_dir: String,
    /// Whether the crate being compiled is a library.
    pub building_library: bool,
    /// The next node id to hand out.
    pub node_id: u32,
    /// How deep macro expansion may recurse.
    pub recursion_limit: usize,
    /// The crate types that the compilation emits.
    pub crate_types: Vec<CrateType>,
}

impl Session {
    /// Whether `-Z show-span` was given.
    pub open spec fn spec_show_span(&self) -> bool {
        self.opts.debugging_opts & SHOW_SPAN != 0
    }

    /// Whether `-Z show-span` was given.
    pub fn show_span(&self) -> (r: bool)
        ensures
            r == self.spec_show_span(),
    {
        self.opts.debugging_opts & SHOW_SPAN != 0
    }
}

} // verus!
