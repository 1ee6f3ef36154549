//! The driver's decisions: setting up a session, which phases of a
//! compilation run, what goes into the dependency-info file, and how the
//! input is pretty-printed.

use vstd::prelude::*;
use vstd::string::*;
use crate::text::{str_eq, concat_all, seq_join, join_strings};
use crate::error::{DriverError, ErrorView};
use crate::session::{Session, SessionOptions, SessionOptionsView, Config, OutputType, opt_str_view, SHOW_SPAN, AST_JSON, AST_JSON_NOEXPAND};
use crate::target::{spec_target_config, build_target_config};
use crate::path::{is_absolute, join, normalize, path_is_absolute, path_join, path_normalize, lemma_normalize_keeps_absolute, lemma_join_onto_absolute};
use crate::output::{Input, InputView, OutputFilenames, OutputFilenamesView, spec_output_path, spec_output_with_extension};

verus! {

// ---------------------------------------------------------------------------
// The session

/// `p` in its normal form, made absolute against the working directory where
/// it is relative.
pub open spec fn absolute_in(working_dir: Seq<char>, p: Seq<char>) -> Seq<char> {
    let q = normalize(p);
    if is_absolute(q) {
        q
    } else {
        join(working_dir, q)
    }
}

/// The source file of a session comes out absolute where the working
/// directory is absolute.
pub proof fn lemma_source_file_made_absolute(working_dir: Seq<char>, p: Seq<char>)
    requires
        is_absolute(working_dir),
    ensures
        is_absolute(absolute_in(normalize(working_dir), p)),
{
    lemma_normalize_keeps_absolute(working_dir);
    lemma_normalize_keeps_absolute(p);
    lemma_join_onto_absolute(normalize(working_dir), normalize(p));
}

/// A session built from its options: the target configuration of the target
/// triple; the default sysroot, in its normal form, only where no sysroot was
/// given; the source file made absolute against the working directory in its
/// normal form.
pub open spec fn spec_session_fields(
    opts: SessionOptionsView,
    local: Option<Seq<char>>,
    working_dir: Seq<char>,
    default_sysroot: Seq<char>,
) -> (Option<Seq<char>>, Option<Seq<char>>) {
    (
        match opts.maybe_sysroot {
            Some(_) => None,
            None => Some(normalize(default_sysroot)),
        },
        match local {
            Some(p) => Some(absolute_in(normalize(working_dir), p)),
            None => None,
        },
    )
}

/// A compilation session for the options. `working_dir` is the directory
/// that relative paths are taken against (kept in its normal form),
/// `default_sysroot` the sysroot used where the options name none; the error
/// comes from an unknown target. The session starts out not building a
/// library, with node id 1, a recursion limit of 64 and no crate types.
pub fn build_session(
    sopts: SessionOptions,
    local_crate_source_file: Option<String>,
    working_dir: String,
    default_sysroot: String,
) -> (r: Result<Session, DriverError>)
    ensures
        match r {
            Ok(s) => spec_target_config(sopts.target_triple@) == Ok::<Config, ErrorView>(
                s.targ_cfg,
            ) && s.opts@ == sopts@ && s.working_dir@ == normalize(working_dir@) && (
            opt_str_view(s.default_sysroot),
            opt_str_view(s.local_crate_source_file),
            ) == spec_session_fields(
                sopts@,
                opt_str_view(local_crate_source_file),
                working_dir@,
                default_sysroot@,
            ) && !s.building_library && s.node_id == 1 && s.recursion_limit == 64
                && s.crate_types@.len() == 0,
            Err(e) => spec_target_config(sopts.target_triple@) == Err::<Config, ErrorView>(e@),
        },
{
    let targ_cfg = match build_target_config(&sopts) {
        Ok(c) => c,
        Err(e) => {
            return Err(e);
        },
    };
    let sysroot = match sopts.maybe_sysroot {
        Some(_) => None,
        None => Some(path_normalize(default_sysroot.as_str())),
    };
    let wd = path_normalize(working_dir.as_str());
    let local = match local_crate_source_file {
        Some(p) => {
            let q = path_normalize(p.as_str());
            if path_is_absolute(q.as_str()) {
                Some(q)
            } else {
                Some(path_join(wd.as_str(), q.as_str()))
            }
        },
        None => None,
    };
    Ok(
        Session {
            targ_cfg,
            opts: sopts,
            default_sysroot: sysroot,
            local_crate_source_file: local,
            working_dir: wd,
            building_library: false,
            node_id: 1,
            recursion_limit: 64,
            crate_types: Vec::new(),
        },
    )
}

// ---------------------------------------------------------------------------
// The phases of a compilation

/// A phase of a compilation.
#[derive(Clone, Copy, PartialEq, Eq, Structural, Debug)]
pub enum Phase {
    /// Parse the input.
    Parse,
    /// Configure and expand the parsed crate.
    ConfigureAndExpand,
    /// Write the dependency-info file, where one was requested.
    WriteDepInfo,
    /// Resolve, type-check and analyse the crate.
    Analysis,
    /// Translate the crate to LLVM.
    Translation,
    /// Run LLVM, producing bitcode, assembly or object files.
    LlvmPasses,
    /// Link the outputs into a library or an executable.
    Link,
}

/// Every phase of a compilation, in order.
pub open spec fn all_phases() -> Seq<Phase> {
    seq![
        Phase::Parse,
        Phase::ConfigureAndExpand,
        Phase::WriteDepInfo,
        Phase::Analysis,
        Phase::Translation,
        Phase::LlvmPasses,
        Phase::Link,
    ]
}

/// The compilation stops after parsing: parse only, a span display, or the
/// unexpanded AST as JSON.
pub open spec fn spec_stop_after_phase_1(o: SessionOptionsView) -> bool {
    o.parse_only || o.debugging_opts & SHOW_SPAN != 0 || o.debugging_opts & AST_JSON_NOEXPAND != 0
}

/// The compilation stops after expansion: no analysis, or the AST as JSON.
pub open spec fn spec_stop_after_phase_2(o: SessionOptionsView) -> bool {
    o.no_analysis || o.debugging_opts & AST_JSON != 0
}

/// The compilation stops after analysis: no translation.
pub open spec fn spec_stop_after_phase_3(o: SessionOptionsView) -> bool {
    o.no_trans
}

/// The compilation stops before linking: no executable was requested.
pub open spec fn spec_stop_after_phase_5(o: SessionOptionsView) -> bool {
    !o.output_types.contains(OutputType::Exe)
}

/// Whether the compilation stops after parsing.
pub fn stop_after_phase_1(sess: &Session) -> (r: bool)
    ensures
        r == spec_stop_after_phase_1(sess.opts@),
{
    if sess.opts.parse_only {
        return true;
    }
    if sess.show_span() {
        return true;
    }
    sess.opts.debugging_opts & AST_JSON_NOEXPAND != 0
}

/// Whether the compilation stops after expansion.
pub fn stop_after_phase_2(sess: &Session) -> (r: bool)
    ensures
        r == spec_stop_after_phase_2(sess.opts@),
{
    if sess.opts.no_analysis {
        return true;
    }
    sess.opts.debugging_opts & AST_JSON != 0
}

/// Whether the compilation stops after analysis.
pub fn stop_after_phase_3(sess: &Session) -> (r: bool)
    ensures
        r == spec_stop_after_phase_3(sess.opts@),
{
    if sess.opts.no_trans {
        return true;
    }
    false
}

/// Whether the compilation stops before linking.
pub fn stop_after_phase_5(sess: &Session) -> (r: bool)
    ensures
        r == spec_stop_after_phase_5(sess.opts@),
{
    let mut i: usize = 0;
    while i < sess.opts.output_types.len()
        invariant
            i <= sess.opts.output_types.len(),
            forall|j: int| 0 <= j < i ==> sess.opts.output_types@[j] != OutputType::Exe,
        decreases sess.opts.output_types.len() - i,
    {
        if sess.opts.output_types[i] == OutputType::Exe {
            assert(sess.opts.output_types@[i as int] == OutputType::Exe);
            return false;
        }
        i = i + 1;
    }
    true
}

/// The number of phases that a compilation with these options runs.
pub open spec fn phase_count(o: SessionOptionsView) -> int {
    if spec_stop_after_phase_1(o) {
        1
    } else if spec_stop_after_phase_2(o) {
        3
    } else if spec_stop_after_phase_3(o) {
        4
    } else if spec_stop_after_phase_5(o) {
        6
    } else {
        7
    }
}

/// The phases that a compilation with the session's options runs, in order:
/// always a leading part of all the phases, ending where the first stop
/// applies.
pub fn compile_phases(sess: &Session) -> (r: Vec<Phase>)
    ensures
        r@ == all_phases().take(phase_count(sess.opts@)),
{
    let mut r: Vec<Phase> = Vec::new();
    r.push(Phase::Parse);
    if stop_after_phase_1(sess) {
        assert(r@ =~= all_phases().take(1));
        return r;
    }
    r.push(Phase::ConfigureAndExpand);
    r.push(Phase::WriteDepInfo);
    if stop_after_phase_2(sess) {
        assert(r@ =~= all_phases().take(3));
        return r;
    }
    r.push(Phase::Analysis);
    if stop_after_phase_3(sess) {
        assert(r@ =~= all_phases().take(4));
        return r;
    }
    r.push(Phase::Translation);
    r.push(Phase::LlvmPasses);
    if stop_after_phase_5(sess) {
        assert(r@ =~= all_phases().take(6));
        return r;
    }
    r.push(Phase::Link);
    assert(r@ =~= all_phases().take(7));
    r
}

/// A compilation links only where an executable was requested, runs no
/// phase after parsing under parse-only, and translates only where
/// translation was not turned off.
pub proof fn lemma_compile_phases_stops(o: SessionOptionsView)
    ensures
        all_phases().take(phase_count(o)).contains(Phase::Link) ==> o.output_types.contains(
            OutputType::Exe,
        ),
        o.parse_only ==> all_phases().take(phase_count(o)) == seq![Phase::Parse],
        o.no_trans ==> !all_phases().take(phase_count(o)).contains(Phase::Translation),
        all_phases().take(phase_count(o))[0] == Phase::Parse,
{
    let ph = all_phases().take(phase_count(o));
    assert(ph[0] == Phase::Parse);
    if ph.contains(Phase::Link) {
        let k = choose|k: int| 0 <= k < ph.len() && ph[k] == Phase::Link;
        assert(all_phases()[k] == Phase::Link);
        assert(k == 6);
    }
    if o.parse_only {
        assert(ph =~= seq![Phase::Parse]);
    }
    if o.no_trans && ph.contains(Phase::Translation) {
        let k = choose|k: int| 0 <= k < ph.len() && ph[k] == Phase::Translation;
        assert(all_phases()[k] == Phase::Translation);
    }
}

// ---------------------------------------------------------------------------
// LLVM

/// What running LLVM does: the outputs that its passes produce, whether the
/// external assembler runs on the assembly, and a file removed afterwards.
#[derive(Debug)]
pub struct LlvmPlan {
    pub pass_outputs: Vec<OutputType>,
    pub run_assembler: bool,
    pub remove_file: Option<String>,
}

/// What running LLVM does: with an external assembler, the passes produce
/// assembly, the assembler runs on it, and the assembly file is removed
/// unless temporaries are kept; else the passes produce the requested
/// outputs.
pub open spec fn spec_llvm_plan(o: SessionOptionsView, outputs: OutputFilenamesView) -> (
    Seq<OutputType>,
    bool,
    Option<Seq<char>>,
) {
    if o.cg.no_integrated_as {
        (
            seq![OutputType::Assembly],
            true,
            if o.cg.save_temps {
                None
            } else {
                Some(crate::output::spec_temp_path(outputs, OutputType::Assembly))
            },
        )
    } else {
        (o.output_types, false, None)
    }
}

/// What running LLVM does for the session.
pub fn llvm_passes_plan(sess: &Session, outputs: &OutputFilenames) -> (r: LlvmPlan)
    ensures
        (r.pass_outputs@, r.run_assembler, opt_str_view(r.remove_file)) == spec_llvm_plan(
            sess.opts@,
            outputs@,
        ),
{
    if sess.opts.cg.no_integrated_as {
        let mut pass_outputs = Vec::new();
        pass_outputs.push(OutputType::Assembly);
        assert(pass_outputs@ =~= seq![OutputType::Assembly]);
        let remove_file = if sess.opts.cg.save_temps {
            None
        } else {
            Some(outputs.temp_path(OutputType::Assembly))
        };
        LlvmPlan { pass_outputs, run_assembler: true, remove_file }
    } else {
        LlvmPlan { pass_outputs: sess.opts.output_types.clone(), run_assembler: false, remove_file: None }
    }
}

// ---------------------------------------------------------------------------
// Dependency info

/// What to do about the dependency-info file.
#[derive(Debug)]
pub enum DepInfo {
    /// None was requested.
    Skip,
    /// One was requested without a file name for input that has none: the
    /// driver warns and writes none.
    NoFilenameForStdin,
    /// Write `contents` to the file at `path`.
    Write { path: String, contents: String },
}

/// A `DepInfo` with its strings taken as character sequences.
pub enum DepInfoView {
    Skip,
    NoFilenameForStdin,
    Write { path: Seq<char>, contents: Seq<char> },
}

impl View for DepInfo {
    type V = DepInfoView;

    open spec fn view(&self) -> DepInfoView {
        match self {
            DepInfo::Skip => DepInfoView::Skip,
            DepInfo::NoFilenameForStdin => DepInfoView::NoFilenameForStdin,
            DepInfo::Write { path, contents } => DepInfoView::Write {
                path: path@,
                contents: contents@,
            },
        }
    }
}

/// The files that the outputs are written to: for an executable, the files
/// that linking writes (one per crate type), else the file of the type.
pub open spec fn dep_targets(
    types: Seq<OutputType>,
    outputs: OutputFilenamesView,
    exe_files: Seq<Seq<char>>,
) -> Seq<Seq<char>> {
    concat_all(
        types.map_values(
            |t: OutputType|
                if t == OutputType::Exe {
                    exe_files
                } else {
                    seq![spec_output_path(outputs, t)]
                },
        ),
    )
}

/// A Makefile rule per target: the target, `: `, the source files separated
/// by spaces, and a blank line.
pub open spec fn dep_rules(targets: Seq<Seq<char>>, files: Seq<Seq<char>>) -> Seq<char>
    decreases targets.len(),
{
    if targets.len() == 0 {
        Seq::empty()
    } else {
        dep_rules(targets.drop_last(), files) + targets.last() + ": "@ + seq_join(files, " "@)
            + "\n\n"@
    }
}

/// The dependency-info decision: the file given with `--dep-info`, else the
/// output stem with extension `d` for a file input; a warning for string
/// input without a file name; nothing where `--dep-info` was not given.
pub open spec fn spec_dep_info(
    o: SessionOptionsView,
    input: InputView,
    outputs: OutputFilenamesView,
    exe_files: Seq<Seq<char>>,
    files: Seq<Seq<char>>,
) -> DepInfoView {
    let rules = dep_rules(dep_targets(o.output_types, outputs, exe_files), files);
    match o.write_dependency_info {
        (true, Some(f)) => DepInfoView::Write { path: f, contents: rules },
        (true, None) => match input {
            InputView::FileInput(_) => DepInfoView::Write {
                path: spec_output_with_extension(outputs, "d"@),
                contents: rules,
            },
            InputView::StrInput(_) => DepInfoView::NoFilenameForStdin,
        },
        _ => DepInfoView::Skip,
    }
}

fn push_targets(v: &mut Vec<String>, items: &Vec<String>)
    ensures
        final(v).deep_view() == old(v).deep_view() + items.deep_view(),
{
    let ghost start = v.deep_view();
    let mut j: usize = 0;
    while j < items.len()
        invariant
            j <= items.len(),
            v.deep_view() == start + items.deep_view().take(j as int),
        decreases items.len() - j,
    {
        let ghost prev = v.deep_view();
        v.push(items[j].clone());
        j = j + 1;
        assert(v.deep_view() =~= prev.push(items.deep_view()[j - 1]));
        assert(start + items.deep_view().take(j as int) =~= (start + items.deep_view().take(
            j - 1,
        )).push(items.deep_view()[j - 1]));
    }
    assert(items.deep_view().take(j as int) =~= items.deep_view());
}

/// What to do about the dependency-info file. `exe_files` holds the files
/// that linking writes, `files` the source files that the crate was read
/// from.
pub fn write_out_deps(
    sess: &Session,
    input: &Input,
    outputs: &OutputFilenames,
    exe_files: &Vec<String>,
    files: &Vec<String>,
) -> (r: DepInfo)
    ensures
        r@ == spec_dep_info(sess.opts@, input@, outputs@, exe_files.deep_view(), files.deep_view()),
{
    let types = &sess.opts.output_types;
    let ghost f = |t: OutputType|
        if t == OutputType::Exe {
            exe_files.deep_view()
        } else {
            seq![spec_output_path(outputs@, t)]
        };
    let mut targets: Vec<String> = Vec::new();
    let mut i: usize = 0;
    assert(types@.take(0).map_values(f) =~= Seq::<Seq<Seq<char>>>::empty());
    assert(targets.deep_view() =~= Seq::<Seq<char>>::empty());
    while i < types.len()
        invariant
            i <= types.len(),
            forall|t: OutputType|
                #[trigger] f(t) == (if t == OutputType::Exe {
                    exe_files.deep_view()
                } else {
                    seq![spec_output_path(outputs@, t)]
                }),
            targets.deep_view() == concat_all(types@.take(i as int).map_values(f)),
        decreases types.len() - i,
    {
        let t = types[i];
        if t == OutputType::Exe {
            push_targets(&mut targets, exe_files);
        } else {
            let ghost prev = targets.deep_view();
            targets.push(outputs.path(t));
            assert(targets.deep_view() =~= prev + seq![spec_output_path(outputs@, t)]);
        }
        assert(types@.take(i + 1).map_values(f).drop_last() =~= types@.take(i as int).map_values(
            f,
        ));
        assert(types@.take(i + 1).map_values(f).last() == f(t));
        i = i + 1;
    }
    assert(types@.take(i as int) =~= types@);
    let joined = join_strings(files, " ");
    let mut contents = String::new();
    let mut k: usize = 0;
    let ghost tv = targets.deep_view();
    assert(tv.take(0) =~= Seq::<Seq<char>>::empty());
    while k < targets.len()
        invariant
            k <= targets.len(),
            tv == targets.deep_view(),
            contents@ == dep_rules(tv.take(k as int), files.deep_view()),
            joined@ == seq_join(files.deep_view(), " "@),
        decreases targets.len() - k,
    {
        assert(tv.take(k + 1).drop_last() =~= tv.take(k as int));
        contents.append(targets[k].as_str());
        contents.append(": ");
        contents.append(joined.as_str());
        contents.append("\n\n");
        k = k + 1;
    }
    assert(tv.take(k as int) =~= tv);
    match &sess.opts.write_dependency_info {
        (true, Some(path)) => DepInfo::Write { path: path.clone(), contents },
        (true, None) => match input {
            Input::FileInput(_) => DepInfo::Write { path: outputs.with_extension("d"), contents },
            Input::StrInput(_) => DepInfo::NoFilenameForStdin,
        },
        _ => DepInfo::Skip,
    }
}

// ---------------------------------------------------------------------------
// Pretty printing

/// How the input is pretty-printed.
#[derive(Clone, Copy, PartialEq, Eq, Structural, Debug)]
pub enum PpMode {
    PpmNormal,
    PpmExpanded,
    PpmTyped,
    PpmIdentified,
    PpmExpandedIdentified,
}

/// The pretty-printing mode that an argument of `--pretty` names.
pub open spec fn spec_parse_pretty(name: Seq<char>) -> Option<PpMode> {
    if name == "normal"@ {
        Some(PpMode::PpmNormal)
    } else if name == "expanded"@ {
        Some(PpMode::PpmExpanded)
    } else if name == "typed"@ {
        Some(PpMode::PpmTyped)
    } else if name == "expanded,identified"@ {
        Some(PpMode::PpmExpandedIdentified)
    } else if name == "identified"@ {
        Some(PpMode::PpmIdentified)
    } else {
        None
    }
}

/// The pretty-printing mode that an argument of `--pretty` names: `normal`,
/// `expanded`, `typed`, `identified` or `expanded,identified`.
pub fn parse_pretty(name: &str) -> (r: Result<PpMode, DriverError>)
    ensures
        match spec_parse_pretty(name@) {
            Some(m) => r == Ok::<PpMode, DriverError>(m),
            None => r is Err && r->Err_0@ is BadPrettyMode,
        },
{
    if str_eq(name, "normal") {
        Ok(PpMode::PpmNormal)
    } else if str_eq(name, "expanded") {
        Ok(PpMode::PpmExpanded)
    } else if str_eq(name, "typed") {
        Ok(PpMode::PpmTyped)
    } else if str_eq(name, "expanded,identified") {
        Ok(PpMode::PpmExpandedIdentified)
    } else if str_eq(name, "identified") {
        Ok(PpMode::PpmIdentified)
    } else {
        Err(DriverError::BadPrettyMode)
    }
}

/// What annotates the pretty-printed source.
#[derive(Clone, Copy, PartialEq, Eq, Structural, Debug)]
pub enum Annotation {
    /// No annotation.
    NoAnn,
    /// Expressions parenthesized; items, blocks, expressions and patterns
    /// marked with their node ids.
    Identified,
    /// Expressions parenthesized and marked with their types.
    Typed,
}

/// How a pretty-printing mode prints: whether the crate is expanded first,
/// whether it is analysed (for its types), and what annotates it.
#[derive(Clone, Copy, PartialEq, Eq, Structural, Debug)]
pub struct PrettyPlan {
    pub expand: bool,
    pub analyze: bool,
    pub annotation: Annotation,
}

/// How a pretty-printing mode prints.
pub open spec fn spec_pretty_plan(ppm: PpMode) -> PrettyPlan {
    PrettyPlan {
        expand: match ppm {
            PpMode::PpmExpanded | PpMode::PpmExpandedIdentified | PpMode::PpmTyped => true,
            _ => false,
        },
        analyze: ppm == PpMode::PpmTyped,
        annotation: match ppm {
            PpMode::PpmIdentified | PpMode::PpmExpandedIdentified => Annotation::Identified,
            PpMode::PpmTyped => Annotation::Typed,
            _ => Annotation::NoAnn,
        },
    }
}

/// How a pretty-printing mode prints.
pub fn pretty_plan(ppm: PpMode) -> (r: PrettyPlan)
    ensures
        r == spec_pretty_plan(ppm),
{
    let expand = match ppm {
        PpMode::PpmExpanded | PpMode::PpmExpandedIdentified | PpMode::PpmTyped => true,
        _ => false,
    };
    let annotation = match ppm {
        PpMode::PpmIdentified | PpMode::PpmExpandedIdentified => Annotation::Identified,
        PpMode::PpmTyped => Annotation::Typed,
        _ => Annotation::NoAnn,
    };
    PrettyPlan { expand, analyze: ppm == PpMode::PpmTyped, annotation }
}

/// A compilation stops before linking exactly when no output type is an
/// executable, wherever an executable stands among the output types; once
/// nothing stops it earlier, it links exactly when an executable was
/// requested.
pub proof fn lemma_links_exactly_for_executables(o: SessionOptionsView)
    ensures
        spec_stop_after_phase_5(o) == (forall|i: int|
            0 <= i < o.output_types.len() ==> #[trigger] o.output_types[i] != OutputType::Exe),
        forall|i: int|
            0 <= i < o.output_types.len() && #[trigger] o.output_types[i] == OutputType::Exe
                ==> !spec_stop_after_phase_5(o),
        !spec_stop_after_phase_1(o) && !spec_stop_after_phase_2(o) && !spec_stop_after_phase_3(o)
            ==> (all_phases().take(phase_count(o)).contains(Phase::Link) == (exists|i: int|
            0 <= i < o.output_types.len() && #[trigger] o.output_types[i] == OutputType::Exe)),
{
    let ph = all_phases().take(phase_count(o));
    assert forall|i: int|
        0 <= i < o.output_types.len() && #[trigger] o.output_types[i] == OutputType::Exe
            implies !spec_stop_after_phase_5(o) by {
        assert(o.output_types.contains(o.output_types[i]));
    }
    if !spec_stop_after_phase_1(o) && !spec_stop_after_phase_2(o) && !spec_stop_after_phase_3(o) {
        if spec_stop_after_phase_5(o) {
            assert(ph =~= all_phases().take(6));
            if ph.contains(Phase::Link) {
                let k = choose|k: int| 0 <= k < ph.len() && ph[k] == Phase::Link;
                assert(all_phases()[k] == Phase::Link);
            }
        } else {
            assert(ph[6] == Phase::Link);
        }
    }
}

/// How each `--pretty` argument prints: `expanded`, `expanded,identified`
/// and `typed` expand the crate first, `normal` and `identified` do not;
/// only `typed` analyses it (and annotates types); `identified` and
/// `expanded,identified` annotate node ids; the others add no annotation.
pub proof fn lemma_pretty_modes(name: Seq<char>)
    requires
        spec_parse_pretty(name) is Some,
    ensures
        spec_pretty_plan(spec_parse_pretty(name)->0).expand == (name == "expanded"@ || name
            == "expanded,identified"@ || name == "typed"@),
        spec_pretty_plan(spec_parse_pretty(name)->0).analyze == (name == "typed"@),
        (spec_pretty_plan(spec_parse_pretty(name)->0).annotation == Annotation::Identified) == (
        name == "identified"@ || name == "expanded,identified"@),
        (spec_pretty_plan(spec_parse_pretty(name)->0).annotation == Annotation::Typed) == (name
            == "typed"@),
        (spec_pretty_plan(spec_parse_pretty(name)->0).annotation == Annotation::NoAnn) == (name
            == "normal"@ || name == "expanded"@),
{
    reveal_strlit("normal");
    reveal_strlit("expanded");
    reveal_strlit("typed");
    reveal_strlit("identified");
    reveal_strlit("expanded,identified");
    assert("normal"@.len() == 6);
    assert("expanded"@.len() == 8);
    assert("typed"@.len() == 5);
    assert("identified"@.len() == 10);
    assert("expanded,identified"@.len() == 19);
}

/// The plan of a mode expands the crate for every mode but normal and
/// identified, and analyses it only for the typed mode.
pub proof fn lemma_pretty_plan_expands(ppm: PpMode)
    ensures
        spec_pretty_plan(ppm).expand == (ppm != PpMode::PpmNormal && ppm != PpMode::PpmIdentified),
        spec_pretty_plan(ppm).analyze == (ppm == PpMode::PpmTyped),
        spec_pretty_plan(ppm).analyze ==> spec_pretty_plan(ppm).expand,
{
}

} // verus!
