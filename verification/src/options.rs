//! Session options from a parsed command line.

use vstd::prelude::*;
use vstd::string::*;
use crate::text::{lemma_contains_push, str_eq, split_all, split_all_str, underscored, underscored_str, all_pass, map_pass, first_failure, lemma_first_failure};
use crate::error::{DriverError, ErrorView};
use crate::session::{CrateType, OutputType, OptLevel, DebugInfoLevel, LintLevel, SessionOptions, SessionOptionsView, CodegenView, lint_level_name, lint_level_short, lint_level_name_str, lint_level_short_str, lint_opts_view, debug_flag_names, debug_flag_bits, debug_flag_entry, NUM_DEBUG_FLAGS, NO_OPT, GC};
use crate::cfgspec::{spec_parse_cfgspecs, first_bad_cfgspec, parse_cfgspecs};
use crate::codegen::{spec_codegen, codegen_options_from};
use crate::cli::{matches_values, given_args, first_arg, opt_strs, opt_present, opt_str, table_names, driver_specs, parse_driver_args, getopts_parse};
use crate::target::{spec_host_triple, host_triple};
use crate::path::{normalize_all, normalize_opt, path_normalize_all, path_normalize_opt};

verus! {

/// What a parsed command line holds: for each option name, its occurrences.
pub type OptValues = Map<Seq<char>, Seq<Option<Seq<char>>>>;

/// The arguments given with an option.
pub open spec fn strs(m: OptValues, n: Seq<char>) -> Seq<Seq<char>> {
    given_args(m[n])
}

/// Whether an option occurred.
pub open spec fn present(m: OptValues, n: Seq<char>) -> bool {
    m[n].len() > 0
}

/// The argument of the first occurrence of an option, if it had one.
pub open spec fn first(m: OptValues, n: Seq<char>) -> Option<Seq<char>> {
    first_arg(m[n])
}

/// Every option that the session options are read from can be queried.
pub open spec fn defines_session_options(m: OptValues) -> bool {
    let d = m.dom();
    &&& d.contains("crate-type"@) && d.contains("parse-only"@) && d.contains("no-trans"@)
    &&& d.contains("no-analysis"@) && d.contains("A"@) && d.contains("allow"@)
    &&& d.contains("W"@) && d.contains("warn"@) && d.contains("D"@) && d.contains("deny"@)
    &&& d.contains("F"@) && d.contains("forbid"@) && d.contains("Z"@) && d.contains("emit"@)
    &&& d.contains("sysroot"@) && d.contains("target"@) && d.contains("O"@)
    &&& d.contains("opt-level"@) && d.contains("g"@) && d.contains("debuginfo"@)
    &&& d.contains("L"@) && d.contains("cfg"@) && d.contains("test"@) && d.contains("dep-info"@)
    &&& d.contains("crate-id"@) && d.contains("crate-name"@) && d.contains("crate-file-name"@)
    &&& d.contains("C"@)
}

// ---------------------------------------------------------------------------
// Crate types

/// The crate type that a `--crate-type` part names; `lib` is an rlib.
pub open spec fn crate_type_of(p: Seq<char>) -> Option<CrateType> {
    if p == "lib"@ {
        Some(CrateType::Rlib)
    } else if p == "rlib"@ {
        Some(CrateType::Rlib)
    } else if p == "staticlib"@ {
        Some(CrateType::Staticlib)
    } else if p == "dylib"@ {
        Some(CrateType::Dylib)
    } else if p == "bin"@ {
        Some(CrateType::Executable)
    } else {
        None
    }
}

/// `crate_type_of` as a value.
pub open spec fn crate_type_check() -> spec_fn(Seq<char>) -> Option<CrateType> {
    |p: Seq<char>| crate_type_of(p)
}

/// The crate types of the comma-separated `--crate-type` arguments, in
/// order; the first part that names none gives the error.
pub open spec fn spec_crate_types(m: OptValues) -> Result<Seq<CrateType>, ErrorView> {
    let parts = split_all(strs(m, "crate-type"@), ',');
    if all_pass(parts, crate_type_check()) {
        Ok(map_pass(parts, crate_type_check()))
    } else {
        Err(ErrorView::UnknownCrateType(parts[first_failure(parts, crate_type_check())]))
    }
}

fn crate_type_of_str(p: &str) -> (r: Option<CrateType>)
    ensures
        r == crate_type_of(p@),
{
    if str_eq(p, "lib") {
        Some(CrateType::Rlib)
    } else if str_eq(p, "rlib") {
        Some(CrateType::Rlib)
    } else if str_eq(p, "staticlib") {
        Some(CrateType::Staticlib)
    } else if str_eq(p, "dylib") {
        Some(CrateType::Dylib)
    } else if str_eq(p, "bin") {
        Some(CrateType::Executable)
    } else {
        None
    }
}

fn session_crate_types(m: &getopts::Matches) -> (r: Result<Vec<CrateType>, DriverError>)
    requires
        matches_values(*m).dom().contains("crate-type"@),
    ensures
        match r {
            Ok(v) => spec_crate_types(matches_values(*m)) == Ok::<Seq<CrateType>, ErrorView>(v@),
            Err(e) => spec_crate_types(matches_values(*m)) == Err::<Seq<CrateType>, ErrorView>(
                e@,
            ),
        },
{
    let units = opt_strs(m, "crate-type");
    let parts = split_all_str(&units, ',');
    let ghost pv = parts.deep_view();
    let mut out: Vec<CrateType> = Vec::new();
    let mut i: usize = 0;
    while i < parts.len()
        invariant
            i <= parts.len(),
            pv == parts.deep_view(),
            pv == split_all(strs(matches_values(*m), "crate-type"@), ','),
            out@.len() == i,
            forall|j: int| 0 <= j < i ==> (#[trigger] crate_type_check()(pv[j])) == Some(out@[j]),
        decreases parts.len() - i,
    {
        match crate_type_of_str(parts[i].as_str()) {
            Some(t) => out.push(t),
            None => {
                assert(crate_type_check()(pv[i as int]) is None);
                proof {
                    lemma_first_failure(pv, crate_type_check(), i as int);
                }
                assert(pv == split_all(strs(matches_values(*m), "crate-type"@), ','));
                return Err(DriverError::UnknownCrateType(parts[i].clone()));
            },
        }
        i = i + 1;
    }
    assert(out@ =~= map_pass(pv, crate_type_check()));
    Ok(out)
}

// ---------------------------------------------------------------------------
// Lints

/// The lints requested at one level: the names given with its short option,
/// then those given with its long option, each with `_` for `-`.
#[verifier::opaque]
pub open spec fn level_requests(m: OptValues, l: LintLevel) -> Seq<(Seq<char>, LintLevel)> {
    let flags = strs(m, lint_level_short(l)) + strs(m, lint_level_name(l));
    Seq::new(flags.len(), |i: int| (underscored(flags[i]), l))
}

/// The lints requested at the levels allow, warn, deny and forbid, in that
/// order.
pub open spec fn lint_requests(m: OptValues) -> Seq<(Seq<char>, LintLevel)> {
    level_requests(m, LintLevel::Allow) + level_requests(m, LintLevel::Warn) + level_requests(
        m,
        LintLevel::Deny,
    ) + level_requests(m, LintLevel::Forbid)
}

/// A request passes where its lint is known.
pub open spec fn lint_check(lints: Seq<Seq<char>>) -> spec_fn((Seq<char>, LintLevel)) -> Option<
    (Seq<char>, LintLevel),
> {
    |r: (Seq<char>, LintLevel)|
        if lints.contains(r.0) {
            Some(r)
        } else {
            None
        }
}

/// The lint settings: every request, where each names a known lint; else the
/// first request that names none gives the error.
pub open spec fn spec_lint_opts(m: OptValues, lints: Seq<Seq<char>>) -> Result<
    Seq<(Seq<char>, LintLevel)>,
    ErrorView,
> {
    let reqs = lint_requests(m);
    if all_pass(reqs, lint_check(lints)) {
        Ok(reqs)
    } else {
        let r = reqs[first_failure(reqs, lint_check(lints))];
        Err(ErrorView::UnknownLint(r.1, r.0))
    }
}

fn strings_contain(v: &Vec<String>, s: &str) -> (r: bool)
    ensures
        r == v.deep_view().contains(s@),
{
    let mut i: usize = 0;
    while i < v.len()
        invariant
            i <= v.len(),
            forall|j: int| 0 <= j < i ==> v.deep_view()[j] != s@,
        decreases v.len() - i,
    {
        if str_eq(v[i].as_str(), s) {
            assert(v.deep_view()[i as int] == s@);
            return true;
        }
        i = i + 1;
    }
    false
}

fn push_requests(src: &Vec<String>, l: LintLevel, reqs: &mut Vec<(String, LintLevel)>)
    ensures
        lint_opts_view(final(reqs)@) == lint_opts_view(old(reqs)@) + Seq::new(
            src.deep_view().len(),
            |i: int| (underscored(src.deep_view()[i]), l),
        ),
{
    let ghost start = lint_opts_view(reqs@);
    let ghost sv = src.deep_view();
    let mut k: usize = 0;
    while k < src.len()
        invariant
            k <= src.len(),
            sv == src.deep_view(),
            lint_opts_view(reqs@) == start + Seq::new(k as nat, |i: int| (underscored(sv[i]), l)),
        decreases src.len() - k,
    {
        let ghost prev = lint_opts_view(reqs@);
        let name = underscored_str(src[k].as_str());
        reqs.push((name, l));
        k = k + 1;
        assert(lint_opts_view(reqs@) =~= prev.push((underscored(sv[k - 1]), l)));
        assert(start + Seq::new(k as nat, |i: int| (underscored(sv[i]), l)) =~= (start + Seq::new(
            (k - 1) as nat,
            |i: int| (underscored(sv[i]), l),
        )).push((underscored(sv[k - 1]), l)));
    }
}

fn push_level_requests(m: &getopts::Matches, l: LintLevel, reqs: &mut Vec<(String, LintLevel)>)
    requires
        defines_session_options(matches_values(*m)),
    ensures
        lint_opts_view(final(reqs)@) == lint_opts_view(old(reqs)@) + level_requests(
            matches_values(*m),
            l,
        ),
{
    let shorts = opt_strs(m, lint_level_short_str(l));
    let longs = opt_strs(m, lint_level_name_str(l));
    push_requests(&shorts, l, reqs);
    push_requests(&longs, l, reqs);
    let ghost a = shorts.deep_view();
    let ghost b = longs.deep_view();
    reveal(level_requests);
    assert(Seq::new(a.len(), |i: int| (underscored(a[i]), l)) + Seq::new(
        b.len(),
        |i: int| (underscored(b[i]), l),
    ) =~= level_requests(matches_values(*m), l));
}

fn session_lint_opts(m: &getopts::Matches, lints: &Vec<String>) -> (r: Result<
    Vec<(String, LintLevel)>,
    DriverError,
>)
    requires
        defines_session_options(matches_values(*m)),
    ensures
        match r {
            Ok(v) => spec_lint_opts(matches_values(*m), lints.deep_view()) == Ok::<
                Seq<(Seq<char>, LintLevel)>,
                ErrorView,
            >(lint_opts_view(v@)),
            Err(e) => spec_lint_opts(matches_values(*m), lints.deep_view()) == Err::<
                Seq<(Seq<char>, LintLevel)>,
                ErrorView,
            >(e@),
        },
{
    let ghost mv = matches_values(*m);
    let mut reqs: Vec<(String, LintLevel)> = Vec::new();
    assert(lint_opts_view(reqs@) =~= Seq::<(Seq<char>, LintLevel)>::empty());
    let ghost a = level_requests(mv, LintLevel::Allow);
    let ghost w = level_requests(mv, LintLevel::Warn);
    let ghost d = level_requests(mv, LintLevel::Deny);
    let ghost f = level_requests(mv, LintLevel::Forbid);
    push_level_requests(m, LintLevel::Allow, &mut reqs);
    assert(lint_opts_view(reqs@) =~= a);
    push_level_requests(m, LintLevel::Warn, &mut reqs);
    assert(lint_opts_view(reqs@) == a + w);
    push_level_requests(m, LintLevel::Deny, &mut reqs);
    assert(lint_opts_view(reqs@) == a + w + d);
    push_level_requests(m, LintLevel::Forbid, &mut reqs);
    assert(lint_opts_view(reqs@) == a + w + d + f);
    match first_unknown_lint(&reqs, lints) {
        None => Ok(reqs),
        Some(i) => Err(DriverError::UnknownLint(reqs[i].1, reqs[i].0.clone())),
    }
}

fn first_unknown_lint(reqs: &Vec<(String, LintLevel)>, lints: &Vec<String>) -> (r: Option<usize>)
    ensures
        match r {
            None => all_pass(lint_opts_view(reqs@), lint_check(lints.deep_view())),
            Some(i) => i < reqs@.len() && !all_pass(lint_opts_view(reqs@), lint_check(lints.deep_view()))
                && first_failure(lint_opts_view(reqs@), lint_check(lints.deep_view())) == i,
        },
{
    let ghost rv = lint_opts_view(reqs@);
    let ghost f = lint_check(lints.deep_view());
    let mut i: usize = 0;
    while i < reqs.len()
        invariant
            i <= reqs.len(),
            rv == lint_opts_view(reqs@),
            f == lint_check(lints.deep_view()),
            forall|j: int| 0 <= j < i ==> (#[trigger] f(rv[j])) is Some,
        decreases reqs.len() - i,
    {
        if !strings_contain(lints, reqs[i].0.as_str()) {
            assert(f(rv[i as int]) is None);
            proof {
                lemma_first_failure(rv, f, i as int);
            }
            return Some(i);
        }
        assert(f(rv[i as int]) is Some);
        i = i + 1;
    }
    None
}


// ---------------------------------------------------------------------------
// Debugging options

/// The bit of the debugging option with the given name, looked up from
/// entry `i` of the table on.
pub open spec fn debug_lookup(name: Seq<char>, i: int) -> Option<u64>
    decreases NUM_DEBUG_FLAGS - i,
{
    if i < 0 || i >= NUM_DEBUG_FLAGS {
        None
    } else if debug_flag_names()[i] == name {
        Some(debug_flag_bits()[i])
    } else {
        debug_lookup(name, i + 1)
    }
}

/// The bit of a `-Z` flag, as a value.
pub open spec fn debug_check() -> spec_fn(Seq<char>) -> Option<u64> {
    |f: Seq<char>| debug_lookup(f, 0)
}

/// The bits of `s`, or-ed together.
pub open spec fn or_all(s: Seq<u64>) -> u64
    decreases s.len(),
{
    if s.len() == 0 {
        0
    } else {
        or_all(s.drop_last()) | s.last()
    }
}

/// The debugging options: the bits of the `-Z` flags or-ed together; the
/// first flag that names no option gives the error.
pub open spec fn spec_debug_opts(m: OptValues) -> Result<u64, ErrorView> {
    let flags = strs(m, "Z"@);
    if all_pass(flags, debug_check()) {
        Ok(or_all(map_pass(flags, debug_check())))
    } else {
        Err(ErrorView::UnknownDebugFlag(flags[first_failure(flags, debug_check())]))
    }
}

fn debug_bit(name: &str) -> (r: Option<u64>)
    ensures
        r == debug_lookup(name@, 0),
{
    let mut i: usize = 0;
    while i < NUM_DEBUG_FLAGS
        invariant
            i <= NUM_DEBUG_FLAGS,
            debug_lookup(name@, 0) == debug_lookup(name@, i as int),
        decreases NUM_DEBUG_FLAGS - i,
    {
        let (n, bit) = debug_flag_entry(i);
        if str_eq(n, name) {
            return Some(bit);
        }
        i = i + 1;
    }
    None
}

fn session_debug_opts(m: &getopts::Matches) -> (r: Result<u64, DriverError>)
    requires
        matches_values(*m).dom().contains("Z"@),
    ensures
        match r {
            Ok(v) => spec_debug_opts(matches_values(*m)) == Ok::<u64, ErrorView>(v),
            Err(e) => spec_debug_opts(matches_values(*m)) == Err::<u64, ErrorView>(e@),
        },
{
    let flags = opt_strs(m, "Z");
    let ghost fv = flags.deep_view();
    let ghost f = debug_check();
    let mut bits: u64 = 0;
    let mut i: usize = 0;
    while i < flags.len()
        invariant
            i <= flags.len(),
            fv == flags.deep_view(),
            fv == strs(matches_values(*m), "Z"@),
            f == debug_check(),
            forall|j: int| 0 <= j < i ==> (#[trigger] f(fv[j])) is Some,
            bits == or_all(map_pass(fv.take(i as int), f)),
        decreases flags.len() - i,
    {
        match debug_bit(flags[i].as_str()) {
            Some(b) => {
                assert(map_pass(fv.take(i + 1), f).drop_last() =~= map_pass(fv.take(i as int), f));
                bits = bits | b;
            },
            None => {
                assert(f(fv[i as int]) is None);
                proof {
                    lemma_first_failure(fv, f, i as int);
                }
                return Err(DriverError::UnknownDebugFlag(flags[i].clone()));
            },
        }
        i = i + 1;
    }
    assert(fv.take(flags.len() as int) =~= fv);
    Ok(bits)
}

// ---------------------------------------------------------------------------
// Output types

/// The output type that an `--emit` part names.
pub open spec fn output_type_of(p: Seq<char>) -> Option<OutputType> {
    if p == "asm"@ {
        Some(OutputType::Assembly)
    } else if p == "ir"@ {
        Some(OutputType::LlvmAssembly)
    } else if p == "bc"@ {
        Some(OutputType::Bitcode)
    } else if p == "obj"@ {
        Some(OutputType::Object)
    } else if p == "link"@ {
        Some(OutputType::Exe)
    } else {
        None
    }
}

/// `output_type_of` as a value.
pub open spec fn output_type_check() -> spec_fn(Seq<char>) -> Option<OutputType> {
    |p: Seq<char>| output_type_of(p)
}

/// `t` alone where `req` holds it, else nothing.
pub open spec fn pick(req: Seq<OutputType>, t: OutputType) -> Seq<OutputType> {
    if req.contains(t) {
        seq![t]
    } else {
        Seq::empty()
    }
}

/// The requested output types sorted and without repeats; an executable
/// where none was requested.
pub open spec fn normalize_outputs(req: Seq<OutputType>) -> Seq<OutputType> {
    if req.len() == 0 {
        seq![OutputType::Exe]
    } else {
        pick(req, OutputType::Bitcode) + pick(req, OutputType::Assembly) + pick(
            req,
            OutputType::LlvmAssembly,
        ) + pick(req, OutputType::Object) + pick(req, OutputType::Exe)
    }
}

/// The output types: none are read from `--emit` where `skip` holds (parse
/// only, or no translation); the first part that names no output type gives
/// the error.
pub open spec fn spec_output_types(m: OptValues, skip: bool) -> Result<Seq<OutputType>, ErrorView> {
    if skip {
        Ok(seq![OutputType::Exe])
    } else {
        let parts = split_all(strs(m, "emit"@), ',');
        if all_pass(parts, output_type_check()) {
            Ok(normalize_outputs(map_pass(parts, output_type_check())))
        } else {
            Err(ErrorView::UnknownEmission(parts[first_failure(parts, output_type_check())]))
        }
    }
}

fn output_type_of_str(p: &str) -> (r: Option<OutputType>)
    ensures
        r == output_type_of(p@),
{
    if str_eq(p, "asm") {
        Some(OutputType::Assembly)
    } else if str_eq(p, "ir") {
        Some(OutputType::LlvmAssembly)
    } else if str_eq(p, "bc") {
        Some(OutputType::Bitcode)
    } else if str_eq(p, "obj") {
        Some(OutputType::Object)
    } else if str_eq(p, "link") {
        Some(OutputType::Exe)
    } else {
        None
    }
}

fn push_if(v: &mut Vec<OutputType>, present: bool, t: OutputType)
    ensures
        final(v)@ == old(v)@ + (if present {
            seq![t]
        } else {
            Seq::<OutputType>::empty()
        }),
{
    if present {
        v.push(t);
    }
    assert(final(v)@ =~= old(v)@ + (if present {
        seq![t]
    } else {
        Seq::<OutputType>::empty()
    }));
}

fn normalize_output_types(req: &Vec<OutputType>) -> (r: Vec<OutputType>)
    ensures
        r@ == normalize_outputs(req@),
{
    if req.len() == 0 {
        let mut r = Vec::new();
        r.push(OutputType::Exe);
        assert(r@ =~= seq![OutputType::Exe]);
        return r;
    }
    let mut bc = false;
    let mut assembly = false;
    let mut ir = false;
    let mut obj = false;
    let mut exe = false;
    let mut i: usize = 0;
    while i < req.len()
        invariant
            i <= req.len(),
            bc == req@.take(i as int).contains(OutputType::Bitcode),
            assembly == req@.take(i as int).contains(OutputType::Assembly),
            ir == req@.take(i as int).contains(OutputType::LlvmAssembly),
            obj == req@.take(i as int).contains(OutputType::Object),
            exe == req@.take(i as int).contains(OutputType::Exe),
        decreases req.len() - i,
    {
        let t = req[i];
        assert(req@.take(i + 1) =~= req@.take(i as int).push(t));
        proof {
            lemma_contains_push(req@.take(i as int), t, OutputType::Bitcode);
            lemma_contains_push(req@.take(i as int), t, OutputType::Assembly);
            lemma_contains_push(req@.take(i as int), t, OutputType::LlvmAssembly);
            lemma_contains_push(req@.take(i as int), t, OutputType::Object);
            lemma_contains_push(req@.take(i as int), t, OutputType::Exe);
        }
        match t {
            OutputType::Bitcode => bc = true,
            OutputType::Assembly => assembly = true,
            OutputType::LlvmAssembly => ir = true,
            OutputType::Object => obj = true,
            OutputType::Exe => exe = true,
        }
        i = i + 1;
    }
    assert(req@.take(req.len() as int) =~= req@);
    let mut r: Vec<OutputType> = Vec::new();
    assert(r@ =~= Seq::<OutputType>::empty());
    push_if(&mut r, bc, OutputType::Bitcode);
    push_if(&mut r, assembly, OutputType::Assembly);
    push_if(&mut r, ir, OutputType::LlvmAssembly);
    push_if(&mut r, obj, OutputType::Object);
    push_if(&mut r, exe, OutputType::Exe);
    assert(r@ =~= normalize_outputs(req@));
    r
}

fn session_output_types(m: &getopts::Matches, skip: bool) -> (r: Result<
    Vec<OutputType>,
    DriverError,
>)
    requires
        matches_values(*m).dom().contains("emit"@),
    ensures
        match r {
            Ok(v) => spec_output_types(matches_values(*m), skip) == Ok::<
                Seq<OutputType>,
                ErrorView,
            >(v@),
            Err(e) => spec_output_types(matches_values(*m), skip) == Err::<
                Seq<OutputType>,
                ErrorView,
            >(e@),
        },
{
    if skip {
        let mut r = Vec::new();
        r.push(OutputType::Exe);
        assert(r@ =~= seq![OutputType::Exe]);
        return Ok(r);
    }
    let units = opt_strs(m, "emit");
    let parts = split_all_str(&units, ',');
    let ghost pv = parts.deep_view();
    let ghost f = output_type_check();
    let mut req: Vec<OutputType> = Vec::new();
    let mut i: usize = 0;
    while i < parts.len()
        invariant
            i <= parts.len(),
            pv == parts.deep_view(),
            pv == split_all(strs(matches_values(*m), "emit"@), ','),
            !skip,
            f == output_type_check(),
            req@.len() == i,
            forall|j: int| 0 <= j < i ==> (#[trigger] f(pv[j])) == Some(req@[j]),
        decreases parts.len() - i,
    {
        match output_type_of_str(parts[i].as_str()) {
            Some(t) => req.push(t),
            None => {
                assert(f(pv[i as int]) is None);
                proof {
                    lemma_first_failure(pv, f, i as int);
                }
                return Err(DriverError::UnknownEmission(parts[i].clone()));
            },
        }
        i = i + 1;
    }
    assert(req@ =~= map_pass(pv, f));
    Ok(normalize_output_types(&req))
}

/// The position of an output type in the sorted order.
pub open spec fn output_rank(t: OutputType) -> int {
    match t {
        OutputType::Bitcode => 0,
        OutputType::Assembly => 1,
        OutputType::LlvmAssembly => 2,
        OutputType::Object => 3,
        OutputType::Exe => 4,
    }
}

/// The output types are never empty, come sorted without repeats, and hold
/// exactly the requested ones (an executable where none was requested or
/// `--emit` was not read).
pub proof fn lemma_output_types_normalized(m: OptValues, skip: bool)
    ensures
        spec_output_types(m, skip) matches Ok(v) ==> {
            &&& v.len() >= 1
            &&& forall|i: int, j: int| 0 <= i < j < v.len() ==> output_rank(v[i]) < output_rank(v[j])
            &&& forall|t: OutputType| #[trigger] v.contains(t) <==> (if skip {
                t == OutputType::Exe
            } else {
                let req = map_pass(split_all(strs(m, "emit"@), ','), output_type_check());
                if req.len() == 0 {
                    t == OutputType::Exe
                } else {
                    req.contains(t)
                }
            })
        },
{
    if let Ok(v) = spec_output_types(m, skip) {
        if skip {
            assert(v == seq![OutputType::Exe]);
            assert forall|t: OutputType| #[trigger] v.contains(t) <==> t == OutputType::Exe by {
                if t == OutputType::Exe {
                    assert(v[0] == t);
                }
            }
        } else {
            let req = map_pass(split_all(strs(m, "emit"@), ','), output_type_check());
            if req.len() == 0 {
                assert(v == seq![OutputType::Exe]);
                assert forall|t: OutputType| #[trigger] v.contains(t) <==> t == OutputType::Exe by {
                    if t == OutputType::Exe {
                        assert(v[0] == t);
                    }
                }
            } else {
                let a = pick(req, OutputType::Bitcode);
                let b = pick(req, OutputType::Assembly);
                let c = pick(req, OutputType::LlvmAssembly);
                let d = pick(req, OutputType::Object);
                let e = pick(req, OutputType::Exe);
                assert(v == a + b + c + d + e);
                assert forall|i: int| 0 <= i < v.len() implies output_rank(v[i]) == (if i < a.len() {
                    0int
                } else if i < a.len() + b.len() {
                    1
                } else if i < a.len() + b.len() + c.len() {
                    2
                } else if i < a.len() + b.len() + c.len() + d.len() {
                    3
                } else {
                    4
                }) by {}
                assert forall|t: OutputType| #[trigger] v.contains(t) <==> req.contains(t) by {
                    let k = output_rank(t);
                    if req.contains(t) {
                        let idx: int = if k == 0 {
                            0int
                        } else if k == 1 {
                            a.len() as int
                        } else if k == 2 {
                            (a.len() + b.len()) as int
                        } else if k == 3 {
                            (a.len() + b.len() + c.len()) as int
                        } else {
                            (a.len() + b.len() + c.len() + d.len()) as int
                        };
                        assert(v[idx] == t);
                    }
                    if v.contains(t) {
                        let i = choose|i: int| 0 <= i < v.len() && v[i] == t;
                        assert(output_rank(v[i]) == k);
                    }
                }
                assert(v.len() >= 1) by {
                    let t0 = req[0];
                    assert(req.contains(t0));
                    assert(v.contains(t0));
                }
            }
        }
    }
}

// ---------------------------------------------------------------------------
// Optimization and debug info

/// The optimization level: none under `-Z no-opt`; `-O` is level 2 and may
/// not stand with `--opt-level`, whose argument is 0 to 3 (0 where left out).
pub open spec fn spec_opt_level(m: OptValues, dbg: u64) -> Result<OptLevel, ErrorView> {
    if dbg & NO_OPT != 0 {
        Ok(OptLevel::No)
    } else if present(m, "O"@) {
        if present(m, "opt-level"@) {
            Err(ErrorView::OptAndOptLevel)
        } else {
            Ok(OptLevel::Default)
        }
    } else if present(m, "opt-level"@) {
        match first(m, "opt-level"@) {
            None => Ok(OptLevel::No),
            Some(a) => if a == "0"@ {
                Ok(OptLevel::No)
            } else if a == "1"@ {
                Ok(OptLevel::Less)
            } else if a == "2"@ {
                Ok(OptLevel::Default)
            } else if a == "3"@ {
                Ok(OptLevel::Aggressive)
            } else {
                Err(ErrorView::BadOptLevel(a))
            },
        }
    } else {
        Ok(OptLevel::No)
    }
}

/// The debug info level: `-g` is full debug info and may not stand with
/// `--debuginfo`, whose argument is 0 to 2 (2 where left out).
pub open spec fn spec_debuginfo(m: OptValues) -> Result<DebugInfoLevel, ErrorView> {
    if present(m, "g"@) {
        if present(m, "debuginfo"@) {
            Err(ErrorView::GAndDebuginfo)
        } else {
            Ok(DebugInfoLevel::FullDebugInfo)
        }
    } else if present(m, "debuginfo"@) {
        match first(m, "debuginfo"@) {
            None => Ok(DebugInfoLevel::FullDebugInfo),
            Some(a) => if a == "0"@ {
                Ok(DebugInfoLevel::NoDebugInfo)
            } else if a == "1"@ {
                Ok(DebugInfoLevel::LimitedDebugInfo)
            } else if a == "2"@ {
                Ok(DebugInfoLevel::FullDebugInfo)
            } else {
                Err(ErrorView::BadDebuginfo(a))
            },
        }
    } else {
        Ok(DebugInfoLevel::NoDebugInfo)
    }
}

fn session_opt_level(m: &getopts::Matches, dbg: u64) -> (r: Result<OptLevel, DriverError>)
    requires
        defines_session_options(matches_values(*m)),
    ensures
        match r {
            Ok(v) => spec_opt_level(matches_values(*m), dbg) == Ok::<OptLevel, ErrorView>(v),
            Err(e) => spec_opt_level(matches_values(*m), dbg) == Err::<OptLevel, ErrorView>(e@),
        },
{
    if dbg & NO_OPT != 0 {
        Ok(OptLevel::No)
    } else if opt_present(m, "O") {
        if opt_present(m, "opt-level") {
            Err(DriverError::OptAndOptLevel)
        } else {
            Ok(OptLevel::Default)
        }
    } else if opt_present(m, "opt-level") {
        match opt_str(m, "opt-level") {
            None => Ok(OptLevel::No),
            Some(a) => {
                if str_eq(a.as_str(), "0") {
                    Ok(OptLevel::No)
                } else if str_eq(a.as_str(), "1") {
                    Ok(OptLevel::Less)
                } else if str_eq(a.as_str(), "2") {
                    Ok(OptLevel::Default)
                } else if str_eq(a.as_str(), "3") {
                    Ok(OptLevel::Aggressive)
                } else {
                    Err(DriverError::BadOptLevel(a))
                }
            },
        }
    } else {
        Ok(OptLevel::No)
    }
}

fn session_debuginfo(m: &getopts::Matches) -> (r: Result<DebugInfoLevel, DriverError>)
    requires
        defines_session_options(matches_values(*m)),
    ensures
        match r {
            Ok(v) => spec_debuginfo(matches_values(*m)) == Ok::<DebugInfoLevel, ErrorView>(v),
            Err(e) => spec_debuginfo(matches_values(*m)) == Err::<DebugInfoLevel, ErrorView>(e@),
        },
{
    if opt_present(m, "g") {
        if opt_present(m, "debuginfo") {
            Err(DriverError::GAndDebuginfo)
        } else {
            Ok(DebugInfoLevel::FullDebugInfo)
        }
    } else if opt_present(m, "debuginfo") {
        match opt_str(m, "debuginfo") {
            None => Ok(DebugInfoLevel::FullDebugInfo),
            Some(a) => {
                if str_eq(a.as_str(), "0") {
                    Ok(DebugInfoLevel::NoDebugInfo)
                } else if str_eq(a.as_str(), "1") {
                    Ok(DebugInfoLevel::LimitedDebugInfo)
                } else if str_eq(a.as_str(), "2") {
                    Ok(DebugInfoLevel::FullDebugInfo)
                } else {
                    Err(DriverError::BadDebuginfo(a))
                }
            },
        }
    } else {
        Ok(DebugInfoLevel::NoDebugInfo)
    }
}


// ---------------------------------------------------------------------------
// The session options

/// The session options that a parsed command line describes, given the names
/// of the known lints; where it describes none, the error of the first
/// stage that fails, the stages going crate types, lints, debugging options,
/// output types, optimization level, debug info, `--cfg` items and codegen
/// options.
pub open spec fn spec_session_options(m: OptValues, lints: Seq<Seq<char>>) -> Result<
    SessionOptionsView,
    ErrorView,
> {
    match spec_crate_types(m) {
        Err(e) => Err(e),
        Ok(crate_types) => match spec_lint_opts(m, lints) {
            Err(e) => Err(e),
            Ok(lint_opts) => match spec_debug_opts(m) {
                Err(e) => Err(e),
                Ok(dbg) => {
                    let parse_only = present(m, "parse-only"@);
                    let no_trans = present(m, "no-trans"@);
                    match spec_output_types(m, parse_only || no_trans) {
                        Err(e) => Err(e),
                        Ok(output_types) => match spec_opt_level(m, dbg) {
                            Err(e) => Err(e),
                            Ok(optimize) => match spec_debuginfo(m) {
                                Err(e) => Err(e),
                                Ok(debuginfo) => match spec_parse_cfgspecs(strs(m, "cfg"@)) {
                                    None => Err(
                                        ErrorView::BadCfgSpec(first_bad_cfgspec(strs(m, "cfg"@))),
                                    ),
                                    Some(cfg) => match spec_codegen(strs(m, "C"@)) {
                                        Err(e) => Err(e),
                                        Ok(cg) => Ok(
                                            SessionOptionsView {
                                                crate_types,
                                                gc: dbg & GC != 0,
                                                optimize,
                                                debuginfo,
                                                lint_opts,
                                                output_types,
                                                addl_lib_search_paths: normalize_all(
                                                    strs(m, "L"@),
                                                ),
                                                maybe_sysroot: normalize_opt(first(m, "sysroot"@)),
                                                target_triple: match first(m, "target"@) {
                                                    Some(t) => t,
                                                    None => spec_host_triple(),
                                                },
                                                cfg,
                                                test: present(m, "test"@),
                                                parse_only,
                                                no_trans,
                                                no_analysis: present(m, "no-analysis"@),
                                                debugging_opts: dbg,
                                                write_dependency_info: (
                                                    present(m, "dep-info"@),
                                                    normalize_opt(first(m, "dep-info"@)),
                                                ),
                                                print_metas: (
                                                    present(m, "crate-id"@),
                                                    present(m, "crate-name"@),
                                                    present(m, "crate-file-name"@),
                                                ),
                                                cg,
                                            },
                                        ),
                                    },
                                },
                            },
                        },
                    }
                },
            },
        },
    }
}

/// The codegen options of the `-C` arguments of a parsed command line.
pub fn build_codegen_options(m: &getopts::Matches) -> (r: Result<
    crate::session::CodegenOptions,
    DriverError,
>)
    requires
        matches_values(*m).dom().contains("C"@),
    ensures
        match r {
            Ok(cg) => spec_codegen(strs(matches_values(*m), "C"@)) == Ok::<CodegenView, ErrorView>(
                cg@,
            ),
            Err(e) => spec_codegen(strs(matches_values(*m), "C"@)) == Err::<
                CodegenView,
                ErrorView,
            >(e@),
        },
{
    let args = opt_strs(m, "C");
    codegen_options_from(&args)
}

/// The session options that a parsed command line describes. `lints` holds
/// the names of the known lints, against which the lint options are checked.
pub fn build_session_options(m: &getopts::Matches, lints: &Vec<String>) -> (r: Result<
    SessionOptions,
    DriverError,
>)
    requires
        defines_session_options(matches_values(*m)),
    ensures
        match r {
            Ok(o) => spec_session_options(matches_values(*m), lints.deep_view()) == Ok::<
                SessionOptionsView,
                ErrorView,
            >(o@),
            Err(e) => spec_session_options(matches_values(*m), lints.deep_view()) == Err::<
                SessionOptionsView,
                ErrorView,
            >(e@),
        },
{
    let crate_types = match session_crate_types(m) {
        Ok(v) => v,
        Err(e) => {
            return Err(e);
        },
    };
    let lint_opts = match session_lint_opts(m, lints) {
        Ok(v) => v,
        Err(e) => {
            return Err(e);
        },
    };
    let debugging_opts = match session_debug_opts(m) {
        Ok(v) => v,
        Err(e) => {
            return Err(e);
        },
    };
    let parse_only = opt_present(m, "parse-only");
    let no_trans = opt_present(m, "no-trans");
    let no_analysis = opt_present(m, "no-analysis");
    let output_types = match session_output_types(m, parse_only || no_trans) {
        Ok(v) => v,
        Err(e) => {
            return Err(e);
        },
    };
    let maybe_sysroot = path_normalize_opt(&opt_str(m, "sysroot"));
    let target_triple = match opt_str(m, "target") {
        Some(t) => t,
        None => host_triple(),
    };
    let optimize = match session_opt_level(m, debugging_opts) {
        Ok(v) => v,
        Err(e) => {
            return Err(e);
        },
    };
    let gc = debugging_opts & GC != 0;
    let debuginfo = match session_debuginfo(m) {
        Ok(v) => v,
        Err(e) => {
            return Err(e);
        },
    };
    let addl_lib_search_paths = path_normalize_all(&opt_strs(m, "L"));
    let cfg_args = opt_strs(m, "cfg");
    let cfg = match parse_cfgspecs(&cfg_args) {
        Ok(v) => v,
        Err(e) => {
            return Err(e);
        },
    };
    let test = opt_present(m, "test");
    let write_dependency_info = (
        opt_present(m, "dep-info"),
        path_normalize_opt(&opt_str(m, "dep-info")),
    );
    let print_metas = (
        opt_present(m, "crate-id"),
        opt_present(m, "crate-name"),
        opt_present(m, "crate-file-name"),
    );
    let cg = match build_codegen_options(m) {
        Ok(v) => v,
        Err(e) => {
            return Err(e);
        },
    };
    Ok(
        SessionOptions {
            crate_types,
            gc,
            optimize,
            debuginfo,
            lint_opts,
            output_types,
            addl_lib_search_paths,
            maybe_sysroot,
            target_triple,
            cfg,
            test,
            parse_only,
            no_trans,
            no_analysis,
            debugging_opts,
            write_dependency_info,
            print_metas,
            cg,
        },
    )
}

/// A parse against the driver's table defines every option that the session
/// options are read from.
pub proof fn lemma_driver_defines_session_options(m: OptValues)
    requires
        m.dom() == table_names(driver_specs()),
    ensures
        defines_session_options(m),
{
    let d = driver_specs();
    reveal_strlit("crate-type");
    reveal_strlit("parse-only");
    reveal_strlit("no-trans");
    reveal_strlit("no-analysis");
    reveal_strlit("A");
    reveal_strlit("allow");
    reveal_strlit("W");
    reveal_strlit("warn");
    reveal_strlit("D");
    reveal_strlit("deny");
    reveal_strlit("F");
    reveal_strlit("forbid");
    reveal_strlit("Z");
    reveal_strlit("emit");
    reveal_strlit("sysroot");
    reveal_strlit("target");
    reveal_strlit("O");
    reveal_strlit("opt-level");
    reveal_strlit("g");
    reveal_strlit("debuginfo");
    reveal_strlit("L");
    reveal_strlit("cfg");
    reveal_strlit("test");
    reveal_strlit("dep-info");
    reveal_strlit("crate-id");
    reveal_strlit("crate-name");
    reveal_strlit("crate-file-name");
    reveal_strlit("C");
    assert(d[3].1 == "crate-type"@);
    assert(d[17].1 == "parse-only"@);
    assert(d[11].1 == "no-trans"@);
    assert(d[12].1 == "no-analysis"@);
    assert(d[24].0 == "A"@ && d[24].1 == "allow"@);
    assert(d[23].0 == "W"@ && d[23].1 == "warn"@);
    assert(d[25].0 == "D"@ && d[25].1 == "deny"@);
    assert(d[26].0 == "F"@ && d[26].1 == "forbid"@);
    assert(d[28].0 == "Z"@);
    assert(d[4].1 == "emit"@);
    assert(d[20].1 == "sysroot"@);
    assert(d[22].1 == "target"@);
    assert(d[13].0 == "O"@);
    assert(d[15].1 == "opt-level"@);
    assert(d[9].0 == "g"@);
    assert(d[10].1 == "debuginfo"@);
    assert(d[2].0 == "L"@);
    assert(d[1].1 == "cfg"@);
    assert(d[21].1 == "test"@);
    assert(d[19].1 == "dep-info"@);
    assert(d[5].1 == "crate-id"@);
    assert(d[6].1 == "crate-name"@);
    assert(d[7].1 == "crate-file-name"@);
    assert(d[27].0 == "C"@);
}

/// The session options of a command line (without the program name), parsed
/// against the driver's option table; `lints` holds the names of the known
/// lints.
pub fn session_options_from_args(args: &Vec<String>, lints: &Vec<String>) -> (r: Result<
    SessionOptions,
    DriverError,
>)
    ensures
        match getopts_parse(driver_specs(), args.deep_view()) {
            None => r is Err && r->Err_0@ is ArgParse,
            Some(m) => match r {
                Ok(o) => spec_session_options(m, lints.deep_view()) == Ok::<
                    SessionOptionsView,
                    ErrorView,
                >(o@),
                Err(e) => spec_session_options(m, lints.deep_view()) == Err::<
                    SessionOptionsView,
                    ErrorView,
                >(e@),
            },
        },
{
    let m = match parse_driver_args(args) {
        Ok(m) => m,
        Err(e) => {
            return Err(e);
        },
    };
    proof {
        lemma_driver_defines_session_options(matches_values(m));
    }
    build_session_options(&m, lints)
}

// ---------------------------------------------------------------------------
// Laws of the lint options

proof fn lemma_level_request_at(m: OptValues, l: LintLevel)
    ensures
        level_requests(m, l).len() == strs(m, lint_level_short(l)).len() + strs(
            m,
            lint_level_name(l),
        ).len(),
        forall|i: int|
            0 <= i < strs(m, lint_level_short(l)).len() ==> #[trigger] level_requests(m, l)[i] == (
                underscored(strs(m, lint_level_short(l))[i]),
                l,
            ),
        forall|j: int|
            0 <= j < strs(m, lint_level_name(l)).len() ==> #[trigger] level_requests(m, l)[strs(
                m,
                lint_level_short(l),
            ).len() + j] == (underscored(strs(m, lint_level_name(l))[j]), l),
{
    reveal(level_requests);
    let a = strs(m, lint_level_short(l));
    let b = strs(m, lint_level_name(l));
    assert forall|j: int| 0 <= j < b.len() implies #[trigger] level_requests(m, l)[a.len() + j] == (
        underscored(b[j]),
        l,
    ) by {
        assert((a + b)[a.len() + j] == b[j]);
    }
    assert forall|i: int| 0 <= i < a.len() implies #[trigger] level_requests(m, l)[i] == (
        underscored(a[i]),
        l,
    ) by {
        assert((a + b)[i] == a[i]);
    }
}

/// The lint settings of accepted options, as they come from the lint
/// options alone: the settings of a successful parse of the session options.
pub open spec fn accepted_lint_opts(m: OptValues, lints: Seq<Seq<char>>) -> Seq<
    (Seq<char>, LintLevel),
> {
    spec_session_options(m, lints)->Ok_0.lint_opts
}

/// Every lint named with the short or the long option of a level is set at
/// that level: `-A`/`--allow` allow, `-W`/`--warn` warn, `-D`/`--deny` deny
/// and `-F`/`--forbid` forbid, with `-` read as `_` in its name; and nothing
/// else is set.
pub proof fn lemma_lint_options_carry_their_level(m: OptValues, lints: Seq<Seq<char>>)
    requires
        spec_session_options(m, lints) is Ok,
    ensures
        forall|i: int|
            0 <= i < strs(m, "A"@).len() ==> accepted_lint_opts(m, lints).contains(
                (underscored(#[trigger] strs(m, "A"@)[i]), LintLevel::Allow),
            ),
        forall|i: int|
            0 <= i < strs(m, "allow"@).len() ==> accepted_lint_opts(m, lints).contains(
                (underscored(#[trigger] strs(m, "allow"@)[i]), LintLevel::Allow),
            ),
        forall|i: int|
            0 <= i < strs(m, "W"@).len() ==> accepted_lint_opts(m, lints).contains(
                (underscored(#[trigger] strs(m, "W"@)[i]), LintLevel::Warn),
            ),
        forall|i: int|
            0 <= i < strs(m, "warn"@).len() ==> accepted_lint_opts(m, lints).contains(
                (underscored(#[trigger] strs(m, "warn"@)[i]), LintLevel::Warn),
            ),
        forall|i: int|
            0 <= i < strs(m, "D"@).len() ==> accepted_lint_opts(m, lints).contains(
                (underscored(#[trigger] strs(m, "D"@)[i]), LintLevel::Deny),
            ),
        forall|i: int|
            0 <= i < strs(m, "deny"@).len() ==> accepted_lint_opts(m, lints).contains(
                (underscored(#[trigger] strs(m, "deny"@)[i]), LintLevel::Deny),
            ),
        forall|i: int|
            0 <= i < strs(m, "F"@).len() ==> accepted_lint_opts(m, lints).contains(
                (underscored(#[trigger] strs(m, "F"@)[i]), LintLevel::Forbid),
            ),
        forall|i: int|
            0 <= i < strs(m, "forbid"@).len() ==> accepted_lint_opts(m, lints).contains(
                (underscored(#[trigger] strs(m, "forbid"@)[i]), LintLevel::Forbid),
            ),
        accepted_lint_opts(m, lints).len() == strs(m, "A"@).len() + strs(m, "allow"@).len() + strs(
            m,
            "W"@,
        ).len() + strs(m, "warn"@).len() + strs(m, "D"@).len() + strs(m, "deny"@).len() + strs(
            m,
            "F"@,
        ).len() + strs(m, "forbid"@).len(),
{
    let lo = accepted_lint_opts(m, lints);
    assert(spec_lint_opts(m, lints) is Ok);
    assert(lo == lint_requests(m));
    let a = level_requests(m, LintLevel::Allow);
    let w = level_requests(m, LintLevel::Warn);
    let d = level_requests(m, LintLevel::Deny);
    let f = level_requests(m, LintLevel::Forbid);
    lemma_level_request_at(m, LintLevel::Allow);
    lemma_level_request_at(m, LintLevel::Warn);
    lemma_level_request_at(m, LintLevel::Deny);
    lemma_level_request_at(m, LintLevel::Forbid);
    assert forall|i: int| 0 <= i < a.len() implies lo[i] == a[i] by {}
    assert forall|i: int| 0 <= i < w.len() implies lo[a.len() + i] == w[i] by {}
    assert forall|i: int| 0 <= i < d.len() implies lo[a.len() + w.len() + i] == d[i] by {}
    assert forall|i: int| 0 <= i < f.len() implies lo[a.len() + w.len() + d.len() + i] == f[i] by {}
    let na = strs(m, "A"@).len();
    let nw = strs(m, "W"@).len();
    let nd = strs(m, "D"@).len();
    let nf = strs(m, "F"@).len();
    assert forall|i: int| 0 <= i < strs(m, "A"@).len() implies lo.contains(
        (underscored(#[trigger] strs(m, "A"@)[i]), LintLevel::Allow),
    ) by {
        assert(lo[i] == a[i]);
    }
    assert forall|i: int| 0 <= i < strs(m, "allow"@).len() implies lo.contains(
        (underscored(#[trigger] strs(m, "allow"@)[i]), LintLevel::Allow),
    ) by {
        assert(lo[na + i] == a[na + i]);
    }
    assert forall|i: int| 0 <= i < strs(m, "W"@).len() implies lo.contains(
        (underscored(#[trigger] strs(m, "W"@)[i]), LintLevel::Warn),
    ) by {
        assert(lo[a.len() + i] == w[i]);
    }
    assert forall|i: int| 0 <= i < strs(m, "warn"@).len() implies lo.contains(
        (underscored(#[trigger] strs(m, "warn"@)[i]), LintLevel::Warn),
    ) by {
        assert(lo[a.len() + nw + i] == w[nw + i]);
    }
    assert forall|i: int| 0 <= i < strs(m, "D"@).len() implies lo.contains(
        (underscored(#[trigger] strs(m, "D"@)[i]), LintLevel::Deny),
    ) by {
        assert(lo[a.len() + w.len() + i] == d[i]);
    }
    assert forall|i: int| 0 <= i < strs(m, "deny"@).len() implies lo.contains(
        (underscored(#[trigger] strs(m, "deny"@)[i]), LintLevel::Deny),
    ) by {
        assert(lo[a.len() + w.len() + nd + i] == d[nd + i]);
    }
    assert forall|i: int| 0 <= i < strs(m, "F"@).len() implies lo.contains(
        (underscored(#[trigger] strs(m, "F"@)[i]), LintLevel::Forbid),
    ) by {
        assert(lo[a.len() + w.len() + d.len() + i] == f[i]);
    }
    assert forall|i: int| 0 <= i < strs(m, "forbid"@).len() implies lo.contains(
        (underscored(#[trigger] strs(m, "forbid"@)[i]), LintLevel::Forbid),
    ) by {
        assert(lo[a.len() + w.len() + d.len() + nf + i] == f[nf + i]);
    }
}

} // verus!
