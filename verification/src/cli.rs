//! The driver's command line: its option table, and the parse of arguments
//! against it with the `getopts` crate.

use vstd::prelude::*;
use vstd::string::*;
use crate::error::DriverError;

verus! {

// ---------------------------------------------------------------------------
// The option table

/// Whether an option takes an argument.
#[derive(Clone, Copy, PartialEq, Eq, Structural, Debug)]
pub enum HasArg {
    Yes,
    No,
    Maybe,
}

/// How often an option may occur.
#[derive(Clone, Copy, PartialEq, Eq, Structural, Debug)]
pub enum Occur {
    Req,
    Optional,
    Multi,
}

/// One command line option: its short and long names (either may be empty),
/// its help text, the hint for its argument, whether it takes one and how
/// often it may occur.
#[derive(Debug)]
pub struct OptGroup {
    pub short_name: String,
    pub long_name: String,
    pub desc: String,
    pub hint: String,
    pub hasarg: HasArg,
    pub occur: Occur,
}

/// An `OptGroup` with its strings taken as character sequences.
pub struct OptGroupView {
    pub short_name: Seq<char>,
    pub long_name: Seq<char>,
    pub desc: Seq<char>,
    pub hint: Seq<char>,
    pub hasarg: HasArg,
    pub occur: Occur,
}

impl View for OptGroup {
    type V = OptGroupView;

    open spec fn view(&self) -> OptGroupView {
        OptGroupView {
            short_name: self.short_name@,
            long_name: self.long_name@,
            desc: self.desc@,
            hint: self.hint@,
            hasarg: self.hasarg,
            occur: self.occur,
        }
    }
}

/// What a parse reads of an option: its names, whether it takes an argument
/// and how often it may occur.
pub type ParseSpec = (Seq<char>, Seq<char>, HasArg, Occur);

/// What a parse reads of an option group.
pub open spec fn parse_spec(g: OptGroupView) -> ParseSpec {
    (g.short_name, g.long_name, g.hasarg, g.occur)
}

/// What a parse reads of each group of a table.
pub open spec fn parse_specs(gs: Seq<OptGroup>) -> Seq<ParseSpec> {
    Seq::new(gs.len(), |i: int| parse_spec(gs[i]@))
}

/// Names that `getopts` accepts for an option: a short name of one ASCII
/// character or none, a long name of at least two characters or none, and
/// not both missing.
pub open spec fn valid_names(short: Seq<char>, long: Seq<char>) -> bool {
    &&& short.len() == 0 || (short.len() == 1 && (short[0] as u32) < 128)
    &&& long.len() == 0 || long.len() >= 2
    &&& short.len() + long.len() > 0
}

/// Every group of the table has names that `getopts` accepts.
pub open spec fn valid_table(gs: Seq<ParseSpec>) -> bool {
    forall|i: int| 0 <= i < gs.len() ==> valid_names(#[trigger] gs[i].0, gs[i].1)
}

/// The names by which the options of a table can be queried.
pub open spec fn table_names(gs: Seq<ParseSpec>) -> Set<Seq<char>> {
    Set::new(
        |n: Seq<char>|
            n.len() > 0 && exists|i: int| 0 <= i < gs.len() && (gs[i].0 == n || gs[i].1 == n),
    )
}

/// The number of options of the driver.
pub const NUM_OPTGROUPS: usize = 30;

/// Option `i` of the driver's table.
pub open spec fn driver_optgroup(i: int) -> OptGroupView {
    if i == 0 {
        flag_view("h"@, "help"@, "Display this message"@)
    } else if i == 1 {
        multi_view(""@, "cfg"@, "Configure the compilation environment"@, "SPEC"@)
    } else if i == 2 {
        multi_view("L"@, ""@, "Add a directory to the library search path"@, "PATH"@)
    } else if i == 3 {
        multi_view(
            ""@,
            "crate-type"@,
            "Comma separated list of types of crates for the compiler to emit"@,
            "[bin|lib|rlib|dylib|staticlib]"@,
        )
    } else if i == 4 {
        multi_view(
            ""@,
            "emit"@,
            "Comma separated list of types of output for the compiler to emit"@,
            "[asm|bc|ir|obj|link]"@,
        )
    } else if i == 5 {
        flag_view(""@, "crate-id"@, "Output the crate id and exit"@)
    } else if i == 6 {
        flag_view(""@, "crate-name"@, "Output the crate name and exit"@)
    } else if i == 7 {
        flag_view(
            ""@,
            "crate-file-name"@,
            "Output the file(s) that would be written if compilation continued and exit"@,
        )
    } else if i == 8 {
        flag_view(""@, "ls"@, "List the symbols defined by a library crate"@)
    } else if i == 9 {
        flag_view("g"@, ""@, "Equivalent to --debuginfo=2"@)
    } else if i == 10 {
        opt_view(""@, "debuginfo"@, DEBUGINFO_DESC@, "LEVEL"@)
    } else if i == 11 {
        flag_view(""@, "no-trans"@, "Run all passes except translation; no output"@)
    } else if i == 12 {
        flag_view(
            ""@,
            "no-analysis"@,
            "Parse and expand the output, but run no analysis or produce output"@,
        )
    } else if i == 13 {
        flag_view("O"@, ""@, "Equivalent to --opt-level=2"@)
    } else if i == 14 {
        opt_view("o"@, ""@, "Write output to <filename>"@, "FILENAME"@)
    } else if i == 15 {
        opt_view(""@, "opt-level"@, "Optimize with possible levels 0-3"@, "LEVEL"@)
    } else if i == 16 {
        opt_view(""@, "out-dir"@, "Write output to compiler-chosen filename in <dir>"@, "DIR"@)
    } else if i == 17 {
        flag_view(""@, "parse-only"@, "Parse only; do not compile, assemble, or link"@)
    } else if i == 18 {
        flagopt_view(""@, "pretty"@, PRETTY_DESC@, "TYPE"@)
    } else if i == 19 {
        flagopt_view(
            ""@,
            "dep-info"@,
            "Output dependency info to <filename> after compiling"@,
            "FILENAME"@,
        )
    } else if i == 20 {
        opt_view(""@, "sysroot"@, "Override the system root"@, "PATH"@)
    } else if i == 21 {
        flag_view(""@, "test"@, "Build a test harness"@)
    } else if i == 22 {
        opt_view(""@, "target"@, TARGET_DESC@, "TRIPLE"@)
    } else if i == 23 {
        multi_view("W"@, "warn"@, "Set lint warnings"@, "OPT"@)
    } else if i == 24 {
        multi_view("A"@, "allow"@, "Set lint allowed"@, "OPT"@)
    } else if i == 25 {
        multi_view("D"@, "deny"@, "Set lint denied"@, "OPT"@)
    } else if i == 26 {
        multi_view("F"@, "forbid"@, "Set lint forbidden"@, "OPT"@)
    } else if i == 27 {
        multi_view("C"@, "codegen"@, "Set a codegen option"@, "OPT[=VALUE]"@)
    } else if i == 28 {
        multi_view("Z"@, ""@, "Set internal debugging options"@, "FLAG"@)
    } else {
        flag_view("v"@, "version"@, "Print version info and exit"@)
    }
}

/// Help text of an option.
pub const DEBUGINFO_DESC: &'static str = "Emit DWARF debug info to the objects created:
         0 = no debug info,
         1 = line-tables only (for stacktraces and breakpoints),
         2 = full debug info with variable and type information (same as -g)";

/// Help text of an option.
pub const PRETTY_DESC: &'static str = "Pretty-print the input instead of compiling;
              valid types are: normal (un-annotated source),
              expanded (crates expanded),
              typed (crates expanded, with type annotations),
              or identified (fully parenthesized,
              AST nodes and blocks with IDs)";

/// Help text of an option.
pub const TARGET_DESC: &'static str = "Target triple cpu-manufacturer-kernel[-os]
                        to compile for (see chapter 3.4 of http://www.sourceware.org/autobook/
                        for details)";

/// An option that takes no argument and occurs at most once.
pub open spec fn flag_view(s: Seq<char>, l: Seq<char>, d: Seq<char>) -> OptGroupView {
    OptGroupView {
        short_name: s,
        long_name: l,
        desc: d,
        hint: ""@,
        hasarg: HasArg::No,
        occur: Occur::Optional,
    }
}

/// An option that takes an argument and may occur any number of times.
pub open spec fn multi_view(s: Seq<char>, l: Seq<char>, d: Seq<char>, h: Seq<char>) -> OptGroupView {
    OptGroupView { short_name: s, long_name: l, desc: d, hint: h, hasarg: HasArg::Yes, occur: Occur::Multi }
}

/// An option that takes an argument and occurs at most once.
pub open spec fn opt_view(s: Seq<char>, l: Seq<char>, d: Seq<char>, h: Seq<char>) -> OptGroupView {
    OptGroupView {
        short_name: s,
        long_name: l,
        desc: d,
        hint: h,
        hasarg: HasArg::Yes,
        occur: Occur::Optional,
    }
}

/// An option whose argument may be left out, occurring at most once.
pub open spec fn flagopt_view(s: Seq<char>, l: Seq<char>, d: Seq<char>, h: Seq<char>) -> OptGroupView {
    OptGroupView {
        short_name: s,
        long_name: l,
        desc: d,
        hint: h,
        hasarg: HasArg::Maybe,
        occur: Occur::Optional,
    }
}

fn group(s: &str, l: &str, d: &str, h: &str, hasarg: HasArg, occur: Occur) -> (r: OptGroup)
    ensures
        r@ == (OptGroupView {
            short_name: s@,
            long_name: l@,
            desc: d@,
            hint: h@,
            hasarg: hasarg,
            occur: occur,
        }),
{
    OptGroup {
        short_name: String::from_str(s),
        long_name: String::from_str(l),
        desc: String::from_str(d),
        hint: String::from_str(h),
        hasarg,
        occur,
    }
}

fn flag(s: &str, l: &str, d: &str) -> (r: OptGroup)
    ensures
        r@ == flag_view(s@, l@, d@),
{
    group(s, l, d, "", HasArg::No, Occur::Optional)
}

fn multi(s: &str, l: &str, d: &str, h: &str) -> (r: OptGroup)
    ensures
        r@ == multi_view(s@, l@, d@, h@),
{
    group(s, l, d, h, HasArg::Yes, Occur::Multi)
}

fn opt(s: &str, l: &str, d: &str, h: &str) -> (r: OptGroup)
    ensures
        r@ == opt_view(s@, l@, d@, h@),
{
    group(s, l, d, h, HasArg::Yes, Occur::Optional)
}

fn flagopt(s: &str, l: &str, d: &str, h: &str) -> (r: OptGroup)
    ensures
        r@ == flagopt_view(s@, l@, d@, h@),
{
    group(s, l, d, h, HasArg::Maybe, Occur::Optional)
}

fn driver_optgroup_at(i: usize) -> (r: OptGroup)
    requires
        i < NUM_OPTGROUPS,
    ensures
        r@ == driver_optgroup(i as int),
{
    match i {
        0 => flag("h", "help", "Display this message"),
        1 => multi("", "cfg", "Configure the compilation environment", "SPEC"),
        2 => multi("L", "", "Add a directory to the library search path", "PATH"),
        3 => multi(
            "",
            "crate-type",
            "Comma separated list of types of crates for the compiler to emit",
            "[bin|lib|rlib|dylib|staticlib]",
        ),
        4 => multi(
            "",
            "emit",
            "Comma separated list of types of output for the compiler to emit",
            "[asm|bc|ir|obj|link]",
        ),
        5 => flag("", "crate-id", "Output the crate id and exit"),
        6 => flag("", "crate-name", "Output the crate name and exit"),
        7 => flag(
            "",
            "crate-file-name",
            "Output the file(s) that would be written if compilation continued and exit",
        ),
        8 => flag("", "ls", "List the symbols defined by a library crate"),
        9 => flag("g", "", "Equivalent to --debuginfo=2"),
        10 => opt("", "debuginfo", DEBUGINFO_DESC, "LEVEL"),
        11 => flag("", "no-trans", "Run all passes except translation; no output"),
        12 => flag(
            "",
            "no-analysis",
            "Parse and expand the output, but run no analysis or produce output",
        ),
        13 => flag("O", "", "Equivalent to --opt-level=2"),
        14 => opt("o", "", "Write output to <filename>", "FILENAME"),
        15 => opt("", "opt-level", "Optimize with possible levels 0-3", "LEVEL"),
        16 => opt("", "out-dir", "Write output to compiler-chosen filename in <dir>", "DIR"),
        17 => flag("", "parse-only", "Parse only; do not compile, assemble, or link"),
        18 => flagopt("", "pretty", PRETTY_DESC, "TYPE"),
        19 => flagopt(
            "",
            "dep-info",
            "Output dependency info to <filename> after compiling",
            "FILENAME",
        ),
        20 => opt("", "sysroot", "Override the system root", "PATH"),
        21 => flag("", "test", "Build a test harness"),
        22 => opt("", "target", TARGET_DESC, "TRIPLE"),
        23 => multi("W", "warn", "Set lint warnings", "OPT"),
        24 => multi("A", "allow", "Set lint allowed", "OPT"),
        25 => multi("D", "deny", "Set lint denied", "OPT"),
        26 => multi("F", "forbid", "Set lint forbidden", "OPT"),
        27 => multi("C", "codegen", "Set a codegen option", "OPT[=VALUE]"),
        28 => multi("Z", "", "Set internal debugging options", "FLAG"),
        _ => flag("v", "version", "Print version info and exit"),
    }
}

/// The command line options of the driver, in the order in which help lists
/// them.
pub fn optgroups() -> (r: Vec<OptGroup>)
    ensures
        r@.len() == NUM_OPTGROUPS,
        forall|i: int| 0 <= i < NUM_OPTGROUPS ==> (#[trigger] r@[i])@ == driver_optgroup(i),
{
    let mut r: Vec<OptGroup> = Vec::new();
    let mut i: usize = 0;
    while i < NUM_OPTGROUPS
        invariant
            i <= NUM_OPTGROUPS,
            r@.len() == i,
            forall|j: int| 0 <= j < i ==> (#[trigger] r@[j])@ == driver_optgroup(j),
        decreases NUM_OPTGROUPS - i,
    {
        r.push(driver_optgroup_at(i));
        i = i + 1;
    }
    r
}


/// What a parse reads of each option of the driver's table.
pub open spec fn driver_specs() -> Seq<ParseSpec> {
    Seq::new(NUM_OPTGROUPS as nat, |i: int| parse_spec(driver_optgroup(i)))
}

/// The driver's option table has names that `getopts` accepts.
pub proof fn lemma_driver_table_valid()
    ensures
        valid_table(driver_specs()),
{
    reveal_strlit("");
    reveal_strlit("h");
    reveal_strlit("help");
    reveal_strlit("cfg");
    reveal_strlit("L");
    reveal_strlit("crate-type");
    reveal_strlit("emit");
    reveal_strlit("crate-id");
    reveal_strlit("crate-name");
    reveal_strlit("crate-file-name");
    reveal_strlit("ls");
    reveal_strlit("g");
    reveal_strlit("debuginfo");
    reveal_strlit("no-trans");
    reveal_strlit("no-analysis");
    reveal_strlit("O");
    reveal_strlit("o");
    reveal_strlit("opt-level");
    reveal_strlit("out-dir");
    reveal_strlit("parse-only");
    reveal_strlit("pretty");
    reveal_strlit("dep-info");
    reveal_strlit("sysroot");
    reveal_strlit("test");
    reveal_strlit("target");
    reveal_strlit("W");
    reveal_strlit("warn");
    reveal_strlit("A");
    reveal_strlit("allow");
    reveal_strlit("D");
    reveal_strlit("deny");
    reveal_strlit("F");
    reveal_strlit("forbid");
    reveal_strlit("C");
    reveal_strlit("codegen");
    reveal_strlit("Z");
    reveal_strlit("v");
    reveal_strlit("version");
    assert forall|i: int| 0 <= i < driver_specs().len() implies valid_names(
        #[trigger] driver_specs()[i].0,
        driver_specs()[i].1,
    ) by {
        let g = driver_optgroup(i);
        assert(driver_specs()[i] == parse_spec(g));
    }
}

// ---------------------------------------------------------------------------
// Parsing with getopts

#[verifier::external_type_specification]
#[verifier::external_body]
pub struct ExGetoptsOptions(getopts::Options);

#[verifier::external_type_specification]
#[verifier::external_body]
pub struct ExGetoptsMatches(getopts::Matches);

#[verifier::external_type_specification]
#[verifier::external_body]
pub struct ExGetoptsFail(getopts::Fail);

/// What a `getopts::Options` holds: what a parse reads of each option added
/// to it, in the order of addition.
pub uninterp spec fn options_specs(o: getopts::Options) -> Seq<ParseSpec>;

/// What a `getopts::Matches` holds: for each name by which an option can be
/// queried, the occurrences of the option in order, each `Some` with its
/// argument or `None` where it had none.
pub uninterp spec fn matches_values(m: getopts::Matches) -> Map<
    Seq<char>,
    Seq<Option<Seq<char>>>,
>;

/// The parse mode of a `getopts::Options`: whether everything after the
/// first free argument is free (`ParsingStyle::StopAtFirstFree`), and whether
/// a single dash introduces long options (`long_only`).
pub uninterp spec fn options_mode(o: getopts::Options) -> (bool, bool);

/// What `getopts::Options::parse` gives, in the default parse mode (free
/// arguments may stand anywhere, a single dash introduces short options),
/// for the options of a table and a list of arguments: the values that a
/// successful parse holds, or `None` where the parse fails.
pub uninterp spec fn getopts_parse(specs: Seq<ParseSpec>, args: Seq<Seq<char>>) -> Option<
    Map<Seq<char>, Seq<Option<Seq<char>>>>,
>;

/// The arguments given with the occurrences of an option, in order.
pub open spec fn given_args(vs: Seq<Option<Seq<char>>>) -> Seq<Seq<char>>
    decreases vs.len(),
{
    if vs.len() == 0 {
        Seq::empty()
    } else {
        let p = given_args(vs.drop_last());
        match vs.last() {
            Some(a) => p.push(a),
            None => p,
        }
    }
}

/// The argument of the first occurrence of an option, if it occurred and had
/// one.
pub open spec fn first_arg(vs: Seq<Option<Seq<char>>>) -> Option<Seq<char>> {
    if vs.len() > 0 {
        vs[0]
    } else {
        None
    }
}

/// `getopts::Options::new`: a table with no option, in the default parse
/// mode (`ParsingStyle::FloatingFrees`, not long-only).
#[verifier::external_body]
fn getopts_options_new() -> (o: getopts::Options)
    ensures
        options_specs(o) == Seq::<ParseSpec>::empty(),
        options_mode(o) == (false, false),
{
    getopts::Options::new()
}

/// `getopts::Options::opt`: adds one option at the end of the table and
/// leaves the parse mode as it was. The call panics on names that
/// `valid_names` rules out.
#[verifier::external_body]
fn getopts_options_opt(o: &mut getopts::Options, g: &OptGroup)
    requires
        valid_names(g.short_name@, g.long_name@),
    ensures
        options_specs(*final(o)) == options_specs(*old(o)).push(parse_spec(g@)),
        options_mode(*final(o)) == options_mode(*old(o)),
{
    let hasarg = match g.hasarg {
        HasArg::Yes => getopts::HasArg::Yes,
        HasArg::No => getopts::HasArg::No,
        HasArg::Maybe => getopts::HasArg::Maybe,
    };
    let occur = match g.occur {
        Occur::Req => getopts::Occur::Req,
        Occur::Optional => getopts::Occur::Optional,
        Occur::Multi => getopts::Occur::Multi,
    };
    o.opt(&g.short_name, &g.long_name, &g.desc, &g.hint, hasarg, occur);
}

/// `getopts::Options::parse`: the parse of the arguments against the table,
/// for a table in the default parse mode. Where it succeeds, the options can
/// be queried by exactly their short and long names.
#[verifier::external_body]
fn getopts_options_parse(o: &getopts::Options, args: &Vec<String>) -> (r: Result<
    getopts::Matches,
    getopts::Fail,
>)
    requires
        valid_table(options_specs(*o)),
        options_mode(*o) == (false, false),
    ensures
        match r {
            Ok(m) => getopts_parse(options_specs(*o), args.deep_view()) == Some(matches_values(m))
                && matches_values(m).dom() == table_names(options_specs(*o)),
            Err(_) => getopts_parse(options_specs(*o), args.deep_view()) is None,
        },
{
    o.parse(args)
}

/// `getopts::Matches::opt_strs`: the arguments given with an option, in
/// order. The call panics on a name that the table does not define.
#[verifier::external_body]
pub(crate) fn opt_strs(m: &getopts::Matches, name: &str) -> (r: Vec<String>)
    requires
        matches_values(*m).dom().contains(name@),
    ensures
        r.deep_view() == given_args(matches_values(*m)[name@]),
{
    m.opt_strs(name)
}

/// `getopts::Matches::opt_present`: whether an option occurred. The call
/// panics on a name that the table does not define.
#[verifier::external_body]
pub(crate) fn opt_present(m: &getopts::Matches, name: &str) -> (r: bool)
    requires
        matches_values(*m).dom().contains(name@),
    ensures
        r == (matches_values(*m)[name@].len() > 0),
{
    m.opt_present(name)
}

/// `getopts::Matches::opt_str`: the argument of the first occurrence of an
/// option, if it had one. The call panics on a name that the table does not
/// define.
#[verifier::external_body]
pub(crate) fn opt_str(m: &getopts::Matches, name: &str) -> (r: Option<String>)
    requires
        matches_values(*m).dom().contains(name@),
    ensures
        crate::session::opt_str_view(r) == first_arg(matches_values(*m)[name@]),
{
    m.opt_str(name)
}

/// The text of a `getopts::Fail` (its `Display`): which option was wrong and
/// how. What the text says is left unsaid here: the type is opaque.
#[verifier::external_body]
fn getopts_fail_text(f: &getopts::Fail) -> String {
    f.to_string()
}

/// The `getopts` table of an option table, in the default parse mode.
pub fn getopts_options(groups: &Vec<OptGroup>) -> (o: getopts::Options)
    requires
        valid_table(parse_specs(groups@)),
    ensures
        options_specs(o) == parse_specs(groups@),
        options_mode(o) == (false, false),
{
    let mut o = getopts_options_new();
    let mut i: usize = 0;
    while i < groups.len()
        invariant
            i <= groups.len(),
            valid_table(parse_specs(groups@)),
            options_specs(o) == parse_specs(groups@.take(i as int)),
            options_mode(o) == (false, false),
        decreases groups.len() - i,
    {
        assert(parse_specs(groups@)[i as int] == parse_spec(groups@[i as int]@));
        assert(valid_names(parse_specs(groups@)[i as int].0, parse_specs(groups@)[i as int].1));
        getopts_options_opt(&mut o, &groups[i]);
        i = i + 1;
        assert(parse_specs(groups@.take(i as int)) =~= parse_specs(groups@.take(i - 1)).push(
            parse_spec(groups@[i - 1]@),
        ));
    }
    assert(groups@.take(groups.len() as int) =~= groups@);
    o
}

/// The parse of the arguments (without the program name) against an option
/// table. The error holds the text of the parse failure.
pub fn parse_args(args: &Vec<String>, groups: &Vec<OptGroup>) -> (r: Result<
    getopts::Matches,
    DriverError,
>)
    requires
        valid_table(parse_specs(groups@)),
    ensures
        match r {
            Ok(m) => getopts_parse(parse_specs(groups@), args.deep_view()) == Some(
                matches_values(m),
            ) && matches_values(m).dom() == table_names(parse_specs(groups@)),
            Err(e) => getopts_parse(parse_specs(groups@), args.deep_view()) is None
                && e@ is ArgParse,
        },
{
    let o = getopts_options(groups);
    match getopts_options_parse(&o, args) {
        Ok(m) => Ok(m),
        Err(f) => Err(DriverError::ArgParse(getopts_fail_text(&f))),
    }
}

/// The parse of the arguments (without the program name) against the
/// driver's option table.
pub fn parse_driver_args(args: &Vec<String>) -> (r: Result<getopts::Matches, DriverError>)
    ensures
        match r {
            Ok(m) => getopts_parse(driver_specs(), args.deep_view()) == Some(matches_values(m))
                && matches_values(m).dom() == table_names(driver_specs()),
            Err(e) => getopts_parse(driver_specs(), args.deep_view()) is None && e@ is ArgParse,
        },
{
    let groups = optgroups();
    assert(parse_specs(groups@) =~= driver_specs());
    proof {
        lemma_driver_table_valid();
    }
    parse_args(args, &groups)
}

} // verus!
