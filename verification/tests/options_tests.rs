use rustc_driver::cli::{optgroups, parse_args, parse_driver_args, OptGroup, HasArg, Occur, NUM_OPTGROUPS};
use rustc_driver::codegen::codegen_options_from;
use rustc_driver::error::DriverError;
use rustc_driver::options::{build_codegen_options, build_session_options, session_options_from_args};
use rustc_driver::session::{CrateType, DebugInfoLevel, LintLevel, OptLevel, OutputType, SessionOptions, GC, TIME_PASSES};

fn args(v: &[&str]) -> Vec<String> {
    v.iter().map(|s| s.to_string()).collect()
}

fn lints() -> Vec<String> {
    vec!["unused_imports".to_string(), "dead_code".to_string()]
}

fn opts(v: &[&str]) -> Result<SessionOptions, DriverError> {
    session_options_from_args(&args(v), &lints())
}

fn err_msg(v: &[&str]) -> String {
    match opts(v) {
        Ok(_) => panic!("expected an error for {:?}", v),
        Err(e) => e.message(),
    }
}

#[test]
fn table_has_all_driver_options() {
    let g = optgroups();
    assert_eq!(g.len(), NUM_OPTGROUPS);
    assert_eq!(g[0].short_name, "h");
    assert_eq!(g[0].long_name, "help");
    assert_eq!(g[0].hasarg, HasArg::No);
    assert_eq!(g[1].long_name, "cfg");
    assert_eq!(g[1].occur, Occur::Multi);
    assert_eq!(g[18].long_name, "pretty");
    assert_eq!(g[18].hasarg, HasArg::Maybe);
    assert_eq!(g[29].long_name, "version");
    assert_eq!(g[22].hint, "TRIPLE");
}

#[test]
fn defaults_without_arguments() {
    let o = opts(&[]).unwrap();
    assert!(o.crate_types.is_empty());
    assert!(!o.gc);
    assert_eq!(o.optimize, OptLevel::No);
    assert_eq!(o.debuginfo, DebugInfoLevel::NoDebugInfo);
    assert!(o.lint_opts.is_empty());
    assert_eq!(o.output_types, vec![OutputType::Exe]);
    assert!(o.addl_lib_search_paths.is_empty());
    assert_eq!(o.maybe_sysroot, None);
    assert_eq!(o.target_triple, "x86_64-unknown-linux-gnu");
    assert!(o.cfg.is_empty());
    assert!(!o.test && !o.parse_only && !o.no_trans && !o.no_analysis);
    assert_eq!(o.debugging_opts, 0);
    assert_eq!(o.write_dependency_info, (false, None));
    assert_eq!(o.print_metas, (false, false, false));
    assert_eq!(o.cg.target_cpu, "generic");
    assert_eq!(o.cg.relocation_model, "pic");
}

#[test]
fn crate_types_split_on_commas() {
    let o = opts(&["--crate-type", "lib,bin", "--crate-type=dylib"]).unwrap();
    assert_eq!(o.crate_types, vec![CrateType::Rlib, CrateType::Executable, CrateType::Dylib]);
    let o = opts(&["--crate-type=staticlib,rlib"]).unwrap();
    assert_eq!(o.crate_types, vec![CrateType::Staticlib, CrateType::Rlib]);
}

#[test]
fn unknown_crate_type_is_refused() {
    assert_eq!(err_msg(&["--crate-type=lib,foo,bar"]), "unknown crate type: `foo`");
    assert_eq!(err_msg(&["--crate-type=lib,"]), "unknown crate type: ``");
}

#[test]
fn lint_options_are_read_per_level() {
    let o = opts(&["-A", "dead-code", "--deny=unused-imports"]).unwrap();
    // The short and the long option of a level name the same option, so each
    // setting is read once under each name.
    assert_eq!(
        o.lint_opts,
        vec![
            ("dead_code".to_string(), LintLevel::Allow),
            ("dead_code".to_string(), LintLevel::Allow),
            ("unused_imports".to_string(), LintLevel::Deny),
            ("unused_imports".to_string(), LintLevel::Deny),
        ]
    );
}

#[test]
fn unknown_lint_is_refused() {
    assert_eq!(err_msg(&["-W", "no-such-lint"]), "unknown warn flag: no_such_lint");
    assert_eq!(err_msg(&["-F", "dead_code", "-D", "bogus"]), "unknown deny flag: bogus");
}

#[test]
fn debug_flags_are_or_ed() {
    let o = opts(&["-Z", "time-passes", "-Z", "gc"]).unwrap();
    assert_eq!(o.debugging_opts, TIME_PASSES | GC);
    assert!(o.gc);
    assert_eq!(err_msg(&["-Z", "time-passes", "-Z", "nope"]), "unknown debug flag: nope");
}

#[test]
fn emit_types_are_sorted_and_deduplicated() {
    let o = opts(&["--emit=obj,asm", "--emit", "obj,bc"]).unwrap();
    assert_eq!(o.output_types, vec![OutputType::Bitcode, OutputType::Assembly, OutputType::Object]);
    let o = opts(&["--emit=link,ir"]).unwrap();
    assert_eq!(o.output_types, vec![OutputType::LlvmAssembly, OutputType::Exe]);
    assert_eq!(err_msg(&["--emit=obj,wasm"]), "unknown emission type: `wasm`");
}

#[test]
fn parse_only_ignores_emit() {
    let o = opts(&["--parse-only", "--emit=bogus"]).unwrap();
    assert_eq!(o.output_types, vec![OutputType::Exe]);
    assert!(o.parse_only);
    let o = opts(&["--no-trans", "--emit=obj"]).unwrap();
    assert_eq!(o.output_types, vec![OutputType::Exe]);
    assert!(o.no_trans);
}

#[test]
fn optimization_levels() {
    assert_eq!(opts(&["-O"]).unwrap().optimize, OptLevel::Default);
    assert_eq!(opts(&["--opt-level=0"]).unwrap().optimize, OptLevel::No);
    assert_eq!(opts(&["--opt-level=1"]).unwrap().optimize, OptLevel::Less);
    assert_eq!(opts(&["--opt-level=2"]).unwrap().optimize, OptLevel::Default);
    assert_eq!(opts(&["--opt-level", "3"]).unwrap().optimize, OptLevel::Aggressive);
    assert_eq!(opts(&["-Z", "no-opt", "-O", "--opt-level=3"]).unwrap().optimize, OptLevel::No);
    assert_eq!(err_msg(&["-O", "--opt-level=1"]), "-O and --opt-level both provided");
    assert_eq!(
        err_msg(&["--opt-level=9"]),
        "optimization level needs to be between 0-3 (instead was `9`)"
    );
}

#[test]
fn debuginfo_levels() {
    assert_eq!(opts(&["-g"]).unwrap().debuginfo, DebugInfoLevel::FullDebugInfo);
    assert_eq!(opts(&["--debuginfo=0"]).unwrap().debuginfo, DebugInfoLevel::NoDebugInfo);
    assert_eq!(opts(&["--debuginfo=1"]).unwrap().debuginfo, DebugInfoLevel::LimitedDebugInfo);
    assert_eq!(opts(&["--debuginfo", "2"]).unwrap().debuginfo, DebugInfoLevel::FullDebugInfo);
    assert_eq!(err_msg(&["-g", "--debuginfo=1"]), "-g and --debuginfo both provided");
    assert_eq!(
        err_msg(&["--debuginfo=3"]),
        "debug info level needs to be between 0-2 (instead was `3`)"
    );
}

#[test]
fn paths_targets_and_flags() {
    let o = opts(&[
        "-L", "/a", "-L/b", "--sysroot", "/sys", "--target", "i686-apple-darwin", "--test",
        "--no-analysis", "--crate-id", "--crate-file-name",
    ])
    .unwrap();
    assert_eq!(o.addl_lib_search_paths, vec!["/a".to_string(), "/b".to_string()]);
    assert_eq!(o.maybe_sysroot, Some("/sys".to_string()));
    assert_eq!(o.target_triple, "i686-apple-darwin");
    assert!(o.test && o.no_analysis);
    assert_eq!(o.print_metas, (true, false, true));
}

#[test]
fn dep_info_with_and_without_file() {
    assert_eq!(opts(&["--dep-info"]).unwrap().write_dependency_info, (true, None));
    assert_eq!(
        opts(&["--dep-info=out.d"]).unwrap().write_dependency_info,
        (true, Some("out.d".to_string()))
    );
    assert_eq!(
        opts(&["--dep-info=./deps/../out.d"]).unwrap().write_dependency_info,
        (true, Some("out.d".to_string()))
    );
}

#[test]
fn search_paths_and_sysroot_in_normal_form() {
    let o = opts(&["-L", "./lib/", "-L", "/opt//x/../y", "--sysroot", "/sys/."]).unwrap();
    assert_eq!(o.addl_lib_search_paths, vec!["lib".to_string(), "/opt/y".to_string()]);
    assert_eq!(o.maybe_sysroot, Some("/sys".to_string()));
}

#[test]
fn cfg_arguments_become_items() {
    let o = opts(&["--cfg", "foo", "--cfg", " target_os = \"linux\" "]).unwrap();
    assert_eq!(o.cfg.len(), 2);
    assert_eq!(o.cfg[0].name(), "foo");
    match &o.cfg[1] {
        rustc_driver::config::MetaItem::NameValue(n, v) => {
            assert_eq!(n, "target_os");
            assert_eq!(v, "linux");
        }
        other => panic!("unexpected {:?}", other),
    }
    assert_eq!(err_msg(&["--cfg", "foo", "--cfg", "two words"]), "invalid --cfg argument: two words");
}

#[test]
fn codegen_options_apply_in_order() {
    let o = opts(&[
        "-C", "save-temps", "-C", "target-cpu=pentium", "-C", "link-args=-la  -lb",
        "-C", "link_args=-lc", "--codegen", "no-integrated-as", "-C", "linker=cc=1",
    ])
    .unwrap();
    assert!(o.cg.save_temps);
    assert!(o.cg.no_integrated_as);
    assert_eq!(o.cg.target_cpu, "pentium");
    assert_eq!(o.cg.link_args, vec!["-la".to_string(), "-lb".to_string(), "-lc".to_string()]);
    assert_eq!(o.cg.linker, Some("cc=1".to_string()));
}

#[test]
fn codegen_option_errors() {
    assert_eq!(err_msg(&["-C", "save-temps=yes"]), "codegen option `save-temps` takes no value");
    assert_eq!(
        err_msg(&["-C", "target-cpu"]),
        "codegen option `target-cpu` requires a value (-C target-cpu=<value>)"
    );
    assert_eq!(err_msg(&["-C", "bogus-option=1"]), "unknown codegen option: `bogus-option`");
}

#[test]
fn codegen_options_from_strings() {
    let cg = codegen_options_from(&vec!["passes=a b".to_string(), "passes=c".to_string()]).unwrap();
    assert_eq!(cg.passes, vec!["a".to_string(), "b".to_string(), "c".to_string()]);
    let m = parse_driver_args(&args(&["-C", "soft-float"])).unwrap();
    assert!(build_codegen_options(&m).unwrap().soft_float);
}

#[test]
fn stages_fail_in_order() {
    // A crate type error comes before a lint error, which comes before a
    // debug flag error.
    assert_eq!(
        err_msg(&["-Z", "nope", "-W", "bad", "--crate-type=xyz"]),
        "unknown crate type: `xyz`"
    );
    assert_eq!(err_msg(&["-Z", "nope", "-W", "bad"]), "unknown warn flag: bad");
}

#[test]
fn parse_failures_are_reported() {
    match parse_driver_args(&args(&["--bogus"])) {
        Err(DriverError::ArgParse(msg)) => assert_eq!(msg, "Unrecognized option: 'bogus'"),
        _ => panic!("expected a parse failure"),
    }
    match parse_driver_args(&args(&["-O", "-O"])) {
        Err(DriverError::ArgParse(msg)) => assert_eq!(msg, "Option 'O' given more than once"),
        _ => panic!("expected a parse failure"),
    }
    assert_eq!(err_msg(&["--target"]), "Argument to option 'target' missing");
}

#[test]
fn parse_args_with_a_custom_table() {
    let table = vec![OptGroup {
        short_name: "x".to_string(),
        long_name: "extra".to_string(),
        desc: "an extra flag".to_string(),
        hint: String::new(),
        hasarg: HasArg::No,
        occur: Occur::Optional,
    }];
    let m = parse_args(&args(&["--extra", "free"]), &table).unwrap();
    assert!(m.opt_present("x"));
    assert!(m.opt_present("extra"));
    assert_eq!(m.free, vec!["free".to_string()]);
}

#[test]
fn build_session_options_from_matches() {
    let m = parse_driver_args(&args(&["--test", "--cfg=test"])).unwrap();
    let o = build_session_options(&m, &Vec::new()).unwrap();
    assert!(o.test);
    assert_eq!(o.cfg.len(), 1);
}
