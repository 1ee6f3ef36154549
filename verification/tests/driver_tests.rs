use rustc_driver::cfgspec::parse_cfgspec;
use rustc_driver::config::{append_configuration, build_configuration, contains_name, default_configuration, MetaItem};
use rustc_driver::driver::{build_session, compile_phases, llvm_passes_plan, parse_pretty, pretty_plan, stop_after_phase_1, stop_after_phase_2, stop_after_phase_3, stop_after_phase_5, write_out_deps, Annotation, DepInfo, Phase, PpMode};
use rustc_driver::error::DriverError;
use rustc_driver::options::session_options_from_args;
use rustc_driver::output::{anon_src, build_output_filenames, source_name, Input, OutputFilenames, OutputWarning};
use rustc_driver::path::{path_dir_path, path_filestem, path_join, path_normalize, path_with_extension};
use rustc_driver::session::{Architecture, Os, OutputType, Session};
use rustc_driver::target::{build_target_config, get_arch, get_os, host_triple};

fn session(v: &[&str]) -> Session {
    let a: Vec<String> = v.iter().map(|s| s.to_string()).collect();
    let o = session_options_from_args(&a, &Vec::new()).unwrap();
    build_session(o, None, "/work".to_string(), "/usr/local".to_string()).unwrap()
}

fn names(cfg: &Vec<MetaItem>) -> Vec<String> {
    cfg.iter().map(|m| m.name().clone()).collect()
}

#[test]
fn anonymous_source() {
    assert_eq!(anon_src(), "<anon>");
    assert_eq!(source_name(&Input::StrInput("fn main() {}".to_string())), "<anon>");
    assert_eq!(source_name(&Input::FileInput("src/main.rs".to_string())), "src/main.rs");
}

#[test]
fn input_stems() {
    assert_eq!(Input::FileInput("src/foo.rs".to_string()).filestem(), "foo");
    assert_eq!(Input::FileInput("a.tar.gz".to_string()).filestem(), "a.tar");
    assert_eq!(Input::FileInput("dir/.hidden".to_string()).filestem(), ".hidden");
    assert_eq!(Input::FileInput("noext".to_string()).filestem(), "noext");
    assert_eq!(Input::StrInput("x".to_string()).filestem(), "rust_out");
}

#[test]
fn path_operations() {
    assert_eq!(path_join("out", "foo"), "out/foo");
    assert_eq!(path_join("out/", "foo"), "out/foo");
    assert_eq!(path_join(".", "foo"), "foo");
    assert_eq!(path_join("out", "/abs"), "/abs");
    assert_eq!(path_dir_path("a/b/c.rs"), "a/b");
    assert_eq!(path_dir_path("c.rs"), ".");
    assert_eq!(path_dir_path("/c.rs"), "/");
    assert_eq!(path_filestem(".."), None);
    assert_eq!(path_filestem("x/y.rs"), Some("y".to_string()));
    assert_eq!(path_with_extension("out/foo", "o"), "out/foo.o");
    assert_eq!(path_with_extension("out/foo.bc", "ll"), "out/foo.ll");
    assert_eq!(path_with_extension("out/foo.bc", ""), "out/foo");
}

#[test]
fn path_normal_forms() {
    assert_eq!(path_normalize("a/./b/../c"), "a/c");
    assert_eq!(path_normalize("./out"), "out");
    assert_eq!(path_normalize("out/"), "out");
    assert_eq!(path_normalize("a//b"), "a/b");
    assert_eq!(path_normalize(""), ".");
    assert_eq!(path_normalize("."), ".");
    assert_eq!(path_normalize("a/.."), ".");
    assert_eq!(path_normalize("../x/.."), "..");
    assert_eq!(path_normalize("../../y"), "../../y");
    assert_eq!(path_normalize("/"), "/");
    assert_eq!(path_normalize("/../x"), "/x");
    assert_eq!(path_normalize("/a/b/../../.."), "/");
    assert_eq!(path_join("a/b", "../c"), "a/c");
    assert_eq!(path_join("out", ""), "out");
    assert_eq!(path_join("/", "x"), "/x");
    assert_eq!(path_join("out", "/abs/./y"), "/abs/y");
    assert_eq!(path_filestem("/"), None);
    assert_eq!(path_filestem("."), None);
}

#[test]
fn normal_form_is_stable() {
    for p in ["a/./b/../c", "", "/", "../..//x/.", "/../a/", "x/y/z/../../.."] {
        let n = path_normalize(p);
        assert_eq!(path_normalize(&n), n);
    }
}

#[test]
fn output_names_use_normal_paths() {
    let sess = session(&[]);
    let input = Input::FileInput("./src/../foo.rs".to_string());
    assert_eq!(source_name(&input), "foo.rs");
    assert_eq!(input.filestem(), "foo");
    let (o, _) = build_output_filenames(&input, &Some("./out".to_string()), &None, &None, &sess);
    assert_eq!(o.out_directory, "out");
    assert_eq!(o.path(OutputType::Bitcode), "out/foo.bc");
    let (o, _) = build_output_filenames(&input, &None, &Some("./bin//prog".to_string()), &None, &sess);
    assert_eq!(o.out_directory, "bin");
    assert_eq!(o.single_output_file, Some("bin/prog".to_string()));
    assert_eq!(o.path(OutputType::Exe), "bin/prog");
}

#[test]
fn output_file_paths() {
    let o = OutputFilenames {
        out_directory: "build".to_string(),
        out_filestem: "hello".to_string(),
        single_output_file: None,
    };
    assert_eq!(o.temp_path(OutputType::Bitcode), "build/hello.bc");
    assert_eq!(o.temp_path(OutputType::Assembly), "build/hello.s");
    assert_eq!(o.temp_path(OutputType::LlvmAssembly), "build/hello.ll");
    assert_eq!(o.temp_path(OutputType::Object), "build/hello.o");
    assert_eq!(o.temp_path(OutputType::Exe), "build/hello");
    assert_eq!(o.path(OutputType::Object), "build/hello.o");
    assert_eq!(o.with_extension("d"), "build/hello.d");
    let single = OutputFilenames {
        out_directory: "build".to_string(),
        out_filestem: "hello".to_string(),
        single_output_file: Some("x/out.bin".to_string()),
    };
    assert_eq!(single.path(OutputType::Object), "x/out.bin");
    assert_eq!(single.temp_path(OutputType::Object), "build/hello.o");
}

#[test]
fn output_filenames_without_o() {
    let sess = session(&[]);
    let input = Input::FileInput("src/lib.rs".to_string());
    let (o, w) = build_output_filenames(&input, &None, &None, &None, &sess);
    assert_eq!(o.out_directory, ".");
    assert_eq!(o.out_filestem, "lib");
    assert_eq!(o.single_output_file, None);
    assert!(w.is_empty());
    let (o, _) = build_output_filenames(&input, &Some("target".to_string()), &None, &Some("mycrate".to_string()), &sess);
    assert_eq!(o.out_directory, "target");
    assert_eq!(o.out_filestem, "mycrate");
}

#[test]
fn output_filenames_with_o() {
    let sess = session(&[]);
    let input = Input::StrInput(String::new());
    let (o, w) = build_output_filenames(&input, &Some("d".to_string()), &Some("bin/prog.exe".to_string()), &None, &sess);
    assert_eq!(o.out_directory, "bin");
    assert_eq!(o.out_filestem, "prog");
    assert_eq!(o.single_output_file, Some("bin/prog.exe".to_string()));
    assert_eq!(w, vec![OutputWarning::IgnoringOutDir]);
    assert_eq!(w[0].message(), "ignoring --out-dir flag due to -o flag.");
    let sess = session(&["--emit=obj,asm"]);
    let (o, w) = build_output_filenames(&input, &None, &Some("prog".to_string()), &None, &sess);
    assert_eq!(o.out_directory, ".");
    assert_eq!(o.single_output_file, None);
    assert_eq!(w, vec![OutputWarning::IgnoringOutputFile]);
    assert_eq!(
        w[0].message(),
        "ignoring specified output filename because multiple outputs were requested"
    );
}

#[test]
fn operating_systems_and_architectures() {
    assert_eq!(get_os("i686-pc-mingw32"), Some(Os::Win32));
    assert_eq!(get_os("x86_64-apple-darwin"), Some(Os::Macos));
    assert_eq!(get_os("arm-linux-androideabi"), Some(Os::Android));
    assert_eq!(get_os("x86_64-unknown-freebsd"), Some(Os::Freebsd));
    assert_eq!(get_os("x86_64-unknown-linux-gnu"), Some(Os::Linux));
    assert_eq!(get_os("sparc-sun-solaris"), None);
    assert_eq!(get_arch("i586-pc-mingw32"), Some(Architecture::X86));
    assert_eq!(get_arch("x86_64-apple-darwin"), Some(Architecture::X86_64));
    assert_eq!(get_arch("thumbv7-linux"), Some(Architecture::Arm));
    assert_eq!(get_arch("mipsel-linux"), Some(Architecture::Mips));
    assert_eq!(get_arch("sparc-linux"), None);
}

#[test]
fn target_configuration() {
    assert_eq!(host_triple(), "x86_64-unknown-linux-gnu");
    let sess = session(&["--target", "i686-pc-mingw32"]);
    assert_eq!(sess.targ_cfg.os, Os::Win32);
    assert_eq!(sess.targ_cfg.arch, Architecture::X86);
    assert_eq!(sess.targ_cfg.int_type, rustc_driver::session::IntTy::TyI32);
    let mut o = session_options_from_args(&vec!["--target".to_string(), "x86_64-sun-solaris".to_string()], &Vec::new()).unwrap();
    assert_eq!(build_target_config(&o).unwrap_err().message(), "unknown operating system");
    o.target_triple = "sparc-unknown-linux".to_string();
    assert_eq!(build_target_config(&o).unwrap_err().message(), "unknown architecture: sparc-unknown-linux");
}

#[test]
fn session_paths() {
    let a = vec!["--sysroot".to_string(), "/sys".to_string()];
    let o = session_options_from_args(&a, &Vec::new()).unwrap();
    let s = build_session(o, Some("src/main.rs".to_string()), "/work".to_string(), "/usr".to_string()).unwrap();
    assert_eq!(s.local_crate_source_file, Some("/work/src/main.rs".to_string()));
    assert_eq!(s.default_sysroot, None);
    let o = session_options_from_args(&Vec::new(), &Vec::new()).unwrap();
    let s = build_session(o, Some("/abs/main.rs".to_string()), "/work".to_string(), "/usr".to_string()).unwrap();
    assert_eq!(s.local_crate_source_file, Some("/abs/main.rs".to_string()));
    assert_eq!(s.default_sysroot, Some("/usr".to_string()));
    let o = session_options_from_args(&Vec::new(), &Vec::new()).unwrap();
    let s = build_session(o, Some("./src/../main.rs".to_string()), "/work/./x/".to_string(), "/usr/".to_string()).unwrap();
    assert_eq!(s.working_dir, "/work/x");
    assert!(!s.building_library);
    assert_eq!(s.node_id, 1);
    assert_eq!(s.recursion_limit, 64);
    assert!(s.crate_types.is_empty());
    assert_eq!(s.local_crate_source_file, Some("/work/x/main.rs".to_string()));
    assert_eq!(s.default_sysroot, Some("/usr".to_string()));
    let o = session_options_from_args(&Vec::new(), &Vec::new()).unwrap();
    let s = build_session(o, Some("../../../x.rs".to_string()), "/w/a".to_string(), "/usr".to_string()).unwrap();
    assert_eq!(s.local_crate_source_file, Some("/x.rs".to_string()));
}

#[test]
fn configuration_of_a_linux_session() {
    let sess = session(&["--cfg", "foo"]);
    let cfg = build_configuration(&sess);
    assert_eq!(
        names(&cfg),
        vec!["foo", "nogc", "unix", "target_os", "target_family", "target_arch", "target_endian", "target_word_size"]
    );
    match &cfg[3] {
        MetaItem::NameValue(_, v) => assert_eq!(v, "linux"),
        _ => panic!(),
    }
    match &cfg[7] {
        MetaItem::NameValue(_, v) => assert_eq!(v, "64"),
        _ => panic!(),
    }
    let sess = session(&["-Z", "gc", "--target", "mips-unknown-linux"]);
    let cfg = build_configuration(&sess);
    assert!(contains_name(&cfg, "gc"));
    assert!(!contains_name(&cfg, "nogc"));
    match &cfg[5] {
        MetaItem::NameValue(_, v) => assert_eq!(v, "big"),
        _ => panic!(),
    }
}

#[test]
fn windows_family() {
    let sess = session(&["--target", "i686-pc-win32"]);
    let cfg = default_configuration(&sess);
    assert_eq!(cfg[0].name(), "windows");
    match &cfg[1] {
        MetaItem::NameValue(_, v) => assert_eq!(v, "win32"),
        _ => panic!(),
    }
}

#[test]
fn append_configuration_is_idempotent() {
    let mut cfg = vec![MetaItem::Word("a".to_string())];
    append_configuration(&mut cfg, "b");
    append_configuration(&mut cfg, "b");
    append_configuration(&mut cfg, "a");
    assert_eq!(names(&cfg), vec!["a", "b"]);
}

#[test]
fn cfgspec_forms() {
    match parse_cfgspec("  unix ") {
        Some(MetaItem::Word(n)) => assert_eq!(n, "unix"),
        _ => panic!(),
    }
    match parse_cfgspec("feature=\"a b\"") {
        Some(MetaItem::NameValue(n, v)) => {
            assert_eq!(n, "feature");
            assert_eq!(v, "a b");
        }
        _ => panic!(),
    }
    assert!(parse_cfgspec("").is_none());
    assert!(parse_cfgspec("1abc").is_none());
    assert!(parse_cfgspec("a = b").is_none());
    match parse_cfgspec("a = \"x\\\"\\n\"") {
        Some(MetaItem::NameValue(n, v)) => {
            assert_eq!(n, "a");
            assert_eq!(v, "x\"\n");
        }
        other => panic!("unexpected {:?}", other),
    }
    assert!(parse_cfgspec("a = \"x\\q\"").is_none());
    assert!(parse_cfgspec("a = \"open").is_none());
    assert!(parse_cfgspec("a b").is_none());
}

#[test]
fn cfgspec_lists() {
    match parse_cfgspec("feature( a , b=\"c\", d(e) )") {
        Some(MetaItem::List(n, items)) => {
            assert_eq!(n, "feature");
            assert_eq!(items.len(), 3);
            assert_eq!(items[0].name(), "a");
            match &items[1] {
                MetaItem::NameValue(k, v) => {
                    assert_eq!(k, "b");
                    assert_eq!(v, "c");
                }
                other => panic!("unexpected {:?}", other),
            }
            match &items[2] {
                MetaItem::List(k, inner) => {
                    assert_eq!(k, "d");
                    assert_eq!(inner.len(), 1);
                    assert_eq!(inner[0].name(), "e");
                }
                other => panic!("unexpected {:?}", other),
            }
        }
        other => panic!("unexpected {:?}", other),
    }
    match parse_cfgspec("empty()") {
        Some(MetaItem::List(n, items)) => {
            assert_eq!(n, "empty");
            assert!(items.is_empty());
        }
        other => panic!("unexpected {:?}", other),
    }
    assert!(parse_cfgspec("f(a,)").is_none());
    assert!(parse_cfgspec("f(a b)").is_none());
    assert!(parse_cfgspec("f(a").is_none());
    let copy = parse_cfgspec("g(h(i))").unwrap().duplicate();
    assert_eq!(copy.name(), "g");
}

#[test]
fn stopping_points() {
    let s = session(&["--parse-only"]);
    assert!(stop_after_phase_1(&s));
    assert_eq!(compile_phases(&s), vec![Phase::Parse]);
    let s = session(&["-Z", "show-span"]);
    assert!(stop_after_phase_1(&s));
    let s = session(&["--no-analysis"]);
    assert!(!stop_after_phase_1(&s) && stop_after_phase_2(&s));
    assert_eq!(compile_phases(&s), vec![Phase::Parse, Phase::ConfigureAndExpand, Phase::WriteDepInfo]);
    let s = session(&["-Z", "ast-json"]);
    assert!(stop_after_phase_2(&s));
    let s = session(&["--no-trans"]);
    assert!(stop_after_phase_3(&s));
    assert_eq!(compile_phases(&s).len(), 4);
    let s = session(&["--emit=obj"]);
    assert!(stop_after_phase_5(&s));
    assert_eq!(compile_phases(&s).last(), Some(&Phase::LlvmPasses));
    let s = session(&[]);
    assert!(!stop_after_phase_5(&s));
    assert_eq!(compile_phases(&s).len(), 7);
    assert_eq!(compile_phases(&s)[6], Phase::Link);
}

#[test]
fn llvm_plans() {
    let outs = OutputFilenames { out_directory: "o".to_string(), out_filestem: "m".to_string(), single_output_file: None };
    let s = session(&["--emit=bc,obj"]);
    let p = llvm_passes_plan(&s, &outs);
    assert_eq!(p.pass_outputs, vec![OutputType::Bitcode, OutputType::Object]);
    assert!(!p.run_assembler);
    let s = session(&["-C", "no-integrated-as"]);
    let p = llvm_passes_plan(&s, &outs);
    assert_eq!(p.pass_outputs, vec![OutputType::Assembly]);
    assert!(p.run_assembler);
    assert_eq!(p.remove_file, Some("o/m.s".to_string()));
    let s = session(&["-C", "no-integrated-as", "-C", "save-temps"]);
    assert_eq!(llvm_passes_plan(&s, &outs).remove_file, None);
}

#[test]
fn dependency_info() {
    let outs = OutputFilenames { out_directory: "o".to_string(), out_filestem: "m".to_string(), single_output_file: None };
    let files = vec!["m.rs".to_string(), "sub.rs".to_string()];
    let exe = vec!["o/libm.rlib".to_string()];
    let s = session(&["--dep-info", "--emit=obj,link"]);
    match write_out_deps(&s, &Input::FileInput("m.rs".to_string()), &outs, &exe, &files) {
        DepInfo::Write { path, contents } => {
            assert_eq!(path, "o/m.d");
            assert_eq!(contents, "o/m.o: m.rs sub.rs\n\no/libm.rlib: m.rs sub.rs\n\n");
        }
        other => panic!("unexpected {:?}", other),
    }
    let s = session(&["--dep-info=deps.mk"]);
    match write_out_deps(&s, &Input::StrInput(String::new()), &outs, &exe, &files) {
        DepInfo::Write { path, contents } => {
            assert_eq!(path, "deps.mk");
            assert_eq!(contents, "o/libm.rlib: m.rs sub.rs\n\n");
        }
        other => panic!("unexpected {:?}", other),
    }
    let s = session(&["--dep-info"]);
    assert!(matches!(write_out_deps(&s, &Input::StrInput(String::new()), &outs, &exe, &files), DepInfo::NoFilenameForStdin));
    let s = session(&[]);
    assert!(matches!(write_out_deps(&s, &Input::StrInput(String::new()), &outs, &exe, &files), DepInfo::Skip));
}

#[test]
fn pretty_modes() {
    assert_eq!(parse_pretty("normal").unwrap(), PpMode::PpmNormal);
    assert_eq!(parse_pretty("expanded").unwrap(), PpMode::PpmExpanded);
    assert_eq!(parse_pretty("typed").unwrap(), PpMode::PpmTyped);
    assert_eq!(parse_pretty("identified").unwrap(), PpMode::PpmIdentified);
    assert_eq!(parse_pretty("expanded,identified").unwrap(), PpMode::PpmExpandedIdentified);
    let e = parse_pretty("fancy").unwrap_err();
    assert!(matches!(e, DriverError::BadPrettyMode));
    assert_eq!(
        e.message(),
        "argument to `pretty` must be one of `normal`, `expanded`, `typed`, `identified`, or `expanded,identified`"
    );
    let p = pretty_plan(PpMode::PpmTyped);
    assert!(p.expand && p.analyze);
    assert_eq!(p.annotation, Annotation::Typed);
    let p = pretty_plan(PpMode::PpmIdentified);
    assert!(!p.expand && !p.analyze);
    assert_eq!(p.annotation, Annotation::Identified);
    let p = pretty_plan(PpMode::PpmExpandedIdentified);
    assert!(p.expand && !p.analyze);
    let p = pretty_plan(PpMode::PpmNormal);
    assert_eq!(p.annotation, Annotation::NoAnn);
}

#[test]
fn error_messages() {
    assert_eq!(DriverError::UnknownEmission("x".to_string()).message(), "unknown emission type: `x`");
    assert_eq!(DriverError::GAndDebuginfo.message(), "-g and --debuginfo both provided");
    assert_eq!(DriverError::ArgParse("boom".to_string()).message(), "boom");
}
