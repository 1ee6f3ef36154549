use rustc_driver::cli::{optgroups, parse_args};
use rustc_driver::config::{build_configuration, contains_name};
use rustc_driver::driver::build_session;
use rustc_driver::options::build_session_options;

// When the user supplies --test we should implicitly supply --cfg test
#[test]
fn test_switch_implies_cfg_test() {
    let matches = match parse_args(&vec!["--test".to_string()], &optgroups()) {
        Ok(m) => m,
        Err(f) => panic!("test_switch_implies_cfg_test: {}", f.message()),
    };
    let sessopts = build_session_options(&matches, &Vec::new()).unwrap();
    let sess = build_session(sessopts, None, "/tmp".to_string(), "/usr/local".to_string()).unwrap();
    let cfg = build_configuration(&sess);
    assert!(contains_name(&cfg, "test"));
}

// When the user supplies --test and --cfg test, don't implicitly add
// another --cfg test
#[test]
fn test_switch_implies_cfg_test_unless_cfg_test() {
    let matches = match parse_args(
        &vec!["--test".to_string(), "--cfg=test".to_string()],
        &optgroups(),
    ) {
        Ok(m) => m,
        Err(f) => {
            panic!("test_switch_implies_cfg_test_unless_cfg_test: {}", f.message());
        }
    };
    let sessopts = build_session_options(&matches, &Vec::new()).unwrap();
    let sess = build_session(sessopts, None, "/tmp".to_string(), "/usr/local".to_string()).unwrap();
    let cfg = build_configuration(&sess);
    let mut test_items = cfg.iter().filter(|m| m.name().as_str() == "test");
    assert!(test_items.next().is_some());
    assert!(test_items.next().is_none());
}
