use rustc_driver::annotate::{annotation_post, annotation_pre, decimal_string, AnnNode, PrintStep};
use rustc_driver::driver::Annotation;

fn text(steps: &[PrintStep]) -> Vec<String> {
    steps
        .iter()
        .map(|s| match s {
            PrintStep::Popen => "(".to_string(),
            PrintStep::Pclose => ")".to_string(),
            PrintStep::Space => " ".to_string(),
            PrintStep::Word(w) => format!("word:{}", w),
            PrintStep::Comment(c) => format!("comment:{}", c),
        })
        .collect()
}

#[test]
fn decimal_digits() {
    assert_eq!(decimal_string(0), "0");
    assert_eq!(decimal_string(7), "7");
    assert_eq!(decimal_string(10), "10");
    assert_eq!(decimal_string(4096), "4096");
    assert_eq!(decimal_string(u64::MAX), "18446744073709551615");
}

#[test]
fn identified_annotation() {
    assert_eq!(text(&annotation_pre(Annotation::Identified, AnnNode::Expr)), vec!["("]);
    assert!(annotation_pre(Annotation::Identified, AnnNode::Item).is_empty());
    assert_eq!(text(&annotation_post(Annotation::Identified, AnnNode::Item, 12, "")), vec![" ", "comment:12"]);
    assert_eq!(text(&annotation_post(Annotation::Identified, AnnNode::Block, 3, "")), vec![" ", "comment:block 3"]);
    assert_eq!(text(&annotation_post(Annotation::Identified, AnnNode::Expr, 40, "")), vec![" ", "comment:40", ")"]);
    assert_eq!(text(&annotation_post(Annotation::Identified, AnnNode::Pat, 5, "")), vec![" ", "comment:pat 5"]);
}

#[test]
fn typed_annotation() {
    assert_eq!(text(&annotation_pre(Annotation::Typed, AnnNode::Expr)), vec!["("]);
    assert_eq!(
        text(&annotation_post(Annotation::Typed, AnnNode::Expr, 9, "int")),
        vec![" ", "word:as", " ", "word:int", ")"]
    );
    assert!(annotation_post(Annotation::Typed, AnnNode::Item, 9, "int").is_empty());
    assert!(annotation_pre(Annotation::NoAnn, AnnNode::Expr).is_empty());
    assert!(annotation_post(Annotation::NoAnn, AnnNode::Expr, 1, "x").is_empty());
}
