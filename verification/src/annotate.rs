//! What the pretty-printer's annotations add around the nodes of a crate:
//! parentheses around expressions, and comments with node ids or types.

use vstd::prelude::*;
use vstd::string::*;
use crate::driver::Annotation;

verus! {

/// The kind of node that the printer is at.
#[derive(Clone, Copy, PartialEq, Eq, Structural, Debug)]
pub enum AnnNode {
    Item,
    Block,
    Expr,
    Pat,
}

/// One step that an annotation asks of the printer.
#[derive(Debug)]
pub enum PrintStep {
    /// Open a parenthesis.
    Popen,
    /// Close a parenthesis.
    Pclose,
    /// A breakable space.
    Space,
    /// A word of text.
    Word(String),
    /// A synthesized comment.
    Comment(String),
}

/// A `PrintStep` with its text taken as a character sequence.
pub enum PrintStepView {
    Popen,
    Pclose,
    Space,
    Word(Seq<char>),
    Comment(Seq<char>),
}

impl View for PrintStep {
    type V = PrintStepView;

    open spec fn view(&self) -> PrintStepView {
        match self {
            PrintStep::Popen => PrintStepView::Popen,
            PrintStep::Pclose => PrintStepView::Pclose,
            PrintStep::Space => PrintStepView::Space,
            PrintStep::Word(w) => PrintStepView::Word(w@),
            PrintStep::Comment(c) => PrintStepView::Comment(c@),
        }
    }
}

/// The steps taken by their views.
pub open spec fn steps_view(s: Seq<PrintStep>) -> Seq<PrintStepView> {
    Seq::new(s.len(), |i: int| s[i]@)
}

/// The decimal digit for a number below ten.
pub open spec fn digit_char(d: nat) -> char {
    if d == 0 {
        '0'
    } else if d == 1 {
        '1'
    } else if d == 2 {
        '2'
    } else if d == 3 {
        '3'
    } else if d == 4 {
        '4'
    } else if d == 5 {
        '5'
    } else if d == 6 {
        '6'
    } else if d == 7 {
        '7'
    } else if d == 8 {
        '8'
    } else {
        '9'
    }
}

/// The decimal digits of a number, most significant first, without leading
/// zeros.
pub open spec fn decimal(n: nat) -> Seq<char>
    decreases n,
{
    if n < 10 {
        seq![digit_char(n)]
    } else {
        decimal(n / 10) + seq![digit_char(n % 10)]
    }
}

fn digit_str(d: u64) -> (r: &'static str)
    requires
        d < 10,
    ensures
        r@ == seq![digit_char(d as nat)],
{
    proof {
        reveal_strlit("0");
        reveal_strlit("1");
        reveal_strlit("2");
        reveal_strlit("3");
        reveal_strlit("4");
        reveal_strlit("5");
        reveal_strlit("6");
        reveal_strlit("7");
        reveal_strlit("8");
        reveal_strlit("9");
    }
    match d {
        0 => "0",
        1 => "1",
        2 => "2",
        3 => "3",
        4 => "4",
        5 => "5",
        6 => "6",
        7 => "7",
        8 => "8",
        _ => "9",
    }
}

/// The decimal digits of a number.
pub fn decimal_string(n: u64) -> (r: String)
    ensures
        r@ == decimal(n as nat),
    decreases n,
{
    if n < 10 {
        String::from_str(digit_str(n))
    } else {
        let mut r = decimal_string(n / 10);
        r.append(digit_str(n % 10));
        r
    }
}

/// The steps that an annotation takes before a node: an expression is
/// parenthesized under the identifying and the typing annotations.
pub open spec fn spec_annotation_pre(ann: Annotation, node: AnnNode) -> Seq<PrintStepView> {
    if ann != Annotation::NoAnn && node == AnnNode::Expr {
        seq![PrintStepView::Popen]
    } else {
        Seq::empty()
    }
}

/// The steps that an annotation takes after a node with the given id whose
/// type (for an expression) prints as `ty`. The identifying annotation adds
/// a space and a comment with the id (`block ` or `pat ` before it for a
/// block or a pattern) and closes an expression's parenthesis; the typing
/// annotation adds ` as ` and the type to an expression and closes its
/// parenthesis.
pub open spec fn spec_annotation_post(ann: Annotation, node: AnnNode, id: nat, ty: Seq<char>) -> Seq<
    PrintStepView,
> {
    match ann {
        Annotation::NoAnn => Seq::empty(),
        Annotation::Identified => match node {
            AnnNode::Item => seq![PrintStepView::Space, PrintStepView::Comment(decimal(id))],
            AnnNode::Block => seq![
                PrintStepView::Space,
                PrintStepView::Comment("block "@ + decimal(id)),
            ],
            AnnNode::Expr => seq![
                PrintStepView::Space,
                PrintStepView::Comment(decimal(id)),
                PrintStepView::Pclose,
            ],
            AnnNode::Pat => seq![
                PrintStepView::Space,
                PrintStepView::Comment("pat "@ + decimal(id)),
            ],
        },
        Annotation::Typed => match node {
            AnnNode::Expr => seq![
                PrintStepView::Space,
                PrintStepView::Word("as"@),
                PrintStepView::Space,
                PrintStepView::Word(ty),
                PrintStepView::Pclose,
            ],
            _ => Seq::empty(),
        },
    }
}

/// The steps that an annotation takes before a node.
pub fn annotation_pre(ann: Annotation, node: AnnNode) -> (r: Vec<PrintStep>)
    ensures
        steps_view(r@) == spec_annotation_pre(ann, node),
{
    let mut r: Vec<PrintStep> = Vec::new();
    if ann != Annotation::NoAnn && node == AnnNode::Expr {
        r.push(PrintStep::Popen);
        assert(steps_view(r@) =~= seq![PrintStepView::Popen]);
    } else {
        assert(steps_view(r@) =~= Seq::<PrintStepView>::empty());
    }
    r
}

/// The steps that an annotation takes after a node with the given id; `ty`
/// is how the type of an expression prints.
pub fn annotation_post(ann: Annotation, node: AnnNode, id: u64, ty: &str) -> (r: Vec<PrintStep>)
    ensures
        steps_view(r@) == spec_annotation_post(ann, node, id as nat, ty@),
{
    let mut r: Vec<PrintStep> = Vec::new();
    match ann {
        Annotation::NoAnn => {},
        Annotation::Identified => {
            r.push(PrintStep::Space);
            let digits = decimal_string(id);
            match node {
                AnnNode::Item => r.push(PrintStep::Comment(digits)),
                AnnNode::Block => {
                    let mut c = String::from_str("block ");
                    c.append(digits.as_str());
                    r.push(PrintStep::Comment(c));
                },
                AnnNode::Expr => {
                    r.push(PrintStep::Comment(digits));
                    r.push(PrintStep::Pclose);
                },
                AnnNode::Pat => {
                    let mut c = String::from_str("pat ");
                    c.append(digits.as_str());
                    r.push(PrintStep::Comment(c));
                },
            }
        },
        Annotation::Typed => {
            if node == AnnNode::Expr {
                r.push(PrintStep::Space);
                r.push(PrintStep::Word(String::from_str("as")));
                r.push(PrintStep::Space);
                r.push(PrintStep::Word(String::from_str(ty)));
                r.push(PrintStep::Pclose);
            }
        },
    }
    assert(steps_view(r@) =~= spec_annotation_post(ann, node, id as nat, ty@));
    r
}

} // verus!
