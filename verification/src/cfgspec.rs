//! The `--cfg` arguments: each one configuration item, written as in an
//! attribute: `name`, `name = "string"` or `name(item, ...)`.

use vstd::prelude::*;
use vstd::string::*;
use crate::text::{is_ws, char_is_ws, chars_of, substring};
use crate::error::{DriverError, ErrorView};
use crate::config::{MetaItem, MetaItemView};
use crate::session::meta_items_view;

verus! {

/// A letter or an underscore: a character that may begin a name.
pub open spec fn is_ident_start(c: char) -> bool {
    ('a' <= c && c <= 'z') || ('A' <= c && c <= 'Z') || c == '_'
}

/// A character that may stand in a name after its first.
pub open spec fn is_ident_char(c: char) -> bool {
    is_ident_start(c) || ('0' <= c && c <= '9')
}

/// The first position from `pos` on that holds no whitespace.
pub open spec fn skip_ws(s: Seq<char>, pos: int) -> int
    decreases s.len() - pos,
{
    if 0 <= pos < s.len() && is_ws(s[pos]) {
        skip_ws(s, pos + 1)
    } else {
        pos
    }
}

/// The first position from `pos` on that holds no name character.
pub open spec fn ident_end(s: Seq<char>, pos: int) -> int
    decreases s.len() - pos,
{
    if 0 <= pos < s.len() && is_ident_char(s[pos]) {
        ident_end(s, pos + 1)
    } else {
        pos
    }
}

/// The character that a backslash and `c` stand for in a string literal:
/// `\n`, `\r`, `\t`, `\\`, `\'`, `\"` and `\0`.
pub open spec fn escaped(c: char) -> Option<char> {
    if c == 'n' {
        Some('\n')
    } else if c == 'r' {
        Some('\r')
    } else if c == 't' {
        Some('\t')
    } else if c == '\\' {
        Some('\\')
    } else if c == '\'' {
        Some('\'')
    } else if c == '"' {
        Some('"')
    } else if c == '0' {
        Some('\0')
    } else {
        None
    }
}

/// The contents of a string literal whose opening quote precedes `pos`, and
/// the position after its closing quote.
pub open spec fn str_body(s: Seq<char>, pos: int) -> Option<(Seq<char>, int)>
    decreases s.len() - pos,
{
    if pos < 0 || pos >= s.len() {
        None
    } else if s[pos] == '"' {
        Some((Seq::empty(), pos + 1))
    } else if s[pos] == '\\' {
        if pos + 1 < s.len() && escaped(s[pos + 1]) is Some {
            match str_body(s, pos + 2) {
                Some((r, e)) => Some((seq![escaped(s[pos + 1])->0] + r, e)),
                None => None,
            }
        } else {
            None
        }
    } else {
        match str_body(s, pos + 1) {
            Some((r, e)) => Some((seq![s[pos]] + r, e)),
            None => None,
        }
    }
}

/// Skipping whitespace never goes back.
pub proof fn lemma_skip_ws(s: Seq<char>, pos: int)
    requires
        0 <= pos <= s.len(),
    ensures
        pos <= skip_ws(s, pos) <= s.len(),
    decreases s.len() - pos,
{
    if pos < s.len() && is_ws(s[pos]) {
        lemma_skip_ws(s, pos + 1);
    }
}

/// Reading a name never goes back.
pub proof fn lemma_ident_end(s: Seq<char>, pos: int)
    requires
        0 <= pos <= s.len(),
    ensures
        pos <= ident_end(s, pos) <= s.len(),
    decreases s.len() - pos,
{
    if pos < s.len() && is_ident_char(s[pos]) {
        lemma_ident_end(s, pos + 1);
    }
}

/// The item that starts at `pos` (after whitespace) and the position after
/// it: a name, then `=` and a string literal, or a parenthesized list, or
/// nothing more.
pub open spec fn parse_item(s: Seq<char>, pos: int) -> Option<(MetaItemView, int)>
    decreases s.len() - pos, 0int,
{
    if pos < 0 || pos > s.len() {
        None
    } else {
        let p = skip_ws(s, pos);
        if !(0 <= p < s.len() && is_ident_start(s[p])) {
            None
        } else {
            let e = ident_end(s, p + 1);
            let name = s.subrange(p, e);
            let q = skip_ws(s, e);
            if 0 <= q < s.len() && s[q] == '=' {
                let r = skip_ws(s, q + 1);
                if 0 <= r < s.len() && s[r] == '"' {
                    match str_body(s, r + 1) {
                        Some((v, t)) => Some((MetaItemView::NameValue(name, v), t)),
                        None => None,
                    }
                } else {
                    None
                }
            } else if 0 <= q < s.len() && s[q] == '(' {
                proof {
                    lemma_skip_ws(s, pos);
                    lemma_ident_end(s, p + 1);
                    lemma_skip_ws(s, e);
                }
                match parse_list(s, q + 1) {
                    Some((items, t)) => Some((MetaItemView::List(name, items), t)),
                    None => None,
                }
            } else {
                Some((MetaItemView::Word(name), e))
            }
        }
    }
}

/// The items of a list whose opening parenthesis precedes `pos`, and the
/// position after its closing parenthesis.
pub open spec fn parse_list(s: Seq<char>, pos: int) -> Option<(Seq<MetaItemView>, int)>
    decreases s.len() - pos, 2int,
{
    let p = skip_ws(s, pos);
    if 0 <= p < s.len() && s[p] == ')' {
        Some((Seq::empty(), p + 1))
    } else {
        parse_items(s, pos)
    }
}

/// One or more items separated by commas, from `pos` on, up to and past the
/// closing parenthesis. (An item always ends after where it starts, so the
/// test against `pos` never fails.)
pub open spec fn parse_items(s: Seq<char>, pos: int) -> Option<(Seq<MetaItemView>, int)>
    decreases s.len() - pos, 1int,
{
    match parse_item(s, pos) {
        None => None,
        Some((it, q)) => if q <= pos || q < 0 || q > s.len() {
            None
        } else {
            proof {
                lemma_skip_ws(s, q);
            }
            let r = skip_ws(s, q);
            if 0 <= r < s.len() && s[r] == ')' {
                Some((seq![it], r + 1))
            } else if 0 <= r < s.len() && s[r] == ',' {
                match parse_items(s, r + 1) {
                    Some((rest, t)) => Some((seq![it] + rest, t)),
                    None => None,
                }
            } else {
                None
            }
        },
    }
}

/// A string literal ends after where its contents start.
pub proof fn lemma_str_body_advances(s: Seq<char>, pos: int)
    ensures
        str_body(s, pos) matches Some((_, e)) ==> pos < e <= s.len(),
    decreases s.len() - pos,
{
    if 0 <= pos < s.len() && s[pos] != '"' {
        if s[pos] == '\\' {
            if pos + 1 < s.len() && escaped(s[pos + 1]) is Some {
                lemma_str_body_advances(s, pos + 2);
            }
        } else {
            lemma_str_body_advances(s, pos + 1);
        }
    }
}

/// An item ends after where it starts, so the test against `pos` in
/// `parse_items` never fails.
pub proof fn lemma_parse_item_advances(s: Seq<char>, pos: int)
    ensures
        parse_item(s, pos) matches Some((_, e)) ==> pos < e <= s.len(),
    decreases s.len() - pos, 0int,
{
    if 0 <= pos <= s.len() {
        let p = skip_ws(s, pos);
        lemma_skip_ws(s, pos);
        if 0 <= p < s.len() && is_ident_start(s[p]) {
            let e = ident_end(s, p + 1);
            lemma_ident_end(s, p + 1);
            let q = skip_ws(s, e);
            lemma_skip_ws(s, e);
            if 0 <= q < s.len() && s[q] == '=' {
                let r = skip_ws(s, q + 1);
                lemma_skip_ws(s, q + 1);
                lemma_str_body_advances(s, r + 1);
            } else if 0 <= q < s.len() && s[q] == '(' {
                lemma_parse_list_advances(s, q + 1);
            }
        }
    }
}

/// A list ends after where its items start.
pub proof fn lemma_parse_list_advances(s: Seq<char>, pos: int)
    requires
        0 <= pos,
    ensures
        parse_list(s, pos) matches Some((_, e)) ==> pos < e <= s.len(),
    decreases s.len() - pos, 2int,
{
    if pos <= s.len() {
        lemma_skip_ws(s, pos);
    }
    lemma_parse_items_advances(s, pos);
}

/// Items of a list end after where they start.
pub proof fn lemma_parse_items_advances(s: Seq<char>, pos: int)
    requires
        0 <= pos,
    ensures
        parse_items(s, pos) matches Some((_, e)) ==> pos < e <= s.len(),
    decreases s.len() - pos, 1int,
{
    lemma_parse_item_advances(s, pos);
    if let Some((it, q)) = parse_item(s, pos) {
        if pos < q <= s.len() {
            lemma_skip_ws(s, q);
            let r = skip_ws(s, q);
            if 0 <= r < s.len() && s[r] == ',' {
                lemma_parse_items_advances(s, r + 1);
            }
        }
    }
}

/// The configuration item that a `--cfg` argument describes: one item, with
/// nothing but whitespace around it.
pub open spec fn spec_parse_cfgspec(s: Seq<char>) -> Option<MetaItemView> {
    match parse_item(s, 0) {
        Some((it, e)) => if skip_ws(s, e) == s.len() {
            Some(it)
        } else {
            None
        },
        None => None,
    }
}

fn skip_ws_at(v: &Vec<char>, pos: usize) -> (r: usize)
    requires
        pos <= v@.len(),
    ensures
        r == skip_ws(v@, pos as int),
        pos <= r <= v@.len(),
{
    let mut i = pos;
    while i < v.len() && char_is_ws(v[i])
        invariant
            pos <= i <= v@.len(),
            skip_ws(v@, pos as int) == skip_ws(v@, i as int),
        decreases v.len() - i,
    {
        i = i + 1;
    }
    i
}

fn ident_end_at(v: &Vec<char>, pos: usize) -> (r: usize)
    requires
        pos <= v@.len(),
    ensures
        r == ident_end(v@, pos as int),
        pos <= r <= v@.len(),
{
    let mut i = pos;
    while i < v.len() && (('a' <= v[i] && v[i] <= 'z') || ('A' <= v[i] && v[i] <= 'Z') || v[i]
        == '_' || ('0' <= v[i] && v[i] <= '9'))
        invariant
            pos <= i <= v@.len(),
            ident_end(v@, pos as int) == ident_end(v@, i as int),
        decreases v.len() - i,
    {
        i = i + 1;
    }
    i
}

fn escaped_str(c: char) -> (r: Option<&'static str>)
    ensures
        match r {
            Some(t) => escaped(c) is Some && t@ == seq![escaped(c)->0],
            None => escaped(c) is None,
        },
{
    proof {
        reveal_strlit("\n");
        reveal_strlit("\r");
        reveal_strlit("\t");
        reveal_strlit("\\");
        reveal_strlit("'");
        reveal_strlit("\"");
        reveal_strlit("\0");
    }
    if c == 'n' {
        Some("\n")
    } else if c == 'r' {
        Some("\r")
    } else if c == 't' {
        Some("\t")
    } else if c == '\\' {
        Some("\\")
    } else if c == '\'' {
        Some("'")
    } else if c == '"' {
        Some("\"")
    } else if c == '0' {
        Some("\0")
    } else {
        None
    }
}

fn str_body_at(v: &Vec<char>, s: &str, pos: usize) -> (r: Option<(String, usize)>)
    requires
        v@ == s@,
        pos <= v@.len(),
    ensures
        match r {
            Some((b, e)) => str_body(v@, pos as int) == Some((b@, e as int)) && e <= v@.len(),
            None => str_body(v@, pos as int) is None,
        },
{
    let mut out = String::new();
    let mut i = pos;
    while i < v.len()
        invariant
            v@ == s@,
            pos <= i <= v@.len(),
            str_body(v@, pos as int) == match str_body(v@, i as int) {
                Some((r, e)) => Some((out@ + r, e)),
                None => None,
            },
        decreases v.len() - i,
    {
        let ghost prev = out@;
        if v[i] == '"' {
            assert(out@ + Seq::<char>::empty() =~= out@);
            return Some((out, i + 1));
        } else if v[i] == '\\' {
            if i + 1 < v.len() {
                match escaped_str(v[i + 1]) {
                    Some(t) => {
                        out.append(t);
                        proof {
                            let ghost x = escaped(v@[i + 1])->0;
                            match str_body(v@, i + 2) {
                                Some((r, e)) => {
                                    assert(prev + (seq![x] + r) =~= out@ + r);
                                },
                                None => {},
                            }
                        }
                        i = i + 2;
                    },
                    None => {
                        return None;
                    },
                }
            } else {
                return None;
            }
        } else {
            out.append(s.substring_char(i, i + 1));
            proof {
                assert(s@.subrange(i as int, i + 1) =~= seq![v@[i as int]]);
                match str_body(v@, i + 1) {
                    Some((r, e)) => {
                        assert(prev + (seq![v@[i as int]] + r) =~= out@ + r);
                    },
                    None => {},
                }
            }
            i = i + 1;
        }
    }
    None
}

fn item_at(v: &Vec<char>, s: &str, pos: usize) -> (r: Option<(MetaItem, usize)>)
    requires
        v@ == s@,
        pos <= v@.len(),
    ensures
        match r {
            Some((m, e)) => parse_item(v@, pos as int) == Some((m@, e as int)) && e <= v@.len(),
            None => parse_item(v@, pos as int) is None,
        },
    decreases v@.len() - pos, 0int,
{
    let p = skip_ws_at(v, pos);
    if !(p < v.len() && (('a' <= v[p] && v[p] <= 'z') || ('A' <= v[p] && v[p] <= 'Z') || v[p]
        == '_')) {
        return None;
    }
    let e = ident_end_at(v, p + 1);
    let name = substring(s, p, e);
    let q = skip_ws_at(v, e);
    if q < v.len() && v[q] == '=' {
        let r = skip_ws_at(v, q + 1);
        if r < v.len() && v[r] == '"' {
            match str_body_at(v, s, r + 1) {
                Some((value, t)) => Some((MetaItem::NameValue(name, value), t)),
                None => None,
            }
        } else {
            None
        }
    } else if q < v.len() && v[q] == '(' {
        match list_at(v, s, q + 1) {
            Some((items, t)) => {
                let m = MetaItem::List(name, items);
                proof {
                    match m@ {
                        MetaItemView::List(_, a) => {
                            assert(a =~= meta_items_view(items@));
                        },
                        _ => {},
                    }
                }
                Some((m, t))
            },
            None => None,
        }
    } else {
        Some((MetaItem::Word(name), e))
    }
}

fn list_at(v: &Vec<char>, s: &str, pos: usize) -> (r: Option<(Vec<MetaItem>, usize)>)
    requires
        v@ == s@,
        pos <= v@.len(),
    ensures
        match r {
            Some((items, e)) => parse_list(v@, pos as int) == Some((meta_items_view(items@), e as int))
                && e <= v@.len(),
            None => parse_list(v@, pos as int) is None,
        },
    decreases v@.len() - pos, 2int,
{
    let p = skip_ws_at(v, pos);
    if p < v.len() && v[p] == ')' {
        let items: Vec<MetaItem> = Vec::new();
        assert(meta_items_view(items@) =~= Seq::<MetaItemView>::empty());
        Some((items, p + 1))
    } else {
        items_at(v, s, pos)
    }
}

fn items_at(v: &Vec<char>, s: &str, pos: usize) -> (r: Option<(Vec<MetaItem>, usize)>)
    requires
        v@ == s@,
        pos <= v@.len(),
    ensures
        match r {
            Some((items, e)) => parse_items(v@, pos as int) == Some(
                (meta_items_view(items@), e as int),
            ) && e <= v@.len(),
            None => parse_items(v@, pos as int) is None,
        },
    decreases v@.len() - pos, 1int,
{
    match item_at(v, s, pos) {
        None => None,
        Some((it, q)) => {
            if q <= pos {
                return None;
            }
            let r = skip_ws_at(v, q);
            if r < v.len() && v[r] == ')' {
                let mut items: Vec<MetaItem> = Vec::new();
                items.push(it);
                assert(meta_items_view(items@) =~= seq![items@[0]@]);
                Some((items, r + 1))
            } else if r < v.len() && v[r] == ',' {
                match items_at(v, s, r + 1) {
                    Some((mut rest, t)) => {
                        let ghost rv = meta_items_view(rest@);
                        let mut items: Vec<MetaItem> = Vec::new();
                        items.push(it);
                        let ghost first = items@[0]@;
                        items.append(&mut rest);
                        assert(meta_items_view(items@) =~= seq![first] + rv);
                        Some((items, t))
                    },
                    None => None,
                }
            } else {
                None
            }
        },
    }
}

/// The configuration item that a `--cfg` argument describes, or `None`
/// where it describes none.
pub fn parse_cfgspec(spec: &str) -> (r: Option<MetaItem>)
    ensures
        match r {
            Some(m) => spec_parse_cfgspec(spec@) == Some(m@),
            None => spec_parse_cfgspec(spec@) is None,
        },
{
    let v = chars_of(spec);
    match item_at(&v, spec, 0) {
        Some((it, e)) => {
            if skip_ws_at(&v, e) == v.len() {
                Some(it)
            } else {
                None
            }
        },
        None => None,
    }
}

/// The configuration items of the `--cfg` arguments, in order, or `None`
/// where some argument describes none.
pub open spec fn spec_parse_cfgspecs(specs: Seq<Seq<char>>) -> Option<Seq<MetaItemView>> {
    if forall|i: int| 0 <= i < specs.len() ==> (#[trigger] spec_parse_cfgspec(specs[i])) is Some {
        Some(Seq::new(specs.len(), |i: int| spec_parse_cfgspec(specs[i])->0))
    } else {
        None
    }
}

/// The first `--cfg` argument that describes no configuration item.
pub open spec fn first_bad_cfgspec(specs: Seq<Seq<char>>) -> Seq<char> {
    specs[choose|i: int|
        0 <= i < specs.len() && spec_parse_cfgspec(specs[i]) is None && forall|j: int|
            0 <= j < i ==> (#[trigger] spec_parse_cfgspec(specs[j])) is Some]
}

/// The configuration items of the `--cfg` arguments, in order; the error
/// names the first argument that describes none.
pub fn parse_cfgspecs(specs: &Vec<String>) -> (r: Result<Vec<MetaItem>, DriverError>)
    ensures
        match r {
            Ok(items) => spec_parse_cfgspecs(specs.deep_view()) == Some(
                meta_items_view(items@),
            ),
            Err(e) => spec_parse_cfgspecs(specs.deep_view()) is None && e@
                == ErrorView::BadCfgSpec(first_bad_cfgspec(specs.deep_view())),
        },
{
    let ghost sv = specs.deep_view();
    let mut items: Vec<MetaItem> = Vec::new();
    let mut i: usize = 0;
    while i < specs.len()
        invariant
            i <= specs.len(),
            sv == specs.deep_view(),
            items@.len() == i,
            forall|j: int| 0 <= j < i ==> (#[trigger] spec_parse_cfgspec(sv[j])) == Some(
                items@[j]@,
            ),
        decreases specs.len() - i,
    {
        match parse_cfgspec(specs[i].as_str()) {
            Some(m) => {
                items.push(m);
            },
            None => {
                let ghost w = i as int;
                assert(spec_parse_cfgspec(sv[w]) is None);
                let ghost c = choose|x: int|
                    0 <= x < sv.len() && spec_parse_cfgspec(sv[x]) is None && forall|j: int|
                        0 <= j < x ==> (#[trigger] spec_parse_cfgspec(sv[j])) is Some;
                assert(c == w) by {
                    if c < w {
                        assert(spec_parse_cfgspec(sv[c]) is Some);
                    } else if c > w {
                        assert(spec_parse_cfgspec(sv[w]) is Some);
                    }
                }
                return Err(DriverError::BadCfgSpec(specs[i].clone()));
            },
        }
        i = i + 1;
    }
    assert(meta_items_view(items@) =~= Seq::new(
        sv.len(),
        |j: int| spec_parse_cfgspec(sv[j])->0,
    ));
    Ok(items)
}

} // verus!
