//! Codegen options: the `-C name[=value]` arguments applied in turn to the
//! default options.

use vstd::prelude::*;
use vstd::string::*;
use crate::text::{str_eq, index_of, lemma_index_of_found, find_char, substring, underscored, underscored_str, words, words_str};
use crate::error::{DriverError, ErrorView};
use crate::session::{CodegenOptions, CodegenView, default_codegen, basic_codegen_options};

verus! {

/// The names of the codegen options, as looked up (with `_` for `-`).
pub open spec fn cg_names() -> Seq<Seq<char>> {
    seq![
        "ar"@,
        "linker"@,
        "link_args"@,
        "target_cpu"@,
        "target_feature"@,
        "passes"@,
        "llvm_args"@,
        "save_temps"@,
        "android_cross_path"@,
        "no_rpath"@,
        "no_prepopulate_passes"@,
        "no_vectorize_loops"@,
        "no_vectorize_slp"@,
        "soft_float"@,
        "gen_crate_map"@,
        "prefer_dynamic"@,
        "no_integrated_as"@,
        "relocation_model"@,
    ]
}

/// The number of codegen options.
pub const NUM_CG_OPTIONS: usize = 18;

/// The position, from `i` on, of the codegen option with the given name.
pub open spec fn cg_lookup(name: Seq<char>, i: int) -> Option<int>
    decreases NUM_CG_OPTIONS - i,
{
    if i < 0 || i >= NUM_CG_OPTIONS {
        None
    } else if cg_names()[i] == name {
        Some(i)
    } else {
        cg_lookup(name, i + 1)
    }
}

fn cg_name(i: usize) -> (r: &'static str)
    requires
        i < NUM_CG_OPTIONS,
    ensures
        r@ == cg_names()[i as int],
{
    match i {
        0 => "ar",
        1 => "linker",
        2 => "link_args",
        3 => "target_cpu",
        4 => "target_feature",
        5 => "passes",
        6 => "llvm_args",
        7 => "save_temps",
        8 => "android_cross_path",
        9 => "no_rpath",
        10 => "no_prepopulate_passes",
        11 => "no_vectorize_loops",
        12 => "no_vectorize_slp",
        13 => "soft_float",
        14 => "gen_crate_map",
        15 => "prefer_dynamic",
        16 => "no_integrated_as",
        _ => "relocation_model",
    }
}

fn cg_index(name: &str) -> (r: Option<usize>)
    ensures
        match r {
            Some(i) => cg_lookup(name@, 0) == Some(i as int) && i < NUM_CG_OPTIONS,
            None => cg_lookup(name@, 0) is None,
        },
{
    let mut i: usize = 0;
    while i < NUM_CG_OPTIONS
        invariant
            i <= NUM_CG_OPTIONS,
            cg_lookup(name@, 0) == cg_lookup(name@, i as int),
        decreases NUM_CG_OPTIONS - i,
    {
        if str_eq(cg_name(i), name) {
            return Some(i);
        }
        i = i + 1;
    }
    None
}

/// The key of a `-C` argument (before the first `=`) and its value (after
/// it), if it has one.
pub open spec fn split_key_value(s: Seq<char>) -> (Seq<char>, Option<Seq<char>>) {
    match index_of(s, '=') {
        Some(k) => (s.take(k), Some(s.skip(k + 1))),
        None => (s, None),
    }
}

/// The codegen options after setting option `i` to `value`, or `None` where
/// the option refuses the value: a flag refuses any value, the others refuse
/// its absence. A list option gains the words of the value.
pub open spec fn set_cg(cg: CodegenView, i: int, value: Option<Seq<char>>) -> Option<CodegenView> {
    if i == 7 || (9 <= i && i <= 16) {
        match value {
            Some(_) => None,
            None => Some(
                if i == 7 {
                    CodegenView { save_temps: true, ..cg }
                } else if i == 9 {
                    CodegenView { no_rpath: true, ..cg }
                } else if i == 10 {
                    CodegenView { no_prepopulate_passes: true, ..cg }
                } else if i == 11 {
                    CodegenView { no_vectorize_loops: true, ..cg }
                } else if i == 12 {
                    CodegenView { no_vectorize_slp: true, ..cg }
                } else if i == 13 {
                    CodegenView { soft_float: true, ..cg }
                } else if i == 14 {
                    CodegenView { gen_crate_map: true, ..cg }
                } else if i == 15 {
                    CodegenView { prefer_dynamic: true, ..cg }
                } else {
                    CodegenView { no_integrated_as: true, ..cg }
                },
            ),
        }
    } else {
        match value {
            None => None,
            Some(v) => Some(
                if i == 0 {
                    CodegenView { ar: Some(v), ..cg }
                } else if i == 1 {
                    CodegenView { linker: Some(v), ..cg }
                } else if i == 2 {
                    CodegenView { link_args: cg.link_args + words(v), ..cg }
                } else if i == 3 {
                    CodegenView { target_cpu: v, ..cg }
                } else if i == 4 {
                    CodegenView { target_feature: v, ..cg }
                } else if i == 5 {
                    CodegenView { passes: cg.passes + words(v), ..cg }
                } else if i == 6 {
                    CodegenView { llvm_args: cg.llvm_args + words(v), ..cg }
                } else if i == 8 {
                    CodegenView { android_cross_path: Some(v), ..cg }
                } else {
                    CodegenView { relocation_model: v, ..cg }
                },
            ),
        }
    }
}

/// The codegen options after one `-C` argument.
pub open spec fn apply_cg(cg: CodegenView, arg: Seq<char>) -> Result<CodegenView, ErrorView> {
    let (key, value) = split_key_value(arg);
    match cg_lookup(underscored(key), 0) {
        None => Err(ErrorView::UnknownCodegenOption(key)),
        Some(i) => match set_cg(cg, i, value) {
            Some(c) => Ok(c),
            None => match value {
                Some(_) => Err(ErrorView::CodegenOptionTakesNoValue(key)),
                None => Err(ErrorView::CodegenOptionRequiresValue(key)),
            },
        },
    }
}

/// The codegen options after the `-C` arguments in order; the first one
/// refused gives the error.
pub open spec fn spec_codegen(args: Seq<Seq<char>>) -> Result<CodegenView, ErrorView>
    decreases args.len(),
{
    if args.len() == 0 {
        Ok(default_codegen())
    } else {
        match spec_codegen(args.drop_last()) {
            Err(e) => Err(e),
            Ok(cg) => apply_cg(cg, args.last()),
        }
    }
}

proof fn lemma_codegen_error_stays(args: Seq<Seq<char>>, k: int)
    requires
        0 <= k <= args.len(),
        spec_codegen(args.take(k)) is Err,
    ensures
        spec_codegen(args) == spec_codegen(args.take(k)),
    decreases args.len() - k,
{
    if k < args.len() {
        assert(args.drop_last().take(k) =~= args.take(k));
        lemma_codegen_error_stays(args.drop_last(), k);
    } else {
        assert(args.take(k) =~= args);
    }
}

fn extend_words(v: &mut Vec<String>, text: &str)
    ensures
        final(v).deep_view() == old(v).deep_view() + words(text@),
{
    let w = words_str(text);
    let ghost start = v.deep_view();
    let mut j: usize = 0;
    while j < w.len()
        invariant
            j <= w.len(),
            v.deep_view() == start + w.deep_view().take(j as int),
        decreases w.len() - j,
    {
        let ghost prev = v.deep_view();
        v.push(w[j].clone());
        j = j + 1;
        assert(v.deep_view() =~= prev.push(w.deep_view()[j - 1]));
        assert(start + w.deep_view().take(j as int) =~= (start + w.deep_view().take(j - 1)).push(
            w.deep_view()[j - 1],
        ));
    }
    assert(w.deep_view().take(j as int) =~= w.deep_view());
}

fn set_codegen_option(cg: &mut CodegenOptions, i: usize, value: Option<&str>) -> (ok: bool)
    requires
        i < NUM_CG_OPTIONS,
    ensures
        match set_cg(
            old(cg)@,
            i as int,
            match value {
                Some(v) => Some(v@),
                None => None,
            },
        ) {
            Some(c) => ok && final(cg)@ == c,
            None => !ok,
        },
{
    if i == 7 || (9 <= i && i <= 16) {
        if value.is_some() {
            return false;
        }
        match i {
            7 => cg.save_temps = true,
            9 => cg.no_rpath = true,
            10 => cg.no_prepopulate_passes = true,
            11 => cg.no_vectorize_loops = true,
            12 => cg.no_vectorize_slp = true,
            13 => cg.soft_float = true,
            14 => cg.gen_crate_map = true,
            15 => cg.prefer_dynamic = true,
            _ => cg.no_integrated_as = true,
        }
        true
    } else {
        let v = match value {
            Some(v) => v,
            None => {
                return false;
            },
        };
        match i {
            0 => cg.ar = Some(String::from_str(v)),
            1 => cg.linker = Some(String::from_str(v)),
            2 => extend_words(&mut cg.link_args, v),
            3 => cg.target_cpu = String::from_str(v),
            4 => cg.target_feature = String::from_str(v),
            5 => extend_words(&mut cg.passes, v),
            6 => extend_words(&mut cg.llvm_args, v),
            8 => cg.android_cross_path = Some(String::from_str(v)),
            _ => cg.relocation_model = String::from_str(v),
        }
        true
    }
}

/// The codegen options after the `-C` arguments, applied in order to the
/// defaults. Each argument is a name, optionally followed by `=` and a value;
/// `-` and `_` are alike in the name. A flag takes no value; any other option
/// needs one, and a list option adds the value's words.
pub fn codegen_options_from(args: &Vec<String>) -> (r: Result<CodegenOptions, DriverError>)
    ensures
        match r {
            Ok(cg) => spec_codegen(args.deep_view()) == Ok::<CodegenView, ErrorView>(cg@),
            Err(e) => spec_codegen(args.deep_view()) == Err::<CodegenView, ErrorView>(e@),
        },
{
    let ghost av = args.deep_view();
    let mut cg = basic_codegen_options();
    let mut i: usize = 0;
    assert(av.take(0) =~= Seq::<Seq<char>>::empty());
    while i < args.len()
        invariant
            i <= args.len(),
            av == args.deep_view(),
            spec_codegen(av.take(i as int)) == Ok::<CodegenView, ErrorView>(cg@),
        decreases args.len() - i,
    {
        let arg = args[i].as_str();
        let n = arg.unicode_len();
        let ghost t = av.take(i + 1);
        assert(t.drop_last() =~= av.take(i as int));
        assert(t.last() == arg@);
        let (key, value): (String, Option<&str>) = match find_char(arg, '=') {
            Some(k) => {
                proof {
                    lemma_index_of_found(arg@, '=');
                }
                (substring(arg, 0, k), Some(arg.substring_char(k + 1, n)))
            },
            None => (String::from_str(arg), None),
        };
        assert(key@ =~= split_key_value(arg@).0);
        assert(match value {
            Some(v) => Some(v@),
            None => None,
        } =~= split_key_value(arg@).1);
        let lookup = underscored_str(key.as_str());
        match cg_index(lookup.as_str()) {
            None => {
                proof {
                    lemma_codegen_error_stays(av, i + 1);
                }
                return Err(DriverError::UnknownCodegenOption(key));
            },
            Some(idx) => {
                if !set_codegen_option(&mut cg, idx, value) {
                    proof {
                        lemma_codegen_error_stays(av, i + 1);
                    }
                    if value.is_some() {
                        return Err(DriverError::CodegenOptionTakesNoValue(key));
                    } else {
                        return Err(DriverError::CodegenOptionRequiresValue(key));
                    }
                }
            },
        }
        i = i + 1;
    }
    assert(av.take(args.len() as int) =~= av);
    Ok(cg)
}

} // verus!
