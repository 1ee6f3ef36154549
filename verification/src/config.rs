//! Crate configuration items: the `--cfg` arguments, the target bindings and
//! the configuration that a session compiles with.

use vstd::prelude::*;
use vstd::string::*;
use crate::text::str_eq;
use crate::session::{meta_items_view, Session, SessionOptionsView, Config, Os, Architecture, IntTy};
use crate::target::spec_target_config;

verus! {

/// A configuration item: a bare word such as `test`, a name bound to a
/// string such as `target_os = "linux"`, or a name with a list of items such
/// as `feature(a, b = "c")`.
#[derive(Debug)]
pub enum MetaItem {
    Word(String),
    NameValue(String, String),
    List(String, Vec<MetaItem>),
}

/// A `MetaItem` with its strings taken as character sequences.
pub enum MetaItemView {
    Word(Seq<char>),
    NameValue(Seq<char>, Seq<char>),
    List(Seq<char>, Seq<MetaItemView>),
}

impl View for MetaItem {
    type V = MetaItemView;

    open spec fn view(&self) -> MetaItemView
        decreases self,
    {
        match self {
            MetaItem::Word(n) => MetaItemView::Word(n@),
            MetaItem::NameValue(n, v) => MetaItemView::NameValue(n@, v@),
            MetaItem::List(n, items) => MetaItemView::List(
                n@,
                Seq::new(
                    items@.len(),
                    |i: int|
                        if 0 <= i < items@.len() {
                            items@[i].view()
                        } else {
                            MetaItemView::Word(Seq::empty())
                        },
                ),
            ),
        }
    }
}

/// The name of a configuration item.
pub open spec fn item_name(m: MetaItemView) -> Seq<char> {
    match m {
        MetaItemView::Word(n) => n,
        MetaItemView::NameValue(n, _) => n,
        MetaItemView::List(n, _) => n,
    }
}

impl MetaItem {
    /// The name of this item.
    pub fn name(&self) -> (r: &String)
        ensures
            r@ == item_name(self@),
    {
        match self {
            MetaItem::Word(n) => n,
            MetaItem::NameValue(n, _) => n,
            MetaItem::List(n, _) => n,
        }
    }

    /// A copy of this item.
    #[verifier::loop_isolation(false)]
    pub fn duplicate(&self) -> (r: MetaItem)
        ensures
            r@ == self@,
        decreases self,
    {
        match self {
            MetaItem::Word(n) => MetaItem::Word(n.clone()),
            MetaItem::NameValue(n, v) => MetaItem::NameValue(n.clone(), v.clone()),
            MetaItem::List(n, items) => {
                let mut copy: Vec<MetaItem> = Vec::new();
                let mut i: usize = 0;
                while i < items.len()
                    invariant
                        i <= items.len(),
                        copy@.len() == i,
                        forall|j: int| 0 <= j < i ==> (#[trigger] copy@[j])@ == items@[j]@,
                    decreases items.len() - i,
                {
                    proof {
                        assert(decreases_to!(self => items));
                        assert(decreases_to!(items => items@));
                        assert(decreases_to!(items@ => items@[i as int]));
                    }
                    copy.push(items[i].duplicate());
                    i = i + 1;
                }
                let r = MetaItem::List(n.clone(), copy);
                assert(r@ =~= self@) by {
                    match (r@, self@) {
                        (MetaItemView::List(_, a), MetaItemView::List(_, b)) => {
                            assert(a =~= b);
                        },
                        _ => {},
                    }
                }
                r
            },
        }
    }
}

/// Whether some item of `cfg` has the given name.
pub open spec fn has_name(cfg: Seq<MetaItemView>, name: Seq<char>) -> bool {
    exists|i: int| 0 <= i < cfg.len() && item_name(cfg[i]) == name
}

/// The number of items of `cfg` with the given name.
pub open spec fn count_named(cfg: Seq<MetaItemView>, name: Seq<char>) -> nat
    decreases cfg.len(),
{
    if cfg.len() == 0 {
        0
    } else {
        count_named(cfg.drop_last(), name) + (if item_name(cfg.last()) == name {
            1nat
        } else {
            0nat
        })
    }
}

/// Whether some item of `cfg` has the given name.
pub fn contains_name(cfg: &Vec<MetaItem>, name: &str) -> (r: bool)
    ensures
        r == has_name(meta_items_view(cfg@), name@),
{
    let mut i: usize = 0;
    while i < cfg.len()
        invariant
            i <= cfg.len(),
            forall|j: int| 0 <= j < i ==> item_name(cfg@[j]@) != name@,
        decreases cfg.len() - i,
    {
        if str_eq(cfg[i].name().as_str(), name) {
            assert(item_name(meta_items_view(cfg@)[i as int]) == name@);
            return true;
        }
        i = i + 1;
    }
    false
}

// ---------------------------------------------------------------------------
// The configuration of a session

/// The name of an operating system in `target_os`.
pub open spec fn os_cfg_name(os: Os) -> Seq<char> {
    match os {
        Os::Win32 => "win32"@,
        Os::Macos => "macos"@,
        Os::Linux => "linux"@,
        Os::Android => "android"@,
        Os::Freebsd => "freebsd"@,
    }
}

/// The family of an operating system: `windows` for Windows, else `unix`.
pub open spec fn os_family(os: Os) -> Seq<char> {
    match os {
        Os::Win32 => "windows"@,
        _ => "unix"@,
    }
}

/// The endianness, name and word size of an architecture.
pub open spec fn arch_cfg(arch: Architecture) -> (Seq<char>, Seq<char>, Seq<char>) {
    match arch {
        Architecture::X86 => ("little"@, "x86"@, "32"@),
        Architecture::X86_64 => ("little"@, "x86_64"@, "64"@),
        Architecture::Arm => ("little"@, "arm"@, "32"@),
        Architecture::Mips => ("big"@, "mips"@, "32"@),
    }
}

/// The target bindings: the family as a word, then `target_os`,
/// `target_family`, `target_arch`, `target_endian` and `target_word_size`.
pub open spec fn spec_default_configuration(c: Config) -> Seq<MetaItemView> {
    let fam = os_family(c.os);
    let (end, arch, wordsz) = arch_cfg(c.arch);
    seq![
        MetaItemView::Word(fam),
        MetaItemView::NameValue("target_os"@, os_cfg_name(c.os)),
        MetaItemView::NameValue("target_family"@, fam),
        MetaItemView::NameValue("target_arch"@, arch),
        MetaItemView::NameValue("target_endian"@, end),
        MetaItemView::NameValue("target_word_size"@, wordsz),
    ]
}

fn name_value(n: &str, v: &str) -> (r: MetaItem)
    ensures
        r@ == MetaItemView::NameValue(n@, v@),
{
    MetaItem::NameValue(String::from_str(n), String::from_str(v))
}

/// The target bindings of the session's target.
pub fn default_configuration(sess: &Session) -> (r: Vec<MetaItem>)
    ensures
        meta_items_view(r@) == spec_default_configuration(sess.targ_cfg),
{
    let tos = match sess.targ_cfg.os {
        Os::Win32 => "win32",
        Os::Macos => "macos",
        Os::Linux => "linux",
        Os::Android => "android",
        Os::Freebsd => "freebsd",
    };
    let (end, arch, wordsz) = match sess.targ_cfg.arch {
        Architecture::X86 => ("little", "x86", "32"),
        Architecture::X86_64 => ("little", "x86_64", "64"),
        Architecture::Arm => ("little", "arm", "32"),
        Architecture::Mips => ("big", "mips", "32"),
    };
    let fam = match sess.targ_cfg.os {
        Os::Win32 => "windows",
        _ => "unix",
    };
    let mut r: Vec<MetaItem> = Vec::new();
    r.push(MetaItem::Word(String::from_str(fam)));
    r.push(name_value("target_os", tos));
    r.push(name_value("target_family", fam));
    r.push(name_value("target_arch", arch));
    r.push(name_value("target_endian", end));
    r.push(name_value("target_word_size", wordsz));
    assert(meta_items_view(r@) =~= spec_default_configuration(sess.targ_cfg));
    r
}

/// `cfg` with a word of the given name added at the end, unless an item of
/// that name is there already.
pub open spec fn spec_append_configuration(cfg: Seq<MetaItemView>, name: Seq<char>) -> Seq<
    MetaItemView,
> {
    if has_name(cfg, name) {
        cfg
    } else {
        cfg.push(MetaItemView::Word(name))
    }
}

/// Adds a word of the given name at the end of `cfg`, unless an item of that
/// name is there already.
pub fn append_configuration(cfg: &mut Vec<MetaItem>, name: &str)
    ensures
        meta_items_view(final(cfg)@) == spec_append_configuration(meta_items_view(old(cfg)@), name@),
{
    if !contains_name(cfg, name) {
        let ghost prev = meta_items_view(cfg@);
        cfg.push(MetaItem::Word(String::from_str(name)));
        assert(meta_items_view(cfg@) =~= prev.push(MetaItemView::Word(name@)));
    }
}

/// The configuration a session compiles with: the `--cfg` items, then `test`
/// under `--test` and `gc` or `nogc`, each unless already there, then the
/// target bindings.
pub open spec fn spec_build_configuration(opts: SessionOptionsView, c: Config) -> Seq<MetaItemView> {
    let with_test = if opts.test {
        spec_append_configuration(opts.cfg, "test"@)
    } else {
        opts.cfg
    };
    let with_gc = spec_append_configuration(
        with_test,
        if opts.gc {
            "gc"@
        } else {
            "nogc"@
        },
    );
    with_gc + spec_default_configuration(c)
}

/// The configuration a session compiles with.
pub fn build_configuration(sess: &Session) -> (r: Vec<MetaItem>)
    ensures
        meta_items_view(r@) == spec_build_configuration(sess.opts@, sess.targ_cfg),
{
    let default_cfg = default_configuration(sess);
    let mut user_cfg: Vec<MetaItem> = Vec::new();
    let mut i: usize = 0;
    while i < sess.opts.cfg.len()
        invariant
            i <= sess.opts.cfg.len(),
            meta_items_view(user_cfg@) == meta_items_view(sess.opts.cfg@).take(i as int),
        decreases sess.opts.cfg.len() - i,
    {
        let ghost prev = meta_items_view(user_cfg@);
        let item = sess.opts.cfg[i].duplicate();
        user_cfg.push(item);
        assert(meta_items_view(user_cfg@) =~= prev.push(sess.opts.cfg@[i as int]@));
        i = i + 1;
        assert(meta_items_view(user_cfg@) =~= meta_items_view(sess.opts.cfg@).take(i as int));
    }
    assert(meta_items_view(sess.opts.cfg@).take(i as int) =~= meta_items_view(sess.opts.cfg@));
    if sess.opts.test {
        append_configuration(&mut user_cfg, "test");
    }
    append_configuration(&mut user_cfg, if sess.opts.gc {
        "gc"
    } else {
        "nogc"
    });
    let ghost before = meta_items_view(user_cfg@);
    let mut j: usize = 0;
    while j < default_cfg.len()
        invariant
            j <= default_cfg.len(),
            meta_items_view(user_cfg@) == before + meta_items_view(default_cfg@).take(j as int),
        decreases default_cfg.len() - j,
    {
        let ghost prev = meta_items_view(user_cfg@);
        let item = default_cfg[j].duplicate();
        user_cfg.push(item);
        assert(meta_items_view(user_cfg@) =~= prev.push(default_cfg@[j as int]@));
        j = j + 1;
        assert(meta_items_view(user_cfg@) =~= before + meta_items_view(default_cfg@).take(
            j as int,
        ));
    }
    assert(meta_items_view(default_cfg@).take(j as int) =~= meta_items_view(default_cfg@));
    user_cfg
}

// ---------------------------------------------------------------------------
// Laws of the configuration

/// Some item has a name exactly where the items of that name are counted
/// above zero.
pub proof fn lemma_has_name_count(cfg: Seq<MetaItemView>, name: Seq<char>)
    ensures
        has_name(cfg, name) <==> count_named(cfg, name) > 0,
    decreases cfg.len(),
{
    if cfg.len() > 0 {
        let p = cfg.drop_last();
        lemma_has_name_count(p, name);
        if has_name(p, name) {
            let k = choose|k: int| 0 <= k < p.len() && item_name(p[k]) == name;
            assert(item_name(cfg[k]) == name);
        }
        if has_name(cfg, name) && item_name(cfg.last()) != name {
            let k = choose|k: int| 0 <= k < cfg.len() && item_name(cfg[k]) == name;
            assert(k < cfg.len() - 1);
            assert(item_name(p[k]) == name);
        }
        if item_name(cfg.last()) == name {
            assert(item_name(cfg[cfg.len() - 1]) == name);
        }
    }
}

/// The items of a name in two sequences, one after the other, are those of
/// each.
pub proof fn lemma_count_named_concat(a: Seq<MetaItemView>, b: Seq<MetaItemView>, name: Seq<char>)
    ensures
        count_named(a + b, name) == count_named(a, name) + count_named(b, name),
    decreases b.len(),
{
    if b.len() == 0 {
        assert(a + b =~= a);
    } else {
        lemma_count_named_concat(a, b.drop_last(), name);
        assert((a + b).drop_last() =~= a + b.drop_last());
    }
}

/// Appending a configuration item adds one item of its name where there was
/// none, and leaves the count of every other name alone; an item of the
/// name is there afterwards.
pub proof fn lemma_append_configuration(cfg: Seq<MetaItemView>, name: Seq<char>, other: Seq<char>)
    ensures
        has_name(spec_append_configuration(cfg, name), name),
        count_named(spec_append_configuration(cfg, name), other) == count_named(cfg, other) + (
        if other == name && count_named(cfg, name) == 0 {
            1nat
        } else {
            0nat
        }),
{
    lemma_has_name_count(cfg, name);
    let r = spec_append_configuration(cfg, name);
    if !has_name(cfg, name) {
        assert(r.drop_last() =~= cfg);
        assert(item_name(r[r.len() - 1]) == name);
    }
}

/// No item of a sequence has the name: none is counted.
proof fn lemma_count_named_none(cfg: Seq<MetaItemView>, name: Seq<char>)
    requires
        forall|i: int| 0 <= i < cfg.len() ==> item_name(cfg[i]) != name,
    ensures
        count_named(cfg, name) == 0,
    decreases cfg.len(),
{
    if cfg.len() > 0 {
        assert(item_name(cfg[cfg.len() - 1]) != name);
        lemma_count_named_none(cfg.drop_last(), name);
    }
}

/// The distinct lengths or first letters of the names that the
/// configuration laws tell apart.
proof fn lemma_cfg_name_facts()
    ensures
        "test"@.len() == 4 && "test"@[0] == 't',
        "gc"@.len() == 2,
        "nogc"@.len() == 4 && "nogc"@[0] == 'n',
        "windows"@.len() == 7,
        "unix"@.len() == 4 && "unix"@[0] == 'u',
        "target_os"@.len() == 9,
        "target_family"@.len() == 13,
        "target_arch"@.len() == 11,
        "target_endian"@.len() == 13,
        "target_word_size"@.len() == 16,
{
    reveal_strlit("test");
    reveal_strlit("gc");
    reveal_strlit("nogc");
    reveal_strlit("windows");
    reveal_strlit("unix");
    reveal_strlit("target_os");
    reveal_strlit("target_family");
    reveal_strlit("target_arch");
    reveal_strlit("target_endian");
    reveal_strlit("target_word_size");
}

/// The target bindings hold no item named `test`, `gc` or `nogc`.
proof fn lemma_default_configuration_names(c: Config)
    ensures
        count_named(spec_default_configuration(c), "test"@) == 0,
        count_named(spec_default_configuration(c), "gc"@) == 0,
        count_named(spec_default_configuration(c), "nogc"@) == 0,
{
    lemma_cfg_name_facts();
    let d = spec_default_configuration(c);
    assert(item_name(d[0]) == os_family(c.os));
    assert(item_name(d[1]) == "target_os"@);
    assert(item_name(d[2]) == "target_family"@);
    assert(item_name(d[3]) == "target_arch"@);
    assert(item_name(d[4]) == "target_endian"@);
    assert(item_name(d[5]) == "target_word_size"@);
    lemma_count_named_none(d, "test"@);
    lemma_count_named_none(d, "gc"@);
    lemma_count_named_none(d, "nogc"@);
}

/// `--test` puts a `test` item in the configuration, and never a second one:
/// the configuration holds as many `test` items as the `--cfg` arguments
/// gave, and one where they gave none and `--test` was given.
pub proof fn lemma_test_implies_cfg_test(opts: SessionOptionsView, c: Config)
    ensures
        count_named(spec_build_configuration(opts, c), "test"@) == if opts.test && count_named(
            opts.cfg,
            "test"@,
        ) == 0 {
            1
        } else {
            count_named(opts.cfg, "test"@)
        },
        opts.test ==> has_name(spec_build_configuration(opts, c), "test"@),
{
    lemma_cfg_name_facts();
    let with_test = if opts.test {
        spec_append_configuration(opts.cfg, "test"@)
    } else {
        opts.cfg
    };
    let gc_name = if opts.gc {
        "gc"@
    } else {
        "nogc"@
    };
    if opts.test {
        lemma_append_configuration(opts.cfg, "test"@, "test"@);
    }
    lemma_append_configuration(with_test, gc_name, "test"@);
    assert(gc_name != "test"@);
    let with_gc = spec_append_configuration(with_test, gc_name);
    lemma_count_named_concat(with_gc, spec_default_configuration(c), "test"@);
    lemma_default_configuration_names(c);
    lemma_has_name_count(spec_build_configuration(opts, c), "test"@);
}

/// The configuration holds `gc` where garbage collection was asked for, and
/// `nogc` where it was not.
pub proof fn lemma_gc_cfg(opts: SessionOptionsView, c: Config)
    ensures
        has_name(spec_build_configuration(opts, c), if opts.gc {
            "gc"@
        } else {
            "nogc"@
        }),
{
    let with_test = if opts.test {
        spec_append_configuration(opts.cfg, "test"@)
    } else {
        opts.cfg
    };
    let gc_name = if opts.gc {
        "gc"@
    } else {
        "nogc"@
    };
    lemma_append_configuration(with_test, gc_name, gc_name);
    let with_gc = spec_append_configuration(with_test, gc_name);
    let k = choose|k: int| 0 <= k < with_gc.len() && item_name(with_gc[k]) == gc_name;
    let all = spec_build_configuration(opts, c);
    assert(all[k] == with_gc[k]);
}

/// The last binding of a session's configuration is `target_word_size`:
/// `64` exactly on an x86_64 target and `32` on every other (x86, arm,
/// mips), agreeing with the width of the target's `int` type.
pub proof fn lemma_word_size_follows_target(opts: SessionOptionsView, triple: Seq<char>)
    requires
        spec_target_config(triple) is Ok,
    ensures
        spec_build_configuration(opts, spec_target_config(triple)->Ok_0).last()
            == MetaItemView::NameValue(
            "target_word_size"@,
            if spec_target_config(triple)->Ok_0.arch == Architecture::X86_64 {
                "64"@
            } else {
                "32"@
            },
        ),
        (spec_build_configuration(opts, spec_target_config(triple)->Ok_0).last()
            == MetaItemView::NameValue("target_word_size"@, "64"@)) == (spec_target_config(
            triple,
        )->Ok_0.int_type == IntTy::TyI64),
{
    reveal_strlit("64");
    reveal_strlit("32");
    let c = spec_target_config(triple)->Ok_0;
    let cfg = spec_build_configuration(opts, c);
    let d = spec_default_configuration(c);
    assert(cfg.last() == d.last());
    assert("64"@ != "32"@) by {
        assert("64"@[0] != "32"@[0]);
    }
}

} // verus!
