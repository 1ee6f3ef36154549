//! Paths as strings, `/`-separated: joining, the directory part, the file
//! stem and the extension.

use vstd::prelude::*;
use vstd::string::*;
use crate::text::{join_strings, seq_join, split_on, split_str, str_eq, substring};
use crate::session::opt_str_view;

verus! {

/// The last position of `c` in `s`.
pub open spec fn last_index_of(s: Seq<char>, c: char) -> Option<int>
    decreases s.len(),
{
    if s.len() == 0 {
        None
    } else if s.last() == c {
        Some(s.len() - 1)
    } else {
        last_index_of(s.drop_last(), c)
    }
}

/// The last position of `c` in `s`, if any.
pub fn rfind_char(s: &str, c: char) -> (r: Option<usize>)
    ensures
        match r {
            Some(i) => last_index_of(s@, c) == Some(i as int) && i < s@.len(),
            None => last_index_of(s@, c) is None,
        },
{
    let n = s.unicode_len();
    let mut i: usize = n;
    assert(s@.take(n as int) =~= s@);
    while i > 0
        invariant
            n == s@.len(),
            i <= n,
            last_index_of(s@, c) == last_index_of(s@.take(i as int), c),
        decreases i,
    {
        assert(s@.take(i as int).drop_last() =~= s@.take(i - 1));
        if s.get_char(i - 1) == c {
            return Some(i - 1);
        }
        i = i - 1;
    }
    None
}

/// Whether a path starts at the root.
pub open spec fn is_absolute(p: Seq<char>) -> bool {
    p.len() > 0 && p[0] == '/'
}

/// The components of a path with `.` and empty ones left out, each `..`
/// taking back the component before it where that one is not `..`; a `..`
/// at the root of an absolute path is dropped.
pub open spec fn norm_components(comps: Seq<Seq<char>>, abs: bool) -> Seq<Seq<char>>
    decreases comps.len(),
{
    if comps.len() == 0 {
        Seq::empty()
    } else {
        let st = norm_components(comps.drop_last(), abs);
        let c = comps.last();
        if c.len() == 0 || c == "."@ {
            st
        } else if c == ".."@ {
            if st.len() > 0 && st.last() != ".."@ {
                st.drop_last()
            } else if abs {
                st
            } else {
                st.push(c)
            }
        } else {
            st.push(c)
        }
    }
}

/// The normal form of a path: its normalized components joined by `/`,
/// behind a `/` where the path is absolute; `.` for a relative path with no
/// component left.
pub open spec fn normalize(p: Seq<char>) -> Seq<char> {
    let st = norm_components(split_on(p, '/'), is_absolute(p));
    if is_absolute(p) {
        "/"@ + seq_join(st, "/"@)
    } else if st.len() == 0 {
        "."@
    } else {
        seq_join(st, "/"@)
    }
}

/// Each path of a list in its normal form.
pub open spec fn normalize_all(ps: Seq<Seq<char>>) -> Seq<Seq<char>> {
    ps.map_values(|p: Seq<char>| normalize(p))
}

/// A path, if there is one, in its normal form.
pub open spec fn normalize_opt(p: Option<Seq<char>>) -> Option<Seq<char>> {
    match p {
        Some(q) => Some(normalize(q)),
        None => None,
    }
}

/// `rel` taken relative to `base`: `base` where `rel` is empty, the normal
/// form of `rel` where it is absolute, else the normal form of `base`, a
/// separator and `rel`.
pub open spec fn join(base: Seq<char>, rel: Seq<char>) -> Seq<char> {
    if rel.len() == 0 {
        base
    } else if is_absolute(rel) {
        normalize(rel)
    } else {
        normalize(base + "/"@ + rel)
    }
}

/// The last component of a path: what follows its last separator.
pub open spec fn file_name(p: Seq<char>) -> Seq<char> {
    match last_index_of(p, '/') {
        Some(k) => p.skip(k + 1),
        None => p,
    }
}

/// The path up to and including its last separator.
pub open spec fn dir_prefix(p: Seq<char>) -> Seq<char> {
    match last_index_of(p, '/') {
        Some(k) => p.take(k + 1),
        None => Seq::empty(),
    }
}

/// The directory of a path: `.` where it has no separator, `/` where its
/// only separator leads, else what precedes its last separator.
pub open spec fn dir_path(p: Seq<char>) -> Seq<char> {
    match last_index_of(p, '/') {
        None => "."@,
        Some(k) => if k == 0 {
            "/"@
        } else {
            p.take(k)
        },
    }
}

/// The file stem of a path: its last component up to the last dot, where
/// that dot is not the first character; `None` where the last component is
/// empty, `.` or `..`.
pub open spec fn filestem(p: Seq<char>) -> Option<Seq<char>> {
    let name = file_name(p);
    if name.len() == 0 || name == "."@ || name == ".."@ {
        None
    } else {
        match last_index_of(name, '.') {
            Some(k) => if k == 0 {
                Some(name)
            } else {
                Some(name.take(k))
            },
            None => Some(name),
        }
    }
}

/// The path with the extension of its last component replaced by `ext`
/// (removed where `ext` is empty); the path unchanged where it has no file
/// stem.
pub open spec fn with_extension(p: Seq<char>, ext: Seq<char>) -> Seq<char> {
    match filestem(p) {
        None => p,
        Some(stem) => dir_prefix(p) + stem + if ext.len() == 0 {
            Seq::empty()
        } else {
            "."@ + ext
        },
    }
}

/// Whether a path starts at the root.
pub fn path_is_absolute(p: &str) -> (r: bool)
    ensures
        r == is_absolute(p@),
{
    p.unicode_len() > 0 && p.get_char(0) == '/'
}

/// The normal form of a path.
pub fn path_normalize(p: &str) -> (r: String)
    ensures
        r@ == normalize(p@),
{
    let comps = split_str(p, '/');
    let abs = path_is_absolute(p);
    let ghost cv = comps.deep_view();
    let mut st: Vec<String> = Vec::new();
    let mut i: usize = 0;
    assert(cv.take(0) =~= Seq::<Seq<char>>::empty());
    assert(st.deep_view() =~= Seq::<Seq<char>>::empty());
    while i < comps.len()
        invariant
            i <= comps.len(),
            cv == comps.deep_view(),
            cv == split_on(p@, '/'),
            abs == is_absolute(p@),
            st.deep_view() == norm_components(cv.take(i as int), abs),
        decreases comps.len() - i,
    {
        proof {
            reveal_strlit(".");
            reveal_strlit("..");
        }
        assert(cv.take(i + 1).drop_last() =~= cv.take(i as int));
        assert(cv.take(i + 1).last() == cv[i as int]);
        let ghost prev = st.deep_view();
        let c = comps[i].as_str();
        assert(c@ == cv[i as int]);
        if c.unicode_len() == 0 || str_eq(c, ".") {
        } else if str_eq(c, "..") {
            let n = st.len();
            if n > 0 && !str_eq(st[n - 1].as_str(), "..") {
                assert(st[n - 1]@ == prev.last());
                st.pop();
                assert(st.deep_view() =~= prev.drop_last());
            } else if abs {
            } else {
                st.push(String::from_str(".."));
                assert(st.deep_view() =~= prev.push(c@));
            }
        } else {
            st.push(String::from_str(c));
            assert(st.deep_view() =~= prev.push(c@));
        }
        i = i + 1;
    }
    assert(cv.take(comps.len() as int) =~= cv);
    let joined = join_strings(&st, "/");
    proof {
        reveal_strlit("/");
        reveal_strlit(".");
    }
    if abs {
        let mut r = String::from_str("/");
        r.append(joined.as_str());
        r
    } else if st.len() == 0 {
        String::from_str(".")
    } else {
        joined
    }
}

/// Each path of a list in its normal form.
pub fn path_normalize_all(ps: &Vec<String>) -> (r: Vec<String>)
    ensures
        r.deep_view() == normalize_all(ps.deep_view()),
{
    let mut r: Vec<String> = Vec::new();
    let mut i: usize = 0;
    while i < ps.len()
        invariant
            i <= ps.len(),
            r.deep_view() =~= normalize_all(ps.deep_view()).take(i as int),
        decreases ps.len() - i,
    {
        let q = path_normalize(ps[i].as_str());
        let ghost prev = r.deep_view();
        r.push(q);
        assert(r.deep_view() =~= prev.push(normalize(ps.deep_view()[i as int])));
        assert(normalize_all(ps.deep_view()).take(i + 1) =~= normalize_all(ps.deep_view()).take(
            i as int,
        ).push(normalize(ps.deep_view()[i as int])));
        i = i + 1;
    }
    assert(normalize_all(ps.deep_view()).take(ps.len() as int) =~= normalize_all(ps.deep_view()));
    r
}

/// A path, if there is one, in its normal form.
pub fn path_normalize_opt(p: &Option<String>) -> (r: Option<String>)
    ensures
        opt_str_view(r) == normalize_opt(opt_str_view(*p)),
{
    match p {
        Some(q) => Some(path_normalize(q.as_str())),
        None => None,
    }
}

/// `rel` taken relative to `base`.
pub fn path_join(base: &str, rel: &str) -> (r: String)
    ensures
        r@ == join(base@, rel@),
{
    if rel.unicode_len() == 0 {
        String::from_str(base)
    } else if path_is_absolute(rel) {
        path_normalize(rel)
    } else {
        let mut s = String::from_str(base);
        s.append("/");
        s.append(rel);
        path_normalize(s.as_str())
    }
}

/// The last component of a path.
pub fn path_file_name(p: &str) -> (r: String)
    ensures
        r@ == file_name(p@),
{
    let n = p.unicode_len();
    match rfind_char(p, '/') {
        Some(k) => substring(p, k + 1, n),
        None => String::from_str(p),
    }
}

/// The directory of a path.
pub fn path_dir_path(p: &str) -> (r: String)
    ensures
        r@ == dir_path(p@),
{
    match rfind_char(p, '/') {
        None => String::from_str("."),
        Some(k) => if k == 0 {
            String::from_str("/")
        } else {
            substring(p, 0, k)
        },
    }
}

/// The file stem of a path, if it has one.
pub fn path_filestem(p: &str) -> (r: Option<String>)
    ensures
        match r {
            Some(s) => filestem(p@) == Some(s@),
            None => filestem(p@) is None,
        },
{
    let name = path_file_name(p);
    if name.unicode_len() == 0 || str_eq(name.as_str(), ".") || str_eq(name.as_str(), "..") {
        return None;
    }
    match rfind_char(name.as_str(), '.') {
        Some(k) => if k == 0 {
            Some(name)
        } else {
            Some(substring(name.as_str(), 0, k))
        },
        None => Some(name),
    }
}

/// The path with the extension of its last component replaced by `ext`.
pub fn path_with_extension(p: &str, ext: &str) -> (r: String)
    ensures
        r@ == with_extension(p@, ext@),
{
    match path_filestem(p) {
        None => String::from_str(p),
        Some(stem) => {
            let n = p.unicode_len();
            let mut r = match rfind_char(p, '/') {
                Some(k) => {
                    assert(k < n);
                    substring(p, 0, k + 1)
                },
                None => String::new(),
            };
            r.append(stem.as_str());
            if ext.unicode_len() > 0 {
                r.append(".");
                r.append(ext);
            } else {
                assert(r@ =~= r@ + Seq::<char>::empty());
            }
            r
        },
    }
}

// ---------------------------------------------------------------------------
// The normal form is stable

/// No character of `s` is `c`.
pub open spec fn free_of(s: Seq<char>, c: char) -> bool {
    forall|k: int| 0 <= k < s.len() ==> s[k] != c
}

/// Components as normalization leaves them: none empty, `.` or holding a
/// separator; the `..` ones leading; none `..` in an absolute path.
pub open spec fn normal_components(st: Seq<Seq<char>>, abs: bool) -> bool {
    &&& forall|i: int|
        0 <= i < st.len() ==> #[trigger] st[i].len() > 0 && st[i] != "."@ && free_of(st[i], '/')
    &&& forall|i: int, j: int|
        0 <= i < j < st.len() && #[trigger] st[j] == ".."@ ==> #[trigger] st[i] == ".."@
    &&& abs ==> forall|i: int| 0 <= i < st.len() ==> #[trigger] st[i] != ".."@
}

proof fn lemma_split_nonempty(s: Seq<char>, sep: char)
    ensures
        split_on(s, sep).len() >= 1,
    decreases s.len(),
{
    if s.len() > 0 {
        lemma_split_nonempty(s.drop_last(), sep);
    }
}

proof fn lemma_split_pieces_free(s: Seq<char>, sep: char)
    ensures
        forall|i: int| 0 <= i < split_on(s, sep).len() ==> free_of(#[trigger] split_on(s, sep)[i], sep),
    decreases s.len(),
{
    if s.len() > 0 {
        lemma_split_pieces_free(s.drop_last(), sep);
        lemma_split_nonempty(s.drop_last(), sep);
        let p = split_on(s.drop_last(), sep);
        if s.last() != sep {
            let q = p.update(p.len() - 1, p.last().push(s.last()));
            assert forall|i: int| 0 <= i < q.len() implies free_of(#[trigger] q[i], sep) by {
                if i == p.len() - 1 {
                    assert(free_of(p[i], sep));
                } else {
                    assert(free_of(p[i], sep));
                }
            }
        } else {
            let q = p.push(Seq::<char>::empty());
            assert forall|i: int| 0 <= i < q.len() implies free_of(#[trigger] q[i], sep) by {
                if i < p.len() {
                    assert(free_of(p[i], sep));
                }
            }
        }
    }
}

proof fn lemma_split_free(s: Seq<char>, sep: char)
    requires
        free_of(s, sep),
    ensures
        split_on(s, sep) == seq![s],
    decreases s.len(),
{
    if s.len() > 0 {
        lemma_split_free(s.drop_last(), sep);
        assert(s.drop_last().push(s.last()) =~= s);
    } else {
        assert(s =~= Seq::<char>::empty());
    }
}

proof fn lemma_split_concat(a: Seq<char>, b: Seq<char>, sep: char)
    ensures
        split_on(a + seq![sep] + b, sep) == split_on(a, sep) + split_on(b, sep),
    decreases b.len(),
{
    let s = a + seq![sep] + b;
    if b.len() == 0 {
        assert(s.drop_last() =~= a);
        assert(split_on(b, sep) =~= seq![Seq::<char>::empty()]);
        assert(split_on(a, sep).push(Seq::<char>::empty()) =~= split_on(a, sep) + split_on(b, sep));
    } else {
        lemma_split_concat(a, b.drop_last(), sep);
        lemma_split_nonempty(b.drop_last(), sep);
        assert(s.drop_last() =~= a + seq![sep] + b.drop_last());
        assert(s.last() == b.last());
        let pa = split_on(a, sep);
        let pb = split_on(b.drop_last(), sep);
        if b.last() == sep {
            assert((pa + pb).push(Seq::<char>::empty()) =~= pa + pb.push(Seq::<char>::empty()));
        } else {
            let p = pa + pb;
            assert(p.update(p.len() - 1, p.last().push(b.last())) =~= pa + pb.update(
                pb.len() - 1,
                pb.last().push(b.last()),
            ));
        }
    }
}

proof fn lemma_join_prefix(st: Seq<Seq<char>>, sep: Seq<char>, k: int)
    requires
        st.len() >= 1,
        0 <= k < st[0].len(),
    ensures
        seq_join(st, sep).len() > k,
        seq_join(st, sep)[k] == st[0][k],
    decreases st.len(),
{
    if st.len() > 1 {
        lemma_join_prefix(st.drop_last(), sep, k);
    }
}

proof fn lemma_split_join(st: Seq<Seq<char>>)
    requires
        st.len() >= 1,
        forall|i: int| 0 <= i < st.len() ==> free_of(#[trigger] st[i], '/'),
    ensures
        split_on(seq_join(st, "/"@), '/') == st,
    decreases st.len(),
{
    reveal_strlit("/");
    if st.len() == 1 {
        lemma_split_free(st[0], '/');
        assert(st =~= seq![st[0]]);
    } else {
        let d = st.drop_last();
        lemma_split_join(d);
        lemma_split_free(st.last(), '/');
        assert("/"@ =~= seq!['/']);
        lemma_split_concat(seq_join(d, "/"@), st.last(), '/');
        assert(d + seq![st.last()] =~= st);
    }
}

proof fn lemma_norm_components_normal(comps: Seq<Seq<char>>, abs: bool)
    requires
        forall|i: int| 0 <= i < comps.len() ==> free_of(#[trigger] comps[i], '/'),
    ensures
        normal_components(norm_components(comps, abs), abs),
    decreases comps.len(),
{
    reveal_strlit(".");
    reveal_strlit("..");
    if comps.len() > 0 {
        let d = comps.drop_last();
        assert forall|i: int| 0 <= i < d.len() implies free_of(#[trigger] d[i], '/') by {
            assert(d[i] == comps[i]);
        }
        lemma_norm_components_normal(d, abs);
        let st = norm_components(d, abs);
        let c = comps.last();
        assert(free_of(c, '/')) by {
            assert(c == comps[comps.len() - 1]);
        }
        if c.len() == 0 || c == "."@ {
        } else if c == ".."@ {
            if st.len() > 0 && st.last() != ".."@ {
                let r = st.drop_last();
                assert forall|i: int, j: int|
                    0 <= i < j < r.len() && #[trigger] r[j] == ".."@ implies #[trigger] r[i]
                    == ".."@ by {
                    assert(st[j] == r[j] && st[i] == r[i]);
                }
                assert forall|i: int| 0 <= i < r.len() implies #[trigger] r[i].len() > 0 && r[i]
                    != "."@ && free_of(r[i], '/') by {
                    assert(st[i] == r[i]);
                }
            } else if abs {
            } else {
                let r = st.push(c);
                assert forall|i: int, j: int|
                    0 <= i < j < r.len() && #[trigger] r[j] == ".."@ implies #[trigger] r[i]
                    == ".."@ by {
                    if j == st.len() {
                        if i < st.len() - 1 {
                            assert(st[st.len() - 1] == ".."@);
                        }
                        assert(r[i] == st[i]);
                    } else {
                        assert(st[j] == r[j] && st[i] == r[i]);
                    }
                }
                assert forall|i: int| 0 <= i < r.len() implies #[trigger] r[i].len() > 0 && r[i]
                    != "."@ && free_of(r[i], '/') by {
                    if i < st.len() {
                        assert(st[i] == r[i]);
                    }
                }
            }
        } else {
            let r = st.push(c);
            assert forall|i: int, j: int|
                0 <= i < j < r.len() && #[trigger] r[j] == ".."@ implies #[trigger] r[i] == ".."@ by {
                assert(st[i] == r[i]);
                if j < st.len() {
                    assert(st[j] == r[j]);
                }
            }
            assert forall|i: int| 0 <= i < r.len() implies #[trigger] r[i].len() > 0 && r[i]
                != "."@ && free_of(r[i], '/') by {
                if i < st.len() {
                    assert(st[i] == r[i]);
                }
            }
            assert(abs ==> forall|i: int| 0 <= i < r.len() ==> #[trigger] r[i] != ".."@) by {
                if abs {
                    assert forall|i: int| 0 <= i < r.len() implies #[trigger] r[i] != ".."@ by {
                        if i < st.len() {
                            assert(st[i] == r[i]);
                        }
                    }
                }
            }
        }
    }
}

proof fn lemma_norm_components_fixed(st: Seq<Seq<char>>, abs: bool)
    requires
        normal_components(st, abs),
    ensures
        norm_components(st, abs) == st,
    decreases st.len(),
{
    reveal_strlit(".");
    reveal_strlit("..");
    if st.len() > 0 {
        let d = st.drop_last();
        assert(normal_components(d, abs)) by {
            assert forall|i: int, j: int|
                0 <= i < j < d.len() && #[trigger] d[j] == ".."@ implies #[trigger] d[i] == ".."@ by {
                assert(st[j] == d[j] && st[i] == d[i]);
            }
            assert forall|i: int| 0 <= i < d.len() implies #[trigger] d[i].len() > 0 && d[i] != "."@
                && free_of(d[i], '/') by {
                assert(st[i] == d[i]);
            }
            assert(abs ==> forall|i: int| 0 <= i < d.len() ==> #[trigger] d[i] != ".."@) by {
                if abs {
                    assert forall|i: int| 0 <= i < d.len() implies #[trigger] d[i] != ".."@ by {
                        assert(st[i] == d[i]);
                    }
                }
            }
        }
        lemma_norm_components_fixed(d, abs);
        let c = st.last();
        assert(c == st[st.len() - 1]);
        assert(c.len() > 0 && c != "."@);
        if c == ".."@ {
            if d.len() > 0 {
                assert(st[d.len() - 1] == ".."@);
            }
        }
        assert(d.push(c) =~= st);
    }
}

proof fn lemma_norm_components_after_void(x: Seq<Seq<char>>, s: Seq<Seq<char>>, abs: bool)
    requires
        norm_components(x, abs) == Seq::<Seq<char>>::empty(),
    ensures
        norm_components(x + s, abs) == norm_components(s, abs),
    decreases s.len(),
{
    if s.len() == 0 {
        assert(x + s =~= x);
    } else {
        lemma_norm_components_after_void(x, s.drop_last(), abs);
        assert((x + s).drop_last() =~= x + s.drop_last());
        assert((x + s).last() == s.last());
    }
}

/// A path in its normal form stays as it is when normalized again.
pub proof fn lemma_normalize_idempotent(p: Seq<char>)
    ensures
        normalize(normalize(p)) == normalize(p),
{
    reveal_strlit("/");
    reveal_strlit(".");
    reveal_strlit("..");
    let abs = is_absolute(p);
    let comps = split_on(p, '/');
    lemma_split_pieces_free(p, '/');
    lemma_norm_components_normal(comps, abs);
    let st = norm_components(comps, abs);
    let q = normalize(p);
    if abs {
        assert(q == "/"@ + seq_join(st, "/"@));
        assert(q =~= Seq::<char>::empty() + seq!['/'] + seq_join(st, "/"@));
        lemma_split_concat(Seq::<char>::empty(), seq_join(st, "/"@), '/');
        assert(split_on(Seq::<char>::empty(), '/') =~= seq![Seq::<char>::empty()]);
        let x = seq![Seq::<char>::empty()];
        assert(norm_components(x, true) =~= Seq::<Seq<char>>::empty()) by {
            let e = Seq::<Seq<char>>::empty();
            assert(x.drop_last() =~= e);
            assert(norm_components(e, true) == e);
            assert(x.last().len() == 0);
        }
        if st.len() == 0 {
            assert(seq_join(st, "/"@) =~= Seq::<char>::empty());
            assert(split_on(q, '/') =~= x + x);
            lemma_norm_components_after_void(x, x, true);
        } else {
            lemma_split_join(st);
            lemma_norm_components_after_void(x, st, true);
            lemma_norm_components_fixed(st, true);
        }
        assert(is_absolute(q));
    } else if st.len() == 0 {
        assert(q == "."@);
        assert(free_of(q, '/'));
        lemma_split_free(q, '/');
        let y = seq![q];
        assert(norm_components(y, false) =~= Seq::<Seq<char>>::empty()) by {
            let e = Seq::<Seq<char>>::empty();
            assert(y.drop_last() =~= e);
            assert(norm_components(e, false) == e);
            assert(y.last() == "."@);
        }
        assert(!is_absolute(q));
    } else {
        assert(q == seq_join(st, "/"@));
        assert(st[0].len() > 0);
        lemma_join_prefix(st, "/"@, 0);
        assert(free_of(st[0], '/'));
        assert(!is_absolute(q));
        lemma_split_join(st);
        lemma_norm_components_fixed(st, false);
    }
}

/// The normal form of a path is never empty, and it is absolute exactly
/// where the path is.
pub proof fn lemma_normalize_keeps_absolute(p: Seq<char>)
    ensures
        normalize(p).len() > 0,
        is_absolute(normalize(p)) == is_absolute(p),
{
    reveal_strlit("/");
    reveal_strlit(".");
    let abs = is_absolute(p);
    let comps = split_on(p, '/');
    lemma_split_pieces_free(p, '/');
    lemma_norm_components_normal(comps, abs);
    let st = norm_components(comps, abs);
    if !abs && st.len() > 0 {
        assert(st[0].len() > 0);
        lemma_join_prefix(st, "/"@, 0);
        assert(free_of(st[0], '/'));
    }
}

/// A path joined onto an absolute base is absolute.
pub proof fn lemma_join_onto_absolute(base: Seq<char>, rel: Seq<char>)
    requires
        is_absolute(base),
    ensures
        is_absolute(join(base, rel)),
{
    reveal_strlit("/");
    if rel.len() > 0 {
        if is_absolute(rel) {
            lemma_normalize_keeps_absolute(rel);
        } else {
            let whole = base + "/"@ + rel;
            assert(whole[0] == base[0]);
            lemma_normalize_keeps_absolute(whole);
        }
    }
}

} // verus!
