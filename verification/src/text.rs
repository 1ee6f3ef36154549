//! Character-level helpers on strings, each with its meaning over `Seq<char>`.

use vstd::prelude::*;
use vstd::string::*;

verus! {

/// `needle` occurs in `hay` at position `i`.
pub open spec fn occurs_at(hay: Seq<char>, needle: Seq<char>, i: int) -> bool {
    0 <= i && i + needle.len() <= hay.len() && hay.subrange(i, i + needle.len()) == needle
}

/// `needle` occurs somewhere in `hay`.
pub open spec fn contains_seq(hay: Seq<char>, needle: Seq<char>) -> bool {
    exists|i: int| occurs_at(hay, needle, i)
}

/// Whether two strings hold the same characters.
pub fn str_eq(a: &str, b: &str) -> (r: bool)
    ensures
        r == (a@ == b@),
{
    let n = a.unicode_len();
    if n != b.unicode_len() {
        return false;
    }
    let mut i: usize = 0;
    while i < n
        invariant
            n == a@.len(),
            n == b@.len(),
            i <= n,
            forall|j: int| 0 <= j < i ==> a@[j] == b@[j],
        decreases n - i,
    {
        if a.get_char(i) != b.get_char(i) {
            return false;
        }
        i = i + 1;
    }
    assert(a@ =~= b@);
    true
}

/// Whether `needle` occurs in `hay`.
pub fn str_contains(hay: &str, needle: &str) -> (r: bool)
    ensures
        r == contains_seq(hay@, needle@),
{
    let n = hay.unicode_len();
    let m = needle.unicode_len();
    if m > n {
        assert forall|i: int| !occurs_at(hay@, needle@, i) by {}
        return false;
    }
    let mut i: usize = 0;
    while i <= n - m
        invariant
            n == hay@.len(),
            m == needle@.len(),
            m <= n,
            i <= n - m + 1,
            forall|k: int| 0 <= k < i ==> !occurs_at(hay@, needle@, k),
        decreases n - m + 1 - i,
    {
        let mut j: usize = 0;
        let mut same = true;
        while j < m
            invariant
                n == hay@.len(),
                m == needle@.len(),
                i + m <= n,
                j <= m,
                same == (forall|l: int| 0 <= l < j ==> hay@[i + l] == needle@[l]),
            decreases m - j,
        {
            if hay.get_char(i + j) != needle.get_char(j) {
                same = false;
            }
            j = j + 1;
        }
        if same {
            assert(hay@.subrange(i as int, i + m) =~= needle@);
            assert(occurs_at(hay@, needle@, i as int));
            return true;
        }
        assert(!occurs_at(hay@, needle@, i as int)) by {
            if hay@.subrange(i as int, i + m) == needle@ {
                assert forall|l: int| 0 <= l < m implies hay@[i + l] == needle@[l] by {
                    assert(hay@.subrange(i as int, i + m)[l] == hay@[i + l]);
                }
            }
        }
        i = i + 1;
    }
    assert forall|k: int| !occurs_at(hay@, needle@, k) by {
        if 0 <= k && k + m <= n {
            assert(k < i);
        }
    }
    false
}


/// The first position of `c` in `s`.
pub open spec fn index_of(s: Seq<char>, c: char) -> Option<int>
    decreases s.len(),
{
    if s.len() == 0 {
        None
    } else if s[0] == c {
        Some(0)
    } else {
        match index_of(s.drop_first(), c) {
            Some(i) => Some(i + 1),
            None => None,
        }
    }
}

/// Where `s` holds no `c` before position `k`, the first `c` of `s` is the
/// first `c` of `s.skip(k)`, shifted by `k`.
pub proof fn lemma_index_of_skip(s: Seq<char>, c: char, k: int)
    requires
        0 <= k <= s.len(),
        forall|j: int| 0 <= j < k ==> s[j] != c,
    ensures
        index_of(s, c) == (match index_of(s.skip(k), c) {
            Some(i) => Some(i + k),
            None => None,
        }),
    decreases k,
{
    if k > 0 {
        assert(s.len() > 0 && s[0] != c);
        lemma_index_of_skip(s.drop_first(), c, k - 1);
        assert(s.drop_first().skip(k - 1) =~= s.skip(k));
    } else {
        assert(s.skip(0) =~= s);
    }
}

/// A first position of `c` is a position of `c` with none before it.
pub proof fn lemma_index_of_found(s: Seq<char>, c: char)
    ensures
        match index_of(s, c) {
            Some(i) => 0 <= i < s.len() && s[i] == c && forall|j: int| 0 <= j < i ==> s[j] != c,
            None => forall|j: int| 0 <= j < s.len() ==> s[j] != c,
        },
    decreases s.len(),
{
    if s.len() > 0 {
        lemma_index_of_found(s.drop_first(), c);
        if s[0] != c {
            assert forall|j: int| 1 <= j < s.len() implies s[j] == s.drop_first()[j - 1] by {}
        }
    }
}

/// The characters of a string, in a vector.
pub fn chars_of(s: &str) -> (v: Vec<char>)
    ensures
        v@ == s@,
{
    let n = s.unicode_len();
    let mut v: Vec<char> = Vec::new();
    let mut i: usize = 0;
    while i < n
        invariant
            n == s@.len(),
            i <= n,
            v@ == s@.take(i as int),
        decreases n - i,
    {
        v.push(s.get_char(i));
        i = i + 1;
        assert(v@ =~= s@.take(i as int));
    }
    assert(s@.take(n as int) =~= s@);
    v
}

/// The first position of `c` in `s`, if any.
pub fn find_char(s: &str, c: char) -> (r: Option<usize>)
    ensures
        match r {
            Some(i) => index_of(s@, c) == Some(i as int),
            None => index_of(s@, c) is None,
        },
{
    let n = s.unicode_len();
    let mut i: usize = 0;
    while i < n
        invariant
            n == s@.len(),
            i <= n,
            forall|j: int| 0 <= j < i ==> s@[j] != c,
        decreases n - i,
    {
        if s.get_char(i) == c {
            proof {
                lemma_index_of_skip(s@, c, i as int);
                assert(s@.skip(i as int)[0] == c);
            }
            return Some(i);
        }
        i = i + 1;
    }
    proof {
        lemma_index_of_skip(s@, c, n as int);
    }
    None
}

/// The characters `from` to `to` of `s`.
pub fn substring(s: &str, from: usize, to: usize) -> (r: String)
    requires
        from <= to <= s@.len(),
    ensures
        r@ == s@.subrange(from as int, to as int),
{
    String::from_str(s.substring_char(from, to))
}

/// Whitespace as the option syntax knows it.
pub open spec fn is_ws(c: char) -> bool {
    c == ' ' || c == '\t' || c == '\n' || c == '\r'
}

/// Whether `c` is whitespace.
pub fn char_is_ws(c: char) -> (r: bool)
    ensures
        r == is_ws(c),
{
    c == ' ' || c == '\t' || c == '\n' || c == '\r'
}

/// The pieces of `s` between occurrences of `sep`; empty pieces included.
pub open spec fn split_on(s: Seq<char>, sep: char) -> Seq<Seq<char>>
    decreases s.len(),
{
    if s.len() == 0 {
        seq![Seq::<char>::empty()]
    } else {
        let p = split_on(s.drop_last(), sep);
        if s.last() == sep {
            p.push(Seq::empty())
        } else {
            p.update(p.len() - 1, p.last().push(s.last()))
        }
    }
}

/// The pieces of `s` between occurrences of `sep`, in order.
pub fn split_str(s: &str, sep: char) -> (r: Vec<String>)
    ensures
        r.deep_view() == split_on(s@, sep),
{
    let n = s.unicode_len();
    let mut parts: Vec<String> = Vec::new();
    let mut start: usize = 0;
    let mut i: usize = 0;
    assert(parts.deep_view() =~= Seq::<Seq<char>>::empty());
    assert(s@.take(0) =~= Seq::<char>::empty());
    assert(s@.subrange(0, 0) =~= Seq::<char>::empty());
    while i < n
        invariant
            n == s@.len(),
            start <= i <= n,
            split_on(s@.take(i as int), sep) == parts.deep_view().push(
                s@.subrange(start as int, i as int),
            ),
        decreases n - i,
    {
        let ghost prev = parts.deep_view();
        let ghost old_start = start;
        assert(s@.take(i + 1).drop_last() =~= s@.take(i as int));
        assert(s@.take(i + 1).last() == s@[i as int]);
        if s.get_char(i) == sep {
            parts.push(substring(s, start, i));
            start = i + 1;
            assert(parts.deep_view() =~= prev.push(s@.subrange(old_start as int, i as int)));
            assert(s@.subrange(start as int, i + 1) =~= Seq::<char>::empty());
        } else {
            assert(s@.subrange(start as int, i + 1) =~= s@.subrange(start as int, i as int).push(
                s@[i as int],
            ));
        }
        i = i + 1;
    }
    let ghost prev = parts.deep_view();
    parts.push(substring(s, start, n));
    assert(parts.deep_view() =~= prev.push(s@.subrange(start as int, n as int)));
    assert(s@.take(n as int) =~= s@);
    parts
}


/// The sequences of `s`, one after the other.
pub open spec fn concat_all<A>(s: Seq<Seq<A>>) -> Seq<A>
    decreases s.len(),
{
    if s.len() == 0 {
        Seq::empty()
    } else {
        concat_all(s.drop_last()) + s.last()
    }
}

/// The pieces of all the strings of `units` between occurrences of `sep`.
pub open spec fn split_all(units: Seq<Seq<char>>, sep: char) -> Seq<Seq<char>> {
    concat_all(units.map_values(|u: Seq<char>| split_on(u, sep)))
}

/// The pieces of all the strings of `units` between occurrences of `sep`, in
/// order.
pub fn split_all_str(units: &Vec<String>, sep: char) -> (r: Vec<String>)
    ensures
        r.deep_view() == split_all(units.deep_view(), sep),
{
    let ghost uv = units.deep_view();
    let mut r: Vec<String> = Vec::new();
    let mut i: usize = 0;
    assert(uv.take(0).map_values(|u: Seq<char>| split_on(u, sep)) =~= Seq::<Seq<Seq<char>>>::empty());
    assert(r.deep_view() =~= Seq::<Seq<char>>::empty());
    while i < units.len()
        invariant
            i <= units.len(),
            uv == units.deep_view(),
            r.deep_view() == concat_all(uv.take(i as int).map_values(|u: Seq<char>| split_on(u, sep))),
        decreases units.len() - i,
    {
        let pieces = split_str(units[i].as_str(), sep);
        let ghost before = r.deep_view();
        let mut j: usize = 0;
        while j < pieces.len()
            invariant
                j <= pieces.len(),
                r.deep_view() == before + pieces.deep_view().take(j as int),
            decreases pieces.len() - j,
        {
            let ghost prev = r.deep_view();
            r.push(pieces[j].clone());
            j = j + 1;
            assert(r.deep_view() =~= prev.push(pieces.deep_view()[j - 1]));
            assert(pieces.deep_view().take(j as int) =~= pieces.deep_view().take(j - 1).push(
                pieces.deep_view()[j - 1],
            ));
            assert(before + pieces.deep_view().take(j as int) =~= (before
                + pieces.deep_view().take(j - 1)).push(pieces.deep_view()[j - 1]));
        }
        assert(pieces.deep_view().take(j as int) =~= pieces.deep_view());
        let ghost m = uv.take(i + 1).map_values(|u: Seq<char>| split_on(u, sep));
        assert(m.drop_last() =~= uv.take(i as int).map_values(|u: Seq<char>| split_on(u, sep)));
        assert(m.last() == split_on(uv[i as int], sep));
        i = i + 1;
    }
    assert(uv.take(units.len() as int) =~= uv);
    r
}

/// `s` with each `-` turned into `_`.
pub open spec fn underscored(s: Seq<char>) -> Seq<char> {
    s.map_values(|c: char| if c == '-' { '_' } else { c })
}

/// `s` with each `-` turned into `_`.
pub fn underscored_str(s: &str) -> (r: String)
    ensures
        r@ == underscored(s@),
{
    let n = s.unicode_len();
    let mut r = String::new();
    let mut i: usize = 0;
    while i < n
        invariant
            n == s@.len(),
            i <= n,
            r@ == underscored(s@.take(i as int)),
        decreases n - i,
    {
        let ghost prev = r@;
        if s.get_char(i) == '-' {
            proof {
                reveal_strlit("_");
            }
            r.append("_");
            assert(r@ =~= prev.push('_'));
        } else {
            let piece = s.substring_char(i, i + 1);
            assert(piece@ =~= seq![s@[i as int]]);
            r.append(piece);
            assert(r@ =~= prev.push(s@[i as int]));
        }
        i = i + 1;
        assert(underscored(s@.take(i as int)) =~= underscored(s@.take(i - 1)).push(
            if s@[i - 1] == '-' { '_' } else { s@[i - 1] },
        ));
        assert(r@ =~= prev.push(if s@[i - 1] == '-' { '_' } else { s@[i - 1] }));
    }
    assert(s@.take(n as int) =~= s@);
    r
}

/// The whitespace-separated words of `s`.
pub open spec fn words(s: Seq<char>) -> Seq<Seq<char>>
    decreases s.len(),
{
    if s.len() == 0 {
        Seq::empty()
    } else {
        let p = words(s.drop_last());
        let c = s.last();
        if is_ws(c) {
            p
        } else if s.len() >= 2 && !is_ws(s[s.len() - 2]) {
            p.update(p.len() - 1, p.last().push(c))
        } else {
            p.push(seq![c])
        }
    }
}

/// The whitespace-separated words of `s`, in order.
pub fn words_str(s: &str) -> (r: Vec<String>)
    ensures
        r.deep_view() == words(s@),
{
    let n = s.unicode_len();
    let mut parts: Vec<String> = Vec::new();
    let mut start: usize = 0;
    let mut in_word = false;
    let mut i: usize = 0;
    assert(parts.deep_view() =~= Seq::<Seq<char>>::empty());
    while i < n
        invariant
            n == s@.len(),
            start <= i <= n,
            in_word == (i > 0 && !is_ws(s@[i - 1])),
            in_word ==> start < i,
            words(s@.take(i as int)) == if in_word {
                parts.deep_view().push(s@.subrange(start as int, i as int))
            } else {
                parts.deep_view()
            },
        decreases n - i,
    {
        let ghost prev = parts.deep_view();
        let ghost t = s@.take(i + 1);
        assert(t.drop_last() =~= s@.take(i as int));
        assert(t.last() == s@[i as int]);
        assert(i >= 1 ==> t[i - 1] == s@[i - 1]);
        let c = s.get_char(i);
        if char_is_ws(c) {
            if in_word {
                parts.push(substring(s, start, i));
                assert(parts.deep_view() =~= prev.push(s@.subrange(start as int, i as int)));
            }
            in_word = false;
        } else {
            if in_word {
                assert(s@.subrange(start as int, i + 1) =~= s@.subrange(start as int, i as int).push(
                    c,
                ));
            } else {
                start = i;
                assert(s@.subrange(start as int, i + 1) =~= seq![c]);
            }
            in_word = true;
        }
        i = i + 1;
    }
    if in_word {
        let ghost prev = parts.deep_view();
        parts.push(substring(s, start, n));
        assert(parts.deep_view() =~= prev.push(s@.subrange(start as int, n as int)));
    }
    assert(s@.take(n as int) =~= s@);
    parts
}

/// Every element of `s` passes `f`.
pub open spec fn all_pass<A, T>(s: Seq<A>, f: spec_fn(A) -> Option<T>) -> bool {
    forall|i: int| 0 <= i < s.len() ==> (#[trigger] f(s[i])) is Some
}

/// What `f` gives for each element of `s`, where all pass.
pub open spec fn map_pass<A, T>(s: Seq<A>, f: spec_fn(A) -> Option<T>) -> Seq<T> {
    Seq::new(s.len(), |i: int| f(s[i])->0)
}

/// The position of the first element of `s` that `f` rejects.
pub open spec fn first_failure<A, T>(s: Seq<A>, f: spec_fn(A) -> Option<T>) -> int {
    choose|i: int|
        0 <= i < s.len() && f(s[i]) is None && forall|j: int|
            0 <= j < i ==> (#[trigger] f(s[j])) is Some
}

/// A rejected element with none rejected before it is the first failure.
pub proof fn lemma_first_failure<A, T>(s: Seq<A>, f: spec_fn(A) -> Option<T>, i: int)
    requires
        0 <= i < s.len(),
        f(s[i]) is None,
        forall|j: int| 0 <= j < i ==> (#[trigger] f(s[j])) is Some,
    ensures
        first_failure(s, f) == i,
        !all_pass(s, f),
{
    let c = first_failure(s, f);
    assert(0 <= c < s.len() && f(s[c]) is None && forall|j: int|
        0 <= j < c ==> (#[trigger] f(s[j])) is Some);
    if c < i {
        assert(f(s[c]) is Some);
    } else if c > i {
        assert(f(s[i]) is Some);
    }
}


/// An element is in `s.push(x)` where it is in `s` or is `x`.
pub proof fn lemma_contains_push<A>(s: Seq<A>, x: A, u: A)
    ensures
        s.push(x).contains(u) == (s.contains(u) || x == u),
{
    if s.push(x).contains(u) {
        let k = choose|k: int| 0 <= k < s.len() + 1 && #[trigger] s.push(x)[k] == u;
        if k < s.len() {
            assert(s[k] == u);
        }
    }
    if s.contains(u) {
        let k = choose|k: int| 0 <= k < s.len() && #[trigger] s[k] == u;
        assert(s.push(x)[k] == u);
    }
    if x == u {
        assert(s.push(x)[s.len() as int] == u);
    }
}

/// The strings of `list` with `sep` between each two.
pub open spec fn seq_join(list: Seq<Seq<char>>, sep: Seq<char>) -> Seq<char>
    decreases list.len(),
{
    if list.len() == 0 {
        Seq::empty()
    } else if list.len() == 1 {
        list[0]
    } else {
        seq_join(list.drop_last(), sep) + sep + list.last()
    }
}

/// The strings of `list` with `sep` between each two.
pub fn join_strings(list: &Vec<String>, sep: &str) -> (r: String)
    ensures
        r@ == seq_join(list.deep_view(), sep@),
{
    let mut r = String::new();
    let ghost lv = list.deep_view();
    let mut i: usize = 0;
    assert(lv.take(0) =~= Seq::<Seq<char>>::empty());
    while i < list.len()
        invariant
            i <= list.len(),
            lv == list.deep_view(),
            r@ == seq_join(lv.take(i as int), sep@),
        decreases list.len() - i,
    {
        assert(lv.take(i + 1).drop_last() =~= lv.take(i as int));
        if i == 0 {
            r.append(list[i].as_str());
            assert(lv.take(1) =~= seq![lv[0]]);
            assert(r@ =~= Seq::<char>::empty() + lv[0]);
        } else {
            r.append(sep);
            r.append(list[i].as_str());
        }
        i = i + 1;
    }
    assert(lv.take(list.len() as int) =~= lv);
    r
}

} // verus!
