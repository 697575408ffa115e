//! Lexicographic order on strings, by code point.
//!
//! Group and data-type names are listed in sorted order; the order used is
//! the code-point-wise lexicographic one, which coincides with the byte-wise
//! order Rust's own `String` ordering uses, since UTF-8 preserves code-point
//! order.

use vstd::prelude::*;

verus! {

/// `a` comes before `b` (or equals it) in code-point-wise lexicographic
/// order.
pub open spec fn lex_le(a: Seq<char>, b: Seq<char>) -> bool
    decreases a.len(),
{
    if a.len() == 0 {
        true
    } else if b.len() == 0 {
        false
    } else if a[0] != b[0] {
        (a[0] as u32) < (b[0] as u32)
    } else {
        lex_le(a.drop_first(), b.drop_first())
    }
}

/// Strictly before.
pub open spec fn lex_lt(a: Seq<char>, b: Seq<char>) -> bool {
    lex_le(a, b) && a != b
}

pub proof fn lemma_lex_le_refl(a: Seq<char>)
    ensures
        lex_le(a, a),
    decreases a.len(),
{
    if a.len() > 0 {
        lemma_lex_le_refl(a.drop_first());
    }
}

/// The order is total: of two strings, at least one comes before the other.
pub proof fn lemma_lex_le_total(a: Seq<char>, b: Seq<char>)
    ensures
        lex_le(a, b) || lex_le(b, a),
    decreases a.len(),
{
    if a.len() == 0 {
    } else if b.len() == 0 {
    } else if a[0] == b[0] {
        lemma_lex_le_total(a.drop_first(), b.drop_first());
    } else {
        vstd::utf8::char_u32_cast(a[0], a[0] as u32);
        vstd::utf8::char_u32_cast(b[0], b[0] as u32);
        assert((a[0] as u32) != (b[0] as u32));
    }
}

/// The order is antisymmetric: two strings each before the other are equal.
pub proof fn lemma_lex_le_antisym(a: Seq<char>, b: Seq<char>)
    requires
        lex_le(a, b),
        lex_le(b, a),
    ensures
        a == b,
    decreases a.len(),
{
    if a.len() == 0 {
        assert(b.len() == 0);
        assert(a =~= b);
    } else {
        assert(a[0] == b[0]);
        lemma_lex_le_antisym(a.drop_first(), b.drop_first());
        assert(a =~= Seq::empty().push(a[0]) + a.drop_first());
        assert(b =~= Seq::empty().push(b[0]) + b.drop_first());
    }
}

/// The order is transitive.
pub proof fn lemma_lex_le_trans(a: Seq<char>, b: Seq<char>, c: Seq<char>)
    requires
        lex_le(a, b),
        lex_le(b, c),
    ensures
        lex_le(a, c),
    decreases a.len(),
{
    if a.len() > 0 && b.len() > 0 && c.len() > 0 {
        if a[0] == b[0] && b[0] == c[0] {
            lemma_lex_le_trans(a.drop_first(), b.drop_first(), c.drop_first());
        }
    }
}

/// Compare two strings in code-point order.
pub fn str_le(a: &str, b: &str) -> (r: bool)
    ensures
        r == lex_le(a@, b@),
{
    let alen = a.unicode_len();
    let blen = b.unicode_len();
    let mut i: usize = 0;
    proof {
        assert(a@.skip(0) =~= a@);
        assert(b@.skip(0) =~= b@);
    }
    loop
        invariant
            i <= alen,
            i <= blen,
            alen == a@.len(),
            blen == b@.len(),
            forall|j: int| 0 <= j < i ==> a@[j] == b@[j],
            lex_le(a@, b@) == lex_le(a@.skip(i as int), b@.skip(i as int)),
        decreases alen - i,
    {
        if i >= alen {
            return true;
        }
        if i >= blen {
            return false;
        }
        let ca = a.get_char(i);
        let cb = b.get_char(i);
        if ca != cb {
            proof {
                assert(a@.skip(i as int)[0] == ca);
                assert(b@.skip(i as int)[0] == cb);
            }
            return (ca as u32) < (cb as u32);
        }
        proof {
            assert(a@.skip(i as int).drop_first() =~= a@.skip(i + 1));
            assert(b@.skip(i as int).drop_first() =~= b@.skip(i + 1));
            assert(a@.skip(i as int)[0] == ca);
            assert(b@.skip(i as int)[0] == cb);
        }
        i = i + 1;
    }
}

/// Compare two strings for equality of their character sequences.
pub fn str_eq(a: &str, b: &str) -> (r: bool)
    ensures
        r == (a@ == b@),
{
    let r = str_le(a, b) && str_le(b, a);
    proof {
        if lex_le(a@, b@) && lex_le(b@, a@) {
            lemma_lex_le_antisym(a@, b@);
        }
        if a@ == b@ {
            lemma_lex_le_refl(a@);
        }
    }
    r
}

/// The views of the strings, in order.
pub open spec fn views_of(v: Seq<String>) -> Seq<Seq<char>> {
    v.map_values(|s: String| s@)
}

/// Every string comes weakly before its successors.
pub open spec fn lex_sorted(v: Seq<Seq<char>>) -> bool {
    forall|i: int, j: int| 0 <= i < j < v.len() ==> #[trigger] lex_le(v[i], v[j])
}

/// Every string comes strictly before its successors; in particular, all
/// entries are distinct.
pub open spec fn lex_sorted_strict(v: Seq<Seq<char>>) -> bool {
    forall|i: int, j: int| 0 <= i < j < v.len() ==> #[trigger] lex_lt(v[i], v[j])
}

/// Sort the strings in code-point order, ascending.
pub fn sort_strings(v: Vec<String>) -> (r: Vec<String>)
    ensures
        r@.map_values(|s: String| s@).to_multiset() == v@.map_values(
            |s: String| s@,
        ).to_multiset(),
        lex_sorted(views_of(r@)),
        r@.len() == v@.len(),
{
    broadcast use vstd::multiset::group_multiset_axioms;

    let ghost vw = views_of(v@);
    let mut rest = v;
    let mut out: Vec<String> = Vec::new();
    proof {
        views_of(out@).to_multiset_ensures();
        assert(views_of(out@).to_multiset() =~= vstd::multiset::Multiset::empty()) by {
            vstd::multiset::lemma_multiset_empty_len(views_of(out@).to_multiset());
        }
        assert(views_of(out@).to_multiset().add(views_of(rest@).to_multiset())
            =~= vw.to_multiset());
    }
    while rest.len() > 0
        invariant
            views_of(out@).to_multiset().add(views_of(rest@).to_multiset()) == vw.to_multiset(),
            out@.len() + rest@.len() == vw.len(),
            lex_sorted(views_of(out@)),
            forall|i: int, j: int|
                0 <= i < out@.len() && 0 <= j < rest@.len() ==> #[trigger] lex_le(
                    out@[i]@,
                    rest@[j]@,
                ),
        decreases rest@.len(),
    {
        let mut m: usize = 0;
        let mut k: usize = 1;
        proof {
            lemma_lex_le_refl(rest@[0]@);
        }
        while k < rest.len()
            invariant
                0 <= m < k <= rest@.len(),
                forall|j: int| 0 <= j < k ==> #[trigger] lex_le(rest@[m as int]@, rest@[j]@),
            decreases rest@.len() - k,
        {
            proof {
                lemma_lex_le_refl(rest@[k as int]@);
            }
            if !str_le(rest[m].as_str(), rest[k].as_str()) {
                proof {
                    lemma_lex_le_total(rest@[m as int]@, rest@[k as int]@);
                    assert forall|j: int| 0 <= j < k implies #[trigger] lex_le(
                        rest@[k as int]@,
                        rest@[j]@,
                    ) by {
                        lemma_lex_le_trans(rest@[k as int]@, rest@[m as int]@, rest@[j]@);
                    }
                }
                m = k;
            }
            k = k + 1;
        }
        let ghost old_out = views_of(out@);
        let ghost old_rest = views_of(rest@);
        let x = rest.remove(m);
        out.push(x);
        proof {
            old_rest.to_multiset_ensures();
            old_out.to_multiset_ensures();
            assert(views_of(rest@) =~= old_rest.remove(m as int));
            assert(views_of(out@) =~= old_out.push(x@));
            assert(views_of(rest@).to_multiset() =~= old_rest.to_multiset().remove(x@));
            assert(views_of(out@).to_multiset() =~= old_out.to_multiset().insert(x@));
            assert(old_rest.to_multiset().count(x@) > 0);
            assert(views_of(out@).to_multiset().add(views_of(rest@).to_multiset())
                =~= vw.to_multiset());
            assert forall|i: int, j: int|
                0 <= i < out@.len() && 0 <= j < rest@.len() implies #[trigger] lex_le(
                out@[i]@,
                rest@[j]@,
            ) by {
                assert(rest@[j]@ == if j < m { old_rest[j] } else { old_rest[j + 1] });
            }
            assert(lex_sorted(views_of(out@)));
        }
    }
    proof {
        views_of(rest@).to_multiset_ensures();
        assert(views_of(rest@).to_multiset() =~= vstd::multiset::Multiset::empty()) by {
            vstd::multiset::lemma_multiset_empty_len(views_of(rest@).to_multiset());
        }
        assert(views_of(out@).to_multiset() =~= vw.to_multiset());
    }
    out
}

/// Is some string of `v` viewed as `s`?
pub open spec fn contains_view(v: Seq<String>, s: Seq<char>) -> bool {
    exists|i: int| 0 <= i < v.len() && v[i]@ == s
}

/// Does any of the strings view as `s`?
pub fn contains_str(v: &Vec<String>, s: &str) -> (r: bool)
    ensures
        r == contains_view(v@, s@),
{
    let mut i: usize = 0;
    while i < v.len()
        invariant
            i <= v@.len(),
            forall|j: int| 0 <= j < i ==> v@[j]@ != s@,
        decreases v@.len() - i,
    {
        if str_eq(v[i].as_str(), s) {
            return true;
        }
        i = i + 1;
    }
    false
}

/// The distinct names among `names`, in code-point order, each exactly once.
pub fn dedup_sort(names: Vec<String>) -> (r: Vec<String>)
    ensures
        lex_sorted(views_of(r@)),
        views_of(r@).no_duplicates(),
        forall|s: Seq<char>| #[trigger] contains_view(r@, s) == contains_view(names@, s),
{
    broadcast use vstd::multiset::group_multiset_axioms;

    let mut distinct: Vec<String> = Vec::new();
    let mut i: usize = 0;
    while i < names.len()
        invariant
            i <= names@.len(),
            views_of(distinct@).no_duplicates(),
            forall|s: Seq<char>| #[trigger] contains_view(distinct@, s) == contains_view(
                names@.take(i as int),
                s,
            ),
        decreases names@.len() - i,
    {
        let ghost prev = distinct@;
        let is_new = !contains_str(&distinct, names[i].as_str());
        if is_new {
            distinct.push(names[i].clone());
        }
        proof {
            if is_new {
                assert(distinct@ =~= prev.push(names@[i as int]));
                assert forall|a: int, b: int|
                    0 <= a < b < views_of(distinct@).len() implies views_of(distinct@)[a]
                    != views_of(distinct@)[b] by {
                    if b == prev.len() {
                        assert(views_of(distinct@)[b] == names@[i as int]@);
                        assert(views_of(distinct@)[a] == prev[a]@);
                        assert(!contains_view(prev, names@[i as int]@));
                        assert(prev[a]@ != names@[i as int]@);
                    } else {
                        assert(views_of(distinct@)[a] == views_of(prev)[a]);
                        assert(views_of(distinct@)[b] == views_of(prev)[b]);
                    }
                }
                assert(views_of(distinct@).no_duplicates());
            }
            assert forall|s: Seq<char>| #[trigger] contains_view(distinct@, s) == contains_view(
                names@.take(i + 1),
                s,
            ) by {
                let cur = names@.take(i + 1);
                assert(cur.drop_last() =~= names@.take(i as int));
                if contains_view(cur, s) {
                    let j = choose|j: int| 0 <= j < cur.len() && #[trigger] cur[j]@ == s;
                    if j < i {
                        assert(contains_view(names@.take(i as int), s));
                        assert(contains_view(prev, s));
                        let k = choose|k: int|
                            0 <= k < prev.len() && #[trigger] prev[k]@ == s;
                        assert(distinct@[k]@ == s);
                        assert(contains_view(distinct@, s));
                    } else {
                        assert(names@[i as int]@ == s);
                        if is_new {
                            assert(distinct@[prev.len() as int]@ == s);
                        } else {
                            assert(contains_view(prev, names@[i as int]@));
                            let k = choose|k: int|
                                0 <= k < prev.len() && #[trigger] prev[k]@ == names@[i as int]@;
                            assert(distinct@[k]@ == s);
                        }
                        assert(contains_view(distinct@, s));
                    }
                }
                if contains_view(distinct@, s) {
                    let j = choose|j: int| 0 <= j < distinct@.len() && #[trigger] distinct@[j]@
                        == s;
                    if j < prev.len() {
                        assert(prev[j]@ == s);
                        assert(contains_view(prev, s));
                        assert(contains_view(names@.take(i as int), s));
                        let k = choose|k: int|
                            0 <= k < names@.take(i as int).len() && #[trigger] names@.take(
                                i as int,
                            )[k]@ == s;
                        assert(cur[k]@ == s);
                    } else {
                        assert(distinct@[j]@ == names@[i as int]@);
                        assert(cur[i as int]@ == s);
                    }
                    assert(contains_view(cur, s));
                }
            }
        }
        i = i + 1;
    }
    proof {
        assert(names@.take(names@.len() as int) =~= names@);
    }
    let ghost dviews = views_of(distinct@);
    let r = sort_strings(distinct);
    proof {
        let rviews = views_of(r@);
        dviews.lemma_multiset_has_no_duplicates();
        rviews.lemma_multiset_has_no_duplicates_conv();
        dviews.to_multiset_ensures();
        rviews.to_multiset_ensures();
        assert forall|s: Seq<char>| #[trigger] contains_view(r@, s) == contains_view(
            distinct@,
            s,
        ) by {
            if contains_view(distinct@, s) {
                let j = choose|j: int| 0 <= j < distinct@.len() && distinct@[j]@ == s;
                assert(dviews[j] == s);
                assert(dviews.contains(s));
                assert(rviews.to_multiset().contains(s));
                assert(rviews.contains(s));
                let k = choose|k: int| 0 <= k < rviews.len() && rviews[k] == s;
                assert(r@[k]@ == s);
            }
            if contains_view(r@, s) {
                let j = choose|j: int| 0 <= j < r@.len() && r@[j]@ == s;
                assert(rviews[j] == s);
                assert(rviews.contains(s));
                assert(dviews.to_multiset().contains(s));
                assert(dviews.contains(s));
                let k = choose|k: int| 0 <= k < dviews.len() && dviews[k] == s;
                assert(distinct@[k]@ == s);
            }
        }
    }
    r
}

} // verus!
