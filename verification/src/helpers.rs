//! Small string utilities shared across the crate: string equality and
//! lexicographic comparison, sorting of name lists, and comma-joining for
//! diagnostic messages.

use vstd::prelude::*;
use vstd::string::StrSliceExecFns;
use vstd::string::StringExecFns;
use vstd::seq_lib::to_multiset_insert;

verus! {

/// Character-for-character equality of two string slices.
pub fn str_eq(a: &str, b: &str) -> (r: bool)
    ensures
        r == (a@ == b@),
{
    let alen = a.unicode_len();
    let blen = b.unicode_len();
    if alen != blen {
        return false;
    }
    let mut i: usize = 0;
    while i < alen
        invariant
            alen == a@.len(),
            alen == b@.len(),
            i <= alen,
            forall|j: int| 0 <= j < i ==> a@[j] == b@[j],
        decreases alen - i,
    {
        if a.get_char(i) != b.get_char(i) {
            return false;
        }
        i += 1;
    }
    proof {
        assert(a@ =~= b@);
    }
    true
}

/// Lexicographic order on character sequences, by code point.
pub open spec fn lex_le(a: Seq<char>, b: Seq<char>) -> bool
    decreases a.len(),
{
    if a.len() == 0 {
        true
    } else if b.len() == 0 {
        false
    } else if (a[0] as u32) == (b[0] as u32) {
        lex_le(a.drop_first(), b.drop_first())
    } else {
        (a[0] as u32) < (b[0] as u32)
    }
}

/// The lexicographic order is total.
pub proof fn lemma_lex_le_total(a: Seq<char>, b: Seq<char>)
    ensures
        lex_le(a, b) || lex_le(b, a),
    decreases a.len(),
{
    if a.len() == 0 || b.len() == 0 {
    } else if (a[0] as u32) == (b[0] as u32) {
        lemma_lex_le_total(a.drop_first(), b.drop_first());
    }
}

/// Dropping a common prefix does not change the order.
proof fn lemma_lex_le_skip(a: Seq<char>, b: Seq<char>, i: int)
    requires
        0 <= i <= a.len(),
        i <= b.len(),
        forall|j: int| 0 <= j < i ==> (#[trigger] a[j] as u32) == (b[j] as u32),
    ensures
        lex_le(a, b) == lex_le(a.skip(i), b.skip(i)),
    decreases i,
{
    if i > 0 {
        assert(a.len() > 0 && b.len() > 0 && (a[0] as u32) == (b[0] as u32));
        lemma_lex_le_skip(a.drop_first(), b.drop_first(), i - 1);
        assert(a.drop_first().skip(i - 1) =~= a.skip(i));
        assert(b.drop_first().skip(i - 1) =~= b.skip(i));
    } else {
        assert(a.skip(0) =~= a);
        assert(b.skip(0) =~= b);
    }
}

/// Decides `lex_le` on two string slices.
pub fn str_le(a: &str, b: &str) -> (r: bool)
    ensures
        r == lex_le(a@, b@),
{
    let alen = a.unicode_len();
    let blen = b.unicode_len();
    let mut i: usize = 0;
    loop
        invariant
            alen == a@.len(),
            blen == b@.len(),
            i <= alen,
            i <= blen,
            forall|j: int| 0 <= j < i ==> (#[trigger] a@[j] as u32) == (b@[j] as u32),
        decreases alen - i,
    {
        if i == alen {
            proof {
                lemma_lex_le_skip(a@, b@, i as int);
            }
            return true;
        }
        if i == blen {
            proof {
                lemma_lex_le_skip(a@, b@, i as int);
            }
            return false;
        }
        let ca = a.get_char(i) as u32;
        let cb = b.get_char(i) as u32;
        if ca != cb {
            proof {
                lemma_lex_le_skip(a@, b@, i as int);
            }
            return ca < cb;
        }
        i += 1;
    }
}

/// Whether `p` is a prefix of `s`, character for character.
pub fn str_has_prefix(s: &str, p: &str) -> (r: bool)
    ensures
        r == (p@.len() <= s@.len() && s@.take(p@.len() as int) == p@),
{
    let pl = p.unicode_len();
    let sl = s.unicode_len();
    if pl > sl {
        return false;
    }
    let mut i: usize = 0;
    while i < pl
        invariant
            pl == p@.len(),
            sl == s@.len(),
            pl <= sl,
            i <= pl,
            forall|j: int| 0 <= j < i ==> s@[j] == p@[j],
        decreases pl - i,
    {
        if s.get_char(i) != p.get_char(i) {
            proof {
                assert(s@.take(pl as int)[i as int] != p@[i as int]);
            }
            return false;
        }
        i += 1;
    }
    proof {
        assert(s@.take(pl as int) =~= p@);
    }
    true
}

/// The character sequences of a sequence of owned strings.
pub open spec fn views(s: Seq<String>) -> Seq<Seq<char>> {
    s.map_values(|x: String| x@)
}

proof fn lemma_views_remove(s: Seq<String>, i: int)
    requires
        0 <= i < s.len(),
    ensures
        views(s.remove(i)) =~= views(s).remove(i),
{
    s.remove_ensures(i);
    views(s).remove_ensures(i);
}

proof fn lemma_views_insert(s: Seq<String>, i: int, x: String)
    requires
        0 <= i <= s.len(),
    ensures
        views(s.insert(i, x)) =~= views(s).insert(i, x@),
{
    s.insert_ensures(i, x);
    views(s).insert_ensures(i, x@);
}

/// Adjacent-pair sortedness under `lex_le`.
pub open spec fn strings_sorted(s: Seq<Seq<char>>) -> bool {
    forall|i: int| 0 <= i && i + 1 < s.len() ==> lex_le(#[trigger] s[i], s[i + 1])
}

/// Sorts a vector of strings lexicographically.  The result holds exactly the
/// strings of the input, as a multiset of character sequences.
pub fn sort_strings(v: Vec<String>) -> (r: Vec<String>)
    ensures
        strings_sorted(views(r@)),
        views(r@).to_multiset() == views(v@).to_multiset(),
        r@.len() == v@.len(),
{
    broadcast use vstd::seq_lib::group_to_multiset_ensures;
    broadcast use vstd::multiset::group_multiset_axioms;

    let ghost orig = views(v@);
    let mut v = v;
    if v.len() == 0 {
        return v;
    }
    let mut i: usize = 1;
    while i < v.len()
        invariant
            views(v@).to_multiset() == orig.to_multiset(),
            v@.len() == orig.len(),
            1 <= i <= v@.len(),
            strings_sorted(views(v@).take(i as int)),
        decreases v@.len() - i,
    {
        let ghost sv = v@;
        let ghost s = views(v@);
        let x = v.remove(i);
        let ghost w = views(v@);
        proof {
            lemma_views_remove(sv, i as int);
            assert(w =~= s.remove(i as int));
            s.remove_ensures(i as int);
            // the sorted prefix is unchanged by the removal
            assert forall|k: int| 0 <= k && k + 1 < i implies lex_le(#[trigger] w[k], w[k + 1]) by {
                assert(s.take(i as int)[k] == s[k]);
                assert(s.take(i as int)[k + 1] == s[k + 1]);
                assert(lex_le(s.take(i as int)[k], s.take(i as int)[k + 1]));
            }
            assert(s[i as int] == x@);
        }
        let mut p: usize = i;
        loop
            invariant
                p <= i,
                i <= w.len(),
                w == views(v@),
                forall|k: int| p <= k < i ==> lex_le(x@, #[trigger] w[k]),
            ensures
                p <= i,
                p == 0 || lex_le(w[p - 1], x@),
                forall|k: int| p <= k < i ==> lex_le(x@, #[trigger] w[k]),
            decreases p,
        {
            if p == 0 {
                break;
            }
            if str_le(v[p - 1].as_str(), x.as_str()) {
                break;
            }
            proof {
                lemma_lex_le_total(w[p - 1], x@);
            }
            p -= 1;
        }
        let ghost p0 = p as int;
        let ghost wv = v@;
        let ghost xs = x;
        v.insert(p, x);
        proof {
            lemma_views_insert(wv, p0, xs);
            let u = views(v@);
            assert(u =~= w.insert(p0, xs@));
            w.insert_ensures(p0, xs@);
            // contents are preserved
            to_multiset_insert(w, p0, xs@);
            vstd::seq_lib::to_multiset_remove(s, i as int);
            vstd::seq_lib::to_multiset_contains(s, xs@);
            assert(s[i as int] == xs@);
            assert(s.contains(xs@));
            assert(s.to_multiset().count(xs@) > 0);
            assert(w.to_multiset() == s.remove(i as int).to_multiset());
            assert(s.remove(i as int).to_multiset() =~= s.to_multiset().remove(s[i as int]));
            assert(u.to_multiset() == w.to_multiset().insert(xs@));
            assert(u.to_multiset() =~= s.to_multiset());
            // the longer prefix is sorted
            assert forall|k: int| 0 <= k && k + 1 < i + 1 implies lex_le(
                #[trigger] u[k],
                u[k + 1],
            ) by {
                if k + 1 < p0 {
                    assert(u[k] == w[k] && u[k + 1] == w[k + 1]);
                } else if k + 1 == p0 {
                    assert(u[k] == w[k] && u[k + 1] == xs@);
                } else if k == p0 {
                    assert(u[k] == xs@ && u[k + 1] == w[k]);
                } else {
                    assert(u[k] == w[k - 1] && u[k + 1] == w[k]);
                }
            }
            assert forall|k: int|
                0 <= k && k + 1 < i + 1 implies lex_le(
                #[trigger] views(v@).take(i + 1)[k],
                views(v@).take(i + 1)[k + 1],
            ) by {
                assert(views(v@).take(i + 1)[k] == u[k]);
                assert(views(v@).take(i + 1)[k + 1] == u[k + 1]);
            }
            assert(strings_sorted(views(v@).take(i + 1)));
        }
        i += 1;
    }
    proof {
        assert(views(v@).take(v@.len() as int) =~= views(v@));
    }
    v
}

/// `elts` joined with a comma and a space between neighbours.
pub open spec fn comma_join(elts: Seq<Seq<char>>) -> Seq<char>
    decreases elts.len(),
{
    if elts.len() == 0 {
        Seq::empty()
    } else if elts.len() == 1 {
        elts[0]
    } else {
        comma_join(elts.drop_last()) + ", "@ + elts.last()
    }
}

/// Joins owned strings with `", "`.
pub fn join_commas(v: &Vec<String>) -> (r: String)
    ensures
        r@ == comma_join(views(v@)),
{
    let mut out = String::new();
    let mut i: usize = 0;
    while i < v.len()
        invariant
            i <= v@.len(),
            out@ == comma_join(views(v@).take(i as int)),
        decreases v@.len() - i,
    {
        if i > 0 {
            out.append(", ");
        }
        let s: &String = &v[i];
        out.append(s.as_str());
        proof {
            let t = views(v@).take(i + 1);
            assert(t.drop_last() =~= views(v@).take(i as int));
            assert(t.last() == views(v@)[i as int]);
            if i == 0 {
                assert(out@ =~= t[0]);
            } else {
                assert(out@ =~= comma_join(t.drop_last()) + ", "@ + t.last());
            }
        }
        i += 1;
    }
    proof {
        assert(views(v@).take(v@.len() as int) =~= views(v@));
    }
    out
}

/// The character sequences of a sequence of string slices.
pub open spec fn slice_views(s: Seq<&str>) -> Seq<Seq<char>> {
    s.map_values(|x: &str| x@)
}

/// Joins string slices with `", "`.
pub fn join_commas_str(v: &Vec<&str>) -> (r: String)
    ensures
        r@ == comma_join(slice_views(v@)),
{
    let mut out = String::new();
    let mut i: usize = 0;
    while i < v.len()
        invariant
            i <= v@.len(),
            out@ == comma_join(slice_views(v@).take(i as int)),
        decreases v@.len() - i,
    {
        if i > 0 {
            out.append(", ");
        }
        out.append(v[i]);
        proof {
            let t = slice_views(v@).take(i + 1);
            assert(t.drop_last() =~= slice_views(v@).take(i as int));
            assert(t.last() == slice_views(v@)[i as int]);
            if i == 0 {
                assert(out@ =~= t[0]);
            } else {
                assert(out@ =~= comma_join(t.drop_last()) + ", "@ + t.last());
            }
        }
        i += 1;
    }
    proof {
        assert(slice_views(v@).take(v@.len() as int) =~= slice_views(v@));
    }
    out
}

} // verus!
