//! The order in which paths are listed: component by component, which on
//! normalised paths is character order with the separator `/` ranked below
//! every other character.

use vstd::prelude::*;

verus! {

broadcast use vstd::seq_lib::group_seq_properties;

/// `x` comes strictly before `y` in path order: the separator before every
/// other character, and other characters in their usual order.
pub open spec fn char_before(x: char, y: char) -> bool {
    x != y && (x == '/' || (y != '/' && x < y))
}

/// `a` comes no later than `b` in path order.
pub open spec fn path_le(a: Seq<char>, b: Seq<char>) -> bool
    decreases a.len(),
{
    if a.len() == 0 {
        true
    } else if b.len() == 0 {
        false
    } else if a[0] != b[0] {
        char_before(a[0], b[0])
    } else {
        path_le(a.drop_first(), b.drop_first())
    }
}

/// The separator comes before every other character, other characters come in
/// their usual order, and a path comes before every longer path it begins.
pub proof fn lemma_path_order_facts(a: Seq<char>, b: Seq<char>, x: char, y: char)
    ensures
        x != '/' ==> char_before('/', x) && !char_before(x, '/'),
        x != '/' && y != '/' && x < y ==> char_before(x, y),
        path_le(a, a + b),
        a.len() > 0 && b.len() > 0 && a[0] != b[0] && a[0] != '/' && b[0] != '/' && a[0] < b[0]
            ==> path_le(a, b) && !path_le(b, a),
    decreases a.len(),
{
    if a.len() > 0 {
        assert((a + b)[0] == a[0]);
        assert((a + b).drop_first() =~= a.drop_first() + b);
        lemma_path_order_facts(a.drop_first(), b, x, y);
    }
}

/// A sequence of strings listed in path order.
pub open spec fn sorted_paths(s: Seq<String>) -> bool {
    forall|i: int, j: int| 0 <= i < j < s.len() ==> path_le(#[trigger] s[i]@, #[trigger] s[j]@)
}

/// Any two sequences are comparable in path order.
pub proof fn lemma_path_le_total(a: Seq<char>, b: Seq<char>)
    ensures
        path_le(a, b) || path_le(b, a),
    decreases a.len(),
{
    if a.len() > 0 && b.len() > 0 && a[0] == b[0] {
        lemma_path_le_total(a.drop_first(), b.drop_first());
    }
}

/// Path order is transitive.
pub proof fn lemma_path_le_trans(a: Seq<char>, b: Seq<char>, c: Seq<char>)
    requires
        path_le(a, b),
        path_le(b, c),
    ensures
        path_le(a, c),
    decreases a.len(),
{
    if a.len() > 0 && b.len() > 0 && c.len() > 0 && a[0] == b[0] && b[0] == c[0] {
        lemma_path_le_trans(a.drop_first(), b.drop_first(), c.drop_first());
    }
}

/// Path order is antisymmetric: two sequences that each come no later than
/// the other are the same sequence.
pub proof fn lemma_path_le_antisym(a: Seq<char>, b: Seq<char>)
    requires
        path_le(a, b),
        path_le(b, a),
    ensures
        a == b,
    decreases a.len(),
{
    if a.len() > 0 && b.len() > 0 {
        assert(a[0] == b[0]);
        lemma_path_le_antisym(a.drop_first(), b.drop_first());
        assert(a =~= seq![a[0]] + a.drop_first());
        assert(b =~= seq![b[0]] + b.drop_first());
    } else {
        assert(a =~= b);
    }
}

/// Path order is reflexive.
pub proof fn lemma_path_le_refl(a: Seq<char>)
    ensures
        path_le(a, a),
{
    lemma_path_le_total(a, a);
}

/// Whether `a` comes no later than `b` in path order.
pub fn path_le_exec(a: &str, b: &str) -> (r: bool)
    ensures
        r == path_le(a@, b@),
{
    let na = a.unicode_len();
    let nb = b.unicode_len();
    let mut i: usize = 0;
    while i < na && i < nb
        invariant
            na == a@.len(),
            nb == b@.len(),
            i <= na,
            i <= nb,
            path_le(a@, b@) == path_le(a@.skip(i as int), b@.skip(i as int)),
        decreases na - i,
    {
        let ca = a.get_char(i);
        let cb = b.get_char(i);
        assert(a@.skip(i as int)[0] == ca && b@.skip(i as int)[0] == cb);
        if ca != cb {
            if ca == '/' {
                return true;
            } else if cb == '/' {
                return false;
            } else {
                return ca < cb;
            }
        }
        assert(a@.skip(i as int).drop_first() =~= a@.skip(i + 1));
        assert(b@.skip(i as int).drop_first() =~= b@.skip(i + 1));
        i = i + 1;
    }
    i == na
}

/// Index of an earliest element of `v[from..]` in path order.
fn min_index(v: &Vec<String>, from: usize) -> (m: usize)
    requires
        from < v@.len(),
    ensures
        from <= m < v@.len(),
        forall|k: int| from <= k < v@.len() ==> path_le(v@[m as int]@, #[trigger] v@[k]@),
{
    let mut m = from;
    let mut i = from;
    while i < v.len()
        invariant
            from <= m < v@.len(),
            from <= i <= v@.len(),
            forall|k: int| from <= k < i ==> path_le(v@[m as int]@, #[trigger] v@[k]@),
        decreases v@.len() - i,
    {
        if !path_le_exec(v[m].as_str(), v[i].as_str()) {
            let ghost old_m = m;
            proof {
                lemma_path_le_total(v@[old_m as int]@, v@[i as int]@);
                assert forall|k: int| from <= k <= i implies path_le(v@[i as int]@, #[trigger] v@[k]@) by {
                    if k < i {
                        lemma_path_le_trans(v@[i as int]@, v@[old_m as int]@, v@[k]@);
                    } else {
                        lemma_path_le_refl(v@[i as int]@);
                    }
                }
            }
            m = i;
        }
        i = i + 1;
    }
    m
}

/// Sort `paths` into path order.
pub fn sort_paths(paths: Vec<String>) -> (r: Vec<String>)
    ensures
        sorted_paths(r@),
        r@.to_multiset() == paths@.to_multiset(),
{
    let mut rest = paths;
    let mut out: Vec<String> = Vec::new();
    while rest.len() > 0
        invariant
            sorted_paths(out@),
            out@.to_multiset().add(rest@.to_multiset()) == paths@.to_multiset(),
            forall|i: int, j: int|
                0 <= i < out@.len() && 0 <= j < rest@.len() ==> path_le(
                    #[trigger] out@[i]@,
                    #[trigger] rest@[j]@,
                ),
        decreases rest@.len(),
    {
        let m = min_index(&rest, 0);
        let ghost before = rest@;
        let x = rest.remove(m);
        proof {
            assert(rest@ == before.remove(m as int));
            assert(before.remove(m as int).to_multiset() =~= before.to_multiset().remove(before[m as int]));
            assert(before.to_multiset().count(x) > 0);
        }
        let ghost out_before = out@;
        out.push(x);
        proof {
            assert(out_before.push(x).to_multiset() =~= out_before.to_multiset().insert(x));
            assert(out@.to_multiset().add(rest@.to_multiset()) =~= paths@.to_multiset());
            assert forall|i: int, j: int| 0 <= i < j < out@.len() implies path_le(
                #[trigger] out@[i]@,
                #[trigger] out@[j]@,
            ) by {
                if j == out@.len() - 1 {
                    assert(out@[i] == out_before[i]);
                    assert(before[m as int] == x);
                } else {
                    assert(out@[i] == out_before[i] && out@[j] == out_before[j]);
                }
            }
            assert forall|i: int, j: int|
                0 <= i < out@.len() && 0 <= j < rest@.len() implies path_le(
                #[trigger] out@[i]@,
                #[trigger] rest@[j]@,
            ) by {
                let jj = if j < m { j } else { j + 1 };
                assert(rest@[j] == before[jj]);
                if i < out@.len() - 1 {
                    assert(out@[i] == out_before[i]);
                } else {
                    assert(path_le(before[m as int]@, before[jj]@));
                }
            }
        }
    }
    proof {
        assert(rest@.to_multiset() =~= vstd::multiset::Multiset::empty());
        assert(out@.to_multiset().add(vstd::multiset::Multiset::empty()) =~= out@.to_multiset());
    }
    out
}

/// Listing in path order leaves nothing to chance: two sorted lists that hold
/// the same elements read the same, position by position, whatever order the
/// elements were found in.
pub proof fn lemma_sorted_paths_unique(a: Seq<String>, b: Seq<String>)
    requires
        sorted_paths(a),
        sorted_paths(b),
        a.to_multiset() == b.to_multiset(),
    ensures
        a.len() == b.len(),
        forall|k: int| 0 <= k < a.len() ==> #[trigger] a[k]@ == b[k]@,
    decreases a.len(),
{
    broadcast use vstd::multiset::group_multiset_axioms;

    assert(a.len() == a.to_multiset().len() && b.len() == b.to_multiset().len());
    if a.len() > 0 {
        assert(a.contains(a[0]));
        assert(b.to_multiset().count(a[0]) > 0);
        assert(b.contains(a[0]));
        let j = choose|j: int| 0 <= j < b.len() && b[j] == a[0];
        assert(b.contains(b[0]));
        assert(a.to_multiset().count(b[0]) > 0);
        assert(a.contains(b[0]));
        let i = choose|i: int| 0 <= i < a.len() && a[i] == b[0];
        if i > 0 {
            assert(path_le(a[0]@, a[i]@));
        } else {
            lemma_path_le_refl(a[0]@);
        }
        if j > 0 {
            assert(path_le(b[0]@, b[j]@));
        } else {
            lemma_path_le_refl(b[0]@);
        }
        lemma_path_le_antisym(a[0]@, b[0]@);
        let a2 = a.drop_first();
        let b2 = b.remove(j);
        assert(a2 =~= a.remove(0));
        assert(a2.to_multiset() =~= a.to_multiset().remove(a[0]));
        assert(b2.to_multiset() =~= b.to_multiset().remove(b[j]));
        assert(sorted_paths(a2)) by {
            assert forall|x: int, y: int| 0 <= x < y < a2.len() implies path_le(
                #[trigger] a2[x]@,
                #[trigger] a2[y]@,
            ) by {
                assert(a2[x] == a[x + 1] && a2[y] == a[y + 1]);
            }
        }
        assert(sorted_paths(b2)) by {
            assert forall|x: int, y: int| 0 <= x < y < b2.len() implies path_le(
                #[trigger] b2[x]@,
                #[trigger] b2[y]@,
            ) by {
                let xx = if x < j { x } else { x + 1 };
                let yy = if y < j { y } else { y + 1 };
                assert(b2[x] == b[xx] && b2[y] == b[yy]);
            }
        }
        lemma_sorted_paths_unique(a2, b2);
        assert forall|k: int| 0 <= k < a.len() implies #[trigger] a[k]@ == b[k]@ by {
            if k == 0 {
            } else if k <= j {
                // everything in b[0..=j] reads as b[0]
                assert forall|m: int| 0 <= m <= j implies #[trigger] b[m]@ == b[0]@ by {
                    if 0 < m {
                        assert(path_le(b[0]@, b[m]@));
                        if m < j {
                            assert(path_le(b[m]@, b[j]@));
                        } else {
                            lemma_path_le_refl(b[m]@);
                        }
                        lemma_path_le_antisym(b[m]@, b[0]@);
                    }
                }
                assert(b[k]@ == b[0]@ && b[k - 1]@ == b[0]@);
                assert(b2[k - 1] == b[k - 1]);
                assert(a2[k - 1]@ == b2[k - 1]@);
                assert(a[k] == a2[k - 1]);
            } else {
                assert(b2[k - 1] == b[k]);
                assert(a[k] == a2[k - 1]);
                assert(a2[k - 1]@ == b2[k - 1]@);
            }
        }
    }
}

/// No two elements of `s` read the same.
pub open spec fn distinct_views(s: Seq<String>) -> bool {
    forall|i: int, j: int| 0 <= i < s.len() && 0 <= j < s.len() && i != j ==> #[trigger] s[i]@ != #[trigger] s[j]@
}

/// A rearrangement of a sequence whose elements read differently keeps them
/// reading differently, and holds the same elements.
pub proof fn lemma_distinct_views_perm(a: Seq<String>, b: Seq<String>)
    requires
        a.to_multiset() == b.to_multiset(),
        distinct_views(a),
    ensures
        distinct_views(b),
        forall|k: int| 0 <= k < b.len() ==> #[trigger] a.contains(b[k]),
        forall|k: int| 0 <= k < a.len() ==> #[trigger] b.contains(a[k]),
{
    broadcast use vstd::multiset::group_multiset_axioms;

    assert(a.no_duplicates()) by {
        assert forall|i: int, j: int| 0 <= i < a.len() && 0 <= j < a.len() && i != j implies a[i]
            != a[j] by {
            assert(a[i]@ != a[j]@);
        }
    }
    a.lemma_multiset_has_no_duplicates();
    b.lemma_multiset_has_no_duplicates_conv();
    assert forall|k: int| 0 <= k < b.len() implies #[trigger] a.contains(b[k]) by {
        assert(b.contains(b[k]));
        assert(b.to_multiset().count(b[k]) > 0);
    }
    assert forall|k: int| 0 <= k < a.len() implies #[trigger] b.contains(a[k]) by {
        assert(a.contains(a[k]));
        assert(a.to_multiset().count(a[k]) > 0);
    }
    assert forall|i: int, j: int| 0 <= i < b.len() && 0 <= j < b.len() && i != j implies #[trigger] b[i]@
        != #[trigger] b[j]@ by {
        assert(b[i] != b[j]);
        assert(a.contains(b[i]));
        assert(a.contains(b[j]));
        let p = choose|p: int| 0 <= p < a.len() && a[p] == b[i];
        let q = choose|q: int| 0 <= q < a.len() && a[q] == b[j];
        assert(p != q);
    }
}

} // verus!
