//! The scan of one directory: its entries in order, and the candidates
//! among them.

use vstd::prelude::*;
use vstd::seq_lib::{to_multiset_build, to_multiset_insert};
use crate::entry::{CandidateEntry, EntryView, is_blocked_extension};
use crate::text::{
    chars_of,
    lex_before_or_equal,
    lex_le,
    lemma_lex_le_total,
    lemma_lex_le_transitive,
};

verus! {

/// `a` comes before `b`, or beside it, when entries are ordered by name.
pub open spec fn name_le(a: EntryView, b: EntryView) -> bool {
    lex_le(a.name, b.name)
}

/// The entries stand in the order of their names.
pub open spec fn is_ordered(s: Seq<EntryView>) -> bool {
    forall|i: int, j: int| 0 <= i <= j < s.len() ==> name_le(s[i], s[j])
}

/// Where `x` goes in the ordered sequence `t`: behind the last entry that
/// does not come after it.
pub open spec fn insert_position(t: Seq<EntryView>, x: EntryView) -> int
    decreases t.len(),
{
    if t.len() == 0 {
        0
    } else if name_le(t.last(), x) {
        t.len() as int
    } else {
        insert_position(t.drop_last(), x)
    }
}

/// The entries of `s` ordered by name; entries of the same name keep the
/// order in which they came.
pub open spec fn sorted_by_name(s: Seq<EntryView>) -> Seq<EntryView>
    decreases s.len(),
{
    if s.len() == 0 {
        Seq::empty()
    } else {
        let t = sorted_by_name(s.drop_last());
        t.insert(insert_position(t, s.last()), s.last())
    }
}

/// The candidates among `s`, in the order of `s`.
pub open spec fn selected(s: Seq<EntryView>, file_only: bool) -> Seq<EntryView>
    decreases s.len(),
{
    if s.len() == 0 {
        Seq::empty()
    } else if s.last().is_candidate(file_only) {
        selected(s.drop_last(), file_only).push(s.last())
    } else {
        selected(s.drop_last(), file_only)
    }
}

/// The entries that are renamed, in the order in which they are taken up:
/// the candidates among the entries ordered by name.
pub open spec fn planned(s: Seq<EntryView>, file_only: bool) -> Seq<EntryView> {
    selected(sorted_by_name(s), file_only)
}

/// The insert position lies behind every entry up to `x` and before every
/// entry that comes after `x`.
pub proof fn lemma_insert_position(t: Seq<EntryView>, x: EntryView)
    ensures
        0 <= insert_position(t, x) <= t.len(),
        insert_position(t, x) > 0 ==> name_le(t[insert_position(t, x) - 1], x),
        forall|i: int| insert_position(t, x) <= i < t.len() ==> !name_le(t[i], x),
    decreases t.len(),
{
    if t.len() > 0 && !name_le(t.last(), x) {
        let rest = t.drop_last();
        lemma_insert_position(rest, x);
        assert forall|i: int| insert_position(t, x) <= i < t.len() implies !name_le(t[i], x) by {
            if i < rest.len() {
                assert(t[i] == rest[i]);
            }
        }
        if insert_position(t, x) > 0 {
            assert(t[insert_position(t, x) - 1] == rest[insert_position(rest, x) - 1]);
        }
    }
}

/// Putting an entry at its insert position keeps an ordered sequence
/// ordered.
pub proof fn lemma_insert_keeps_order(t: Seq<EntryView>, x: EntryView)
    requires
        is_ordered(t),
    ensures
        is_ordered(t.insert(insert_position(t, x), x)),
{
    let p = insert_position(t, x);
    let r = t.insert(p, x);
    lemma_insert_position(t, x);
    assert forall|i: int, j: int| 0 <= i <= j < r.len() implies name_le(r[i], r[j]) by {
        if i == j {
            crate::text::lemma_lex_le_reflexive(r[i].name);
        } else if j < p {
            assert(r[i] == t[i] && r[j] == t[j]);
        } else if j == p {
            assert(r[i] == t[i]);
            assert(name_le(t[i], t[p - 1]));
            lemma_lex_le_transitive(t[i].name, t[p - 1].name, x.name);
        } else if i == p {
            assert(r[j] == t[j - 1]);
            assert(!name_le(t[j - 1], x));
            lemma_lex_le_total(t[j - 1].name, x.name);
        } else if i < p {
            assert(r[i] == t[i] && r[j] == t[j - 1]);
        } else {
            assert(r[i] == t[i - 1] && r[j] == t[j - 1]);
        }
    }
}

/// Sorting by name gives an ordered sequence that holds the same entries,
/// each as often as before.
pub proof fn lemma_sorted_by_name(s: Seq<EntryView>)
    ensures
        is_ordered(sorted_by_name(s)),
        sorted_by_name(s).to_multiset() == s.to_multiset(),
        sorted_by_name(s).len() == s.len(),
    decreases s.len(),
{
    if s.len() == 0 {
        assert(sorted_by_name(s) =~= s);
    } else {
        let rest = s.drop_last();
        let t = sorted_by_name(rest);
        lemma_sorted_by_name(rest);
        lemma_insert_position(t, s.last());
        lemma_insert_keeps_order(t, s.last());
        to_multiset_insert(t, insert_position(t, s.last()), s.last());
        to_multiset_build(rest, s.last());
        assert(rest.push(s.last()) =~= s);
    }
}

/// Sorting by name leaves an ordered sequence as it is.
pub proof fn lemma_sorted_fixed(s: Seq<EntryView>)
    requires
        is_ordered(s),
    ensures
        sorted_by_name(s) == s,
    decreases s.len(),
{
    if s.len() > 0 {
        let rest = s.drop_last();
        assert forall|i: int, j: int| 0 <= i <= j < rest.len() implies name_le(rest[i], rest[j]) by {
            assert(rest[i] == s[i] && rest[j] == s[j]);
        }
        lemma_sorted_fixed(rest);
        if rest.len() > 0 {
            assert(rest.last() == s[s.len() - 2]);
            assert(name_le(s[s.len() - 2], s[s.len() - 1]));
        }
        assert(insert_position(rest, s.last()) == rest.len());
        assert(rest.insert(rest.len() as int, s.last()) =~= s);
    }
}

/// Every selected entry is a candidate and stood in the sequence; the
/// selection keeps the order of the sequence.
pub proof fn lemma_selected(s: Seq<EntryView>, file_only: bool)
    ensures
        selected(s, file_only).len() <= s.len(),
        forall|i: int|
            0 <= i < selected(s, file_only).len() ==> (#[trigger] selected(
                s,
                file_only,
            )[i]).is_candidate(file_only) && s.contains(selected(s, file_only)[i]),
        forall|k: int|
            0 <= k < s.len() && (#[trigger] s[k]).is_candidate(file_only) ==> selected(
                s,
                file_only,
            ).contains(s[k]),
        is_ordered(s) ==> is_ordered(selected(s, file_only)),
    decreases s.len(),
{
    if s.len() > 0 {
        let rest = s.drop_last();
        let picked = selected(s, file_only);
        let before = selected(rest, file_only);
        lemma_selected(rest, file_only);
        assert forall|i: int| 0 <= i < picked.len() implies (#[trigger] picked[i]).is_candidate(
            file_only,
        ) && s.contains(picked[i]) by {
            if i < before.len() {
                assert(picked[i] == before[i]);
                let k = choose|k: int| 0 <= k < rest.len() && rest[k] == before[i];
                assert(s[k] == before[i]);
            } else {
                assert(s[s.len() - 1] == picked[i]);
            }
        }
        assert forall|k: int|
            0 <= k < s.len() && (#[trigger] s[k]).is_candidate(file_only) implies picked.contains(
            s[k],
        ) by {
            if k < rest.len() {
                assert(rest[k] == s[k]);
                let i = choose|i: int| 0 <= i < before.len() && before[i] == s[k];
                assert(picked[i] == s[k]);
            } else {
                assert(picked[picked.len() - 1] == s[k]);
            }
        }
        if is_ordered(s) {
            assert forall|i: int, j: int| 0 <= i <= j < rest.len() implies name_le(
                rest[i],
                rest[j],
            ) by {
                assert(rest[i] == s[i] && rest[j] == s[j]);
            }
            assert forall|i: int, j: int| 0 <= i <= j < picked.len() implies name_le(
                picked[i],
                picked[j],
            ) by {
                if j < before.len() {
                    assert(picked[i] == before[i] && picked[j] == before[j]);
                } else if i < before.len() {
                    assert(picked[i] == before[i]);
                    let k = choose|k: int| 0 <= k < rest.len() && rest[k] == before[i];
                    assert(name_le(s[k], s[s.len() - 1]));
                } else {
                    crate::text::lemma_lex_le_reflexive(picked[i].name);
                }
            }
        }
    }
}

/// Tests whether `a` comes before `b`, or beside it, by name.
pub fn name_before_or_equal(a: &CandidateEntry, b: &CandidateEntry) -> (r: bool)
    ensures
        r == name_le(a@, b@),
{
    let x = chars_of(a.name.as_str());
    let y = chars_of(b.name.as_str());
    lex_before_or_equal(&x, &y)
}

/// Orders the entries by name, character by character, by code point.
/// Entries of the same name keep their order.
pub fn sort_entries(entries: &Vec<CandidateEntry>) -> (r: Vec<CandidateEntry>)
    ensures
        r.deep_view() == sorted_by_name(entries.deep_view()),
        is_ordered(r.deep_view()),
        r.deep_view().to_multiset() == entries.deep_view().to_multiset(),
        r.len() == entries.len(),
{
    let ghost model = entries.deep_view();
    let mut out: Vec<CandidateEntry> = Vec::new();
    let mut i: usize = 0;
    assert(out.deep_view() =~= sorted_by_name(model.take(0)));
    while i < entries.len()
        invariant
            i <= entries.len(),
            model == entries.deep_view(),
            model.len() == entries.len(),
            out.deep_view() == sorted_by_name(model.take(i as int)),
            out.len() == i,
        decreases entries.len() - i,
    {
        let x = entries[i].duplicate();
        let ghost t = out.deep_view();
        proof {
            let next = model.take(i + 1);
            assert(next.last() == x@);
            assert(next.drop_last() =~= model.take(i as int));
        }
        let mut j: usize = out.len();
        assert(t.take(j as int) =~= t);
        while j > 0 && !name_before_or_equal(&out[j - 1], &x)
            invariant
                j <= out.len(),
                t == out.deep_view(),
                insert_position(t, x@) == insert_position(t.take(j as int), x@),
            decreases j,
        {
            proof {
                let cur = t.take(j as int);
                assert(cur.last() == out[j - 1]@);
                assert(cur.drop_last() =~= t.take(j - 1));
            }
            j = j - 1;
        }
        proof {
            let cur = t.take(j as int);
            if j > 0 {
                assert(cur.last() == out[j - 1]@);
            }
            assert(insert_position(t, x@) == j);
        }
        out.insert(j, x);
        assert(out.deep_view() =~= t.insert(j as int, x@));
        i = i + 1;
    }
    proof {
        assert(model.take(entries.len() as int) =~= model);
        lemma_sorted_by_name(model);
    }
    out
}

/// Keeps the candidates among the entries, in their order.
pub fn select_candidates(entries: &Vec<CandidateEntry>, file_only: bool) -> (r: Vec<
    CandidateEntry,
>)
    ensures
        r.deep_view() == selected(entries.deep_view(), file_only),
        forall|i: int|
            0 <= i < r.len() ==> (#[trigger] r[i]@).is_candidate(file_only) && entries.deep_view().contains(
                r[i]@,
            ),
        forall|i: int| 0 <= i < r.len() ==> !is_blocked_extension((#[trigger] r[i]@).extension()),
        file_only ==> forall|i: int| 0 <= i < r.len() ==> !(#[trigger] r[i]@).is_dir,
        is_ordered(entries.deep_view()) ==> is_ordered(r.deep_view()),
{
    let ghost model = entries.deep_view();
    let mut out: Vec<CandidateEntry> = Vec::new();
    let mut i: usize = 0;
    assert(out.deep_view() =~= selected(model.take(0), file_only));
    while i < entries.len()
        invariant
            i <= entries.len(),
            model == entries.deep_view(),
            model.len() == entries.len(),
            out.deep_view() == selected(model.take(i as int), file_only),
        decreases entries.len() - i,
    {
        proof {
            let next = model.take(i + 1);
            assert(next.last() == entries[i as int]@);
            assert(next.drop_last() =~= model.take(i as int));
        }
        if entries[i].is_candidate(file_only) {
            let ghost before = out.deep_view();
            out.push(entries[i].duplicate());
            assert(out.deep_view() =~= before.push(entries[i as int]@));
        }
        i = i + 1;
    }
    proof {
        assert(model.take(entries.len() as int) =~= model);
        lemma_selected(model, file_only);
        assert forall|i: int| 0 <= i < out.len() implies (#[trigger] out[i]@).is_candidate(
            file_only,
        ) && model.contains(out[i]@) by {
            assert(out[i]@ == out.deep_view()[i]);
        }
    }
    out
}

/// Plans the renames of one directory: orders its entries by name and
/// keeps the candidates.
pub fn plan_directory(entries: &Vec<CandidateEntry>, file_only: bool) -> (r: Vec<CandidateEntry>)
    ensures
        r.deep_view() == planned(entries.deep_view(), file_only),
        is_ordered(r.deep_view()),
        forall|i: int|
            0 <= i < r.len() ==> (#[trigger] r[i]@).is_candidate(file_only) && entries.deep_view().contains(
                r[i]@,
            ),
        forall|i: int| 0 <= i < r.len() ==> !is_blocked_extension((#[trigger] r[i]@).extension()),
        file_only ==> forall|i: int| 0 <= i < r.len() ==> !(#[trigger] r[i]@).is_dir,
{
    let ordered = sort_entries(entries);
    let r = select_candidates(&ordered, file_only);
    proof {
        assert forall|i: int| 0 <= i < r.len() implies entries.deep_view().contains(r[i]@) by {
            let e = r[i]@;
            assert(ordered.deep_view().contains(e));
            ordered.deep_view().to_multiset_ensures();
            entries.deep_view().to_multiset_ensures();
            assert(ordered.deep_view().to_multiset().count(e) > 0);
        }
    }
    r
}

} // verus!
