//! The address of the catalog page of an identifier.

use vstd::prelude::*;
use crate::text::{chars_of, string_of, holds_at, stands_at};
use crate::work::{WorkType, classified, classify_normalized, uppercase};

verus! {

/// The placeholder that a page-address template holds in place of the
/// identifier.
pub open spec fn placeholder() -> Seq<char> {
    seq!['{', 'i', 'd', '}']
}

/// The template `t` from position `i` on, with `id` in place of every
/// placeholder. Placeholders are found from left to right and do not
/// overlap.
pub open spec fn filled_from(t: Seq<char>, i: int, id: Seq<char>) -> Seq<char>
    decreases t.len() - i,
{
    if i < 0 || i >= t.len() {
        Seq::empty()
    } else if holds_at(t, i, placeholder()) {
        id + filled_from(t, i + 4, id)
    } else {
        seq![t[i]] + filled_from(t, i + 1, id)
    }
}

/// The template `t` with `id` in place of every placeholder.
pub open spec fn filled(t: Seq<char>, id: Seq<char>) -> Seq<char> {
    filled_from(t, 0, id)
}

/// Puts `id` in place of every placeholder of `template`.
pub fn fill_template(template: &str, id: &str) -> (r: String)
    ensures
        r@ == filled(template@, id@),
{
    let t = chars_of(template);
    let idc = chars_of(id);
    let mark = chars_of("{id}");
    proof {
        reveal_strlit("{id}");
        assert(mark@ =~= placeholder());
    }
    let mut out: Vec<char> = Vec::new();
    let mut i: usize = 0;
    while i < t.len()
        invariant
            i <= t.len(),
            mark@ == placeholder(),
            t@ == template@,
            idc@ == id@,
            out@ + filled_from(t@, i as int, id@) == filled(t@, id@),
        decreases t.len() - i,
    {
        if stands_at(&t, i, &mark) {
            let mut k: usize = 0;
            let ghost before = out@;
            while k < idc.len()
                invariant
                    k <= idc.len(),
                    out@ == before + idc@.take(k as int),
                decreases idc.len() - k,
            {
                out.push(idc[k]);
                k = k + 1;
            }
            assert(idc@.take(idc.len() as int) =~= idc@);
            assert(out@ + filled_from(t@, i + 4, id@) =~= before + (id@ + filled_from(
                t@,
                i + 4,
                id@,
            )));
            i = i + 4;
        } else {
            let ghost before = out@;
            out.push(t[i]);
            assert(out@ + filled_from(t@, i + 1, id@) =~= before + (seq![t@[i as int]]
                + filled_from(t@, i + 1, id@)));
            i = i + 1;
        }
    }
    assert(out@ + Seq::<char>::empty() =~= out@);
    string_of(&out)
}

/// From `i` up to `j` the template holds no opening brace, so that stretch
/// is copied as it stands.
pub proof fn lemma_fill_plain(t: Seq<char>, i: int, j: int, id: Seq<char>)
    requires
        0 <= i <= j <= t.len(),
        forall|k: int| i <= k < j ==> t[k] != '{',
    ensures
        filled_from(t, i, id) == t.subrange(i, j) + filled_from(t, j, id),
    decreases j - i,
{
    if i == j {
        assert(t.subrange(i, j) + filled_from(t, j, id) =~= filled_from(t, j, id));
    } else {
        assert(!holds_at(t, i, placeholder())) by {
            if holds_at(t, i, placeholder()) {
                assert(t.subrange(i, i + 4)[0] == '{');
            }
        }
        lemma_fill_plain(t, i + 1, j, id);
        assert(seq![t[i]] + (t.subrange(i + 1, j) + filled_from(t, j, id)) =~= t.subrange(i, j)
            + filled_from(t, j, id));
    }
}

/// A template with one placeholder, and no opening brace elsewhere, is
/// filled by putting the identifier between what stands before the
/// placeholder and what stands after it.
pub proof fn lemma_fill_single(prefix: Seq<char>, suffix: Seq<char>, id: Seq<char>)
    requires
        forall|k: int| 0 <= k < prefix.len() ==> prefix[k] != '{',
        forall|k: int| 0 <= k < suffix.len() ==> suffix[k] != '{',
    ensures
        filled(prefix + placeholder() + suffix, id) == prefix + id + suffix,
{
    let t = prefix + placeholder() + suffix;
    let p = prefix.len() as int;
    lemma_fill_plain(t, 0, p, id);
    assert(t.subrange(0, p) =~= prefix);
    assert(holds_at(t, p, placeholder())) by {
        assert(t.subrange(p, p + 4) =~= placeholder());
    }
    lemma_fill_plain(t, p + 4, t.len() as int, id);
    assert(t.subrange(p + 4, t.len() as int) =~= suffix);
    assert(filled_from(t, t.len() as int, id) =~= Seq::<char>::empty());
    assert(prefix + (id + (suffix + Seq::<char>::empty())) =~= prefix + id + suffix);
}

/// What stands before the identifier in the page address of a work type.
pub open spec fn url_prefix(work: WorkType) -> Seq<char> {
    match work {
        WorkType::Rj => "https://www.dlsite.com/maniax/work/=/product_id/"@,
        WorkType::Vj => "https://www.dlsite.com/pro/work/=/product_id/"@,
        WorkType::Bj => "https://www.dlsite.com/books/work/=/product_id/"@,
    }
}

/// What stands after the identifier in every page address.
pub open spec fn url_suffix() -> Seq<char> {
    ".html"@
}

/// The page address of a work type, filled with an identifier, is the
/// address prefix of the work type, the identifier, and `.html`.
pub proof fn lemma_url_shape(work: WorkType, id: Seq<char>)
    ensures
        filled(work.url_template_spec(), id) == url_prefix(work) + id + url_suffix(),
{
    reveal_strlit(".html");
    match work {
        WorkType::Rj => {
            reveal_strlit("https://www.dlsite.com/maniax/work/=/product_id/{id}.html");
            reveal_strlit("https://www.dlsite.com/maniax/work/=/product_id/");
        },
        WorkType::Vj => {
            reveal_strlit("https://www.dlsite.com/pro/work/=/product_id/{id}.html");
            reveal_strlit("https://www.dlsite.com/pro/work/=/product_id/");
        },
        WorkType::Bj => {
            reveal_strlit("https://www.dlsite.com/books/work/=/product_id/{id}.html");
            reveal_strlit("https://www.dlsite.com/books/work/=/product_id/");
        },
    }
    assert(work.url_template_spec() =~= url_prefix(work) + placeholder() + url_suffix());
    lemma_fill_single(url_prefix(work), url_suffix(), id);
}

/// What `get_page_url` answers for an identifier of no known format.
pub open spec fn invalid_id_marker() -> Seq<char> {
    "Invalid_Work_Id"@
}

/// The page address of `id`: the template of its work type, filled with the
/// identifier in upper case.
pub open spec fn page_url_of(id: Seq<char>) -> Seq<char> {
    match classified(uppercase(id)) {
        Some(w) => filled(w.url_template_spec(), uppercase(id)),
        None => invalid_id_marker(),
    }
}

/// The page address of `id` under the work type `work`.
pub fn page_url(work: WorkType, id: &str) -> (r: String)
    ensures
        r@ == filled(work.url_template_spec(), uppercase(id@)),
        r@ == url_prefix(work) + uppercase(id@) + url_suffix(),
{
    let upper = id.to_uppercase();
    proof {
        lemma_url_shape(work, upper@);
    }
    fill_template(work.url_template(), upper.as_str())
}

/// The page address of `id`, or the marker `Invalid_Work_Id` where the
/// identifier has no known format.
pub fn get_page_url(id: &str) -> (r: String)
    ensures
        r@ == page_url_of(id@),
{
    let upper = id.to_uppercase();
    match classify_normalized(upper.as_str()) {
        Some(w) => fill_template(w.url_template(), upper.as_str()),
        None => "Invalid_Work_Id".to_owned(),
    }
}

} // verus!
