//! The display name of a work, safe to use as one path segment.

use vstd::prelude::*;
use crate::extract::ExtractedFields;
use crate::text::{append_chars, chars_of, string_of, trim, trimmed, is_space, lemma_trimmed};

verus! {

/// The characters that a display name must not hold.
pub open spec fn is_reserved(c: char) -> bool {
    ||| c == '/'
    ||| c == '\\'
    ||| c == '?'
    ||| c == '*'
    ||| c == '<'
    ||| c == '>'
    ||| c == '|'
    ||| c == '"'
    ||| c == ':'
    ||| c == '&'
    ||| c == '!'
}

/// The substitution table: what is written in place of `c`. A reserved
/// character gives its full-width form, but for the double quote, which is
/// left out (`None`); any other character stands for itself.
pub open spec fn replacement(c: char) -> Option<char> {
    if c == '/' {
        Some('／')
    } else if c == '\\' {
        Some('＼')
    } else if c == '?' {
        Some('？')
    } else if c == '*' {
        Some('＊')
    } else if c == '<' {
        Some('＜')
    } else if c == '>' {
        Some('＞')
    } else if c == '|' {
        Some('｜')
    } else if c == '"' {
        None
    } else if c == ':' {
        Some('：')
    } else if c == '&' {
        Some('＆')
    } else if c == '!' {
        Some('！')
    } else {
        Some(c)
    }
}

/// `s` with the substitution table applied to each of its characters.
pub open spec fn sanitized(s: Seq<char>) -> Seq<char>
    decreases s.len(),
{
    if s.len() == 0 {
        Seq::empty()
    } else {
        match replacement(s.last()) {
            Some(d) => sanitized(s.drop_last()).push(d),
            None => sanitized(s.drop_last()),
        }
    }
}

/// `s` holds no reserved character.
pub open spec fn is_clean(s: Seq<char>) -> bool {
    forall|i: int| 0 <= i < s.len() ==> !is_reserved(#[trigger] s[i])
}

/// The three fields set out as `[product id][publisher] title`.
pub open spec fn labelled(product_id: Seq<char>, publisher: Seq<char>, title: Seq<char>) -> Seq<
    char,
> {
    seq!['['] + product_id + seq![']', '['] + publisher + seq![']', ' '] + title
}

/// The display name of a work: its fields set out, sanitized, and trimmed.
pub open spec fn composed(product_id: Seq<char>, publisher: Seq<char>, title: Seq<char>) -> Seq<
    char,
> {
    trimmed(sanitized(labelled(product_id, publisher, title)))
}

/// Looks `c` up in the substitution table.
pub fn substitute(c: char) -> (r: Option<char>)
    ensures
        r == replacement(c),
        r matches Some(d) ==> !is_reserved(d),
        !is_reserved(c) ==> r == Some(c),
{
    if c == '/' {
        Some('／')
    } else if c == '\\' {
        Some('＼')
    } else if c == '?' {
        Some('？')
    } else if c == '*' {
        Some('＊')
    } else if c == '<' {
        Some('＜')
    } else if c == '>' {
        Some('＞')
    } else if c == '|' {
        Some('｜')
    } else if c == '"' {
        None
    } else if c == ':' {
        Some('：')
    } else if c == '&' {
        Some('＆')
    } else if c == '!' {
        Some('！')
    } else {
        Some(c)
    }
}

/// No entry of the substitution table writes a reserved character.
pub proof fn lemma_sanitized_clean(s: Seq<char>)
    ensures
        is_clean(sanitized(s)),
        sanitized(s).len() <= s.len(),
    decreases s.len(),
{
    if s.len() > 0 {
        lemma_sanitized_clean(s.drop_last());
    }
}

/// The substitution table leaves a string without reserved characters as it
/// is.
pub proof fn lemma_sanitized_fixed(s: Seq<char>)
    requires
        is_clean(s),
    ensures
        sanitized(s) == s,
    decreases s.len(),
{
    if s.len() > 0 {
        lemma_sanitized_fixed(s.drop_last());
        assert(!is_reserved(s.last()));
        assert(s.drop_last().push(s.last()) =~= s);
    }
}

/// Applying the substitution table a second time changes nothing.
pub proof fn lemma_sanitized_idempotent(s: Seq<char>)
    ensures
        sanitized(sanitized(s)) == sanitized(s),
{
    lemma_sanitized_clean(s);
    lemma_sanitized_fixed(sanitized(s));
}

/// The substitution table as a list of entries, in the order in which they
/// are written down: the character that is replaced, and what is written in
/// its place (`None`: nothing).
pub open spec fn table() -> Seq<(char, Option<char>)> {
    seq![
        ('/', Some('／')),
        ('\\', Some('＼')),
        ('?', Some('？')),
        ('*', Some('＊')),
        ('<', Some('＜')),
        ('>', Some('＞')),
        ('|', Some('｜')),
        ('"', None),
        (':', Some('：')),
        ('&', Some('＆')),
        ('!', Some('！')),
    ]
}

/// `s` with `to` in place of every `from`.
pub open spec fn replaced(s: Seq<char>, from: char, to: Option<char>) -> Seq<char>
    decreases s.len(),
{
    if s.len() == 0 {
        Seq::empty()
    } else if s.last() != from {
        replaced(s.drop_last(), from, to).push(s.last())
    } else {
        match to {
            Some(d) => replaced(s.drop_last(), from, to).push(d),
            None => replaced(s.drop_last(), from, to),
        }
    }
}

/// `s` after entries of the table were applied to the whole string, one
/// after the other; `order` lists the positions of the entries in the
/// order in which they are applied.
pub open spec fn replaced_in_order(s: Seq<char>, order: Seq<int>) -> Seq<char>
    decreases order.len(),
{
    if order.len() == 0 {
        s
    } else {
        let entry = table()[order.last()];
        replaced(replaced_in_order(s, order.drop_last()), entry.0, entry.1)
    }
}

/// The positions of the table in the order in which it is written down.
pub open spec fn table_order() -> Seq<int> {
    Seq::new(table().len(), |i: int| i)
}

/// What has become of the character `c` after the entries at `order` were
/// applied.
spec fn stage(c: char, order: Seq<int>) -> Option<char>
    decreases order.len(),
{
    if order.len() == 0 {
        Some(c)
    } else {
        match stage(c, order.drop_last()) {
            Some(d) => if d == table()[order.last()].0 {
                table()[order.last()].1
            } else {
                Some(d)
            },
            None => None,
        }
    }
}

/// `s` with each character as it stands after the entries at `order`.
spec fn staged(s: Seq<char>, order: Seq<int>) -> Seq<char>
    decreases s.len(),
{
    if s.len() == 0 {
        Seq::empty()
    } else {
        match stage(s.last(), order) {
            Some(d) => staged(s.drop_last(), order).push(d),
            None => staged(s.drop_last(), order),
        }
    }
}

/// Some entry at `order` replaces `c`.
spec fn is_hit(c: char, order: Seq<int>) -> bool {
    exists|i: int| 0 <= i < order.len() && table()[#[trigger] order[i]].0 == c
}

proof fn lemma_stage(c: char, order: Seq<int>)
    requires
        forall|i: int| 0 <= i < order.len() ==> 0 <= #[trigger] order[i] < table().len(),
    ensures
        stage(c, order) == if is_hit(c, order) {
            replacement(c)
        } else {
            Some(c)
        },
    decreases order.len(),
{
    lemma_table_is_replacement();
    if order.len() > 0 {
        let rest = order.drop_last();
        let k = order.last();
        lemma_stage(c, rest);
        assert(is_reserved(table()[k].0));
        if is_hit(c, rest) {
            let i = choose|i: int| 0 <= i < rest.len() && table()[#[trigger] rest[i]].0 == c;
            assert(order[i] == rest[i]);
            assert(is_reserved(table()[rest[i]].0));
        } else if c == table()[k].0 {
            assert(order[order.len() - 1] == k);
        } else {
            if is_hit(c, order) {
                let i = choose|i: int| 0 <= i < order.len() && table()[#[trigger] order[i]].0 == c;
                assert(i < rest.len());
                assert(rest[i] == order[i]);
            }
        }
    }
}

proof fn lemma_pass(s: Seq<char>, order: Seq<int>)
    requires
        order.len() > 0,
    ensures
        replaced(staged(s, order.drop_last()), table()[order.last()].0, table()[order.last()].1)
            == staged(s, order),
    decreases s.len(),
{
    if s.len() > 0 {
        let rest = s.drop_last();
        lemma_pass(rest, order);
        match stage(s.last(), order.drop_last()) {
            Some(d) => {
                let before = staged(rest, order.drop_last());
                assert(before.push(d).drop_last() =~= before);
                assert(before.push(d).last() == d);
            },
            None => {},
        }
    }
}

proof fn lemma_staged_start(s: Seq<char>)
    ensures
        staged(s, Seq::empty()) == s,
    decreases s.len(),
{
    if s.len() > 0 {
        lemma_staged_start(s.drop_last());
        assert(s.drop_last().push(s.last()) =~= s);
    }
}

proof fn lemma_passes(s: Seq<char>, order: Seq<int>)
    ensures
        replaced_in_order(s, order) == staged(s, order),
    decreases order.len(),
{
    if order.len() == 0 {
        lemma_staged_start(s);
        assert(order =~= Seq::<int>::empty());
    } else {
        lemma_passes(s, order.drop_last());
        lemma_pass(s, order);
    }
}

proof fn lemma_staged_end(s: Seq<char>, order: Seq<int>)
    requires
        forall|i: int| 0 <= i < order.len() ==> 0 <= #[trigger] order[i] < table().len(),
        forall|k: int| 0 <= k < table().len() ==> order.contains(k),
    ensures
        staged(s, order) == sanitized(s),
    decreases s.len(),
{
    if s.len() > 0 {
        let c = s.last();
        lemma_staged_end(s.drop_last(), order);
        lemma_stage(c, order);
        lemma_table_is_replacement();
        if is_reserved(c) {
            let k = choose|k: int| 0 <= k < table().len() && #[trigger] table()[k].0 == c;
            assert(order.contains(k));
            let i = choose|i: int| 0 <= i < order.len() && order[i] == k;
            assert(table()[order[i]].0 == c);
        } else {
            if is_hit(c, order) {
                let i = choose|i: int| 0 <= i < order.len() && table()[#[trigger] order[i]].0 == c;
                assert(is_reserved(table()[order[i]].0));
            }
        }
    }
}

/// The table has one entry for each reserved character, and each entry
/// writes what `replacement` says.
pub proof fn lemma_table_is_replacement()
    ensures
        table().len() == 11,
        forall|i: int|
            0 <= i < table().len() ==> is_reserved(#[trigger] table()[i].0) && replacement(
                table()[i].0,
            ) == table()[i].1,
        forall|c: char|
            is_reserved(c) ==> exists|i: int| 0 <= i < table().len() && #[trigger] table()[i].0 == c,
{
    assert forall|c: char| is_reserved(c) implies exists|i: int|
        0 <= i < table().len() && #[trigger] table()[i].0 == c by {
        if c == '/' {
            assert(table()[0].0 == c);
        } else if c == '\\' {
            assert(table()[1].0 == c);
        } else if c == '?' {
            assert(table()[2].0 == c);
        } else if c == '*' {
            assert(table()[3].0 == c);
        } else if c == '<' {
            assert(table()[4].0 == c);
        } else if c == '>' {
            assert(table()[5].0 == c);
        } else if c == '|' {
            assert(table()[6].0 == c);
        } else if c == '"' {
            assert(table()[7].0 == c);
        } else if c == ':' {
            assert(table()[8].0 == c);
        } else if c == '&' {
            assert(table()[9].0 == c);
        } else {
            assert(table()[10].0 == c);
        }
    }
}

/// Applying the entries of the table to the whole string, one after the
/// other, gives what the table gives character by character, in whatever
/// order the entries are taken and however often, as long as each is taken
/// once: no entry writes a character that another entry replaces.
pub proof fn lemma_order_is_irrelevant(s: Seq<char>, order: Seq<int>)
    requires
        forall|i: int| 0 <= i < order.len() ==> 0 <= #[trigger] order[i] < table().len(),
        forall|k: int| 0 <= k < table().len() ==> order.contains(k),
    ensures
        replaced_in_order(s, order) == sanitized(s),
{
    lemma_passes(s, order);
    lemma_staged_end(s, order);
}

/// Applying the table entry by entry, as it is written down, gives what it
/// gives character by character.
pub proof fn lemma_sequence_is_simultaneous(s: Seq<char>)
    ensures
        replaced_in_order(s, table_order()) == sanitized(s),
{
    let order = table_order();
    assert forall|k: int| 0 <= k < table().len() implies order.contains(k) by {
        assert(order[k] == k);
    }
    lemma_order_is_irrelevant(s, order);
}

/// A display name holds no reserved character, has no white space at
/// either end, and is left as it is by the substitution table and by
/// trimming.
pub proof fn lemma_composed_stable(product_id: Seq<char>, publisher: Seq<char>, title: Seq<char>)
    ensures
        is_clean(composed(product_id, publisher, title)),
        sanitized(composed(product_id, publisher, title)) == composed(product_id, publisher, title),
        trimmed(composed(product_id, publisher, title)) == composed(product_id, publisher, title),
        composed(product_id, publisher, title).len() > 0 ==> !is_space(
            composed(product_id, publisher, title).first(),
        ) && !is_space(composed(product_id, publisher, title).last()),
{
    let body = sanitized(labelled(product_id, publisher, title));
    let name = trimmed(body);
    lemma_sanitized_clean(labelled(product_id, publisher, title));
    lemma_trimmed(body);
    let (a, b) = choose|a: int, b: int|
        0 <= a <= b <= body.len() && #[trigger] body.subrange(a, b) == trimmed(body) && (forall|
            i: int,
        |
            0 <= i < a || b <= i < body.len() ==> is_space(body[i]));
    assert forall|i: int| 0 <= i < name.len() implies !is_reserved(#[trigger] name[i]) by {
        assert(name[i] == body[a + i]);
    }
    lemma_sanitized_fixed(name);
    crate::text::lemma_trimmed_fixed(name);
}

/// Applies the substitution table to each character of `s`.
pub fn sanitize(s: &Vec<char>) -> (r: Vec<char>)
    ensures
        r@ == sanitized(s@),
        is_clean(r@),
{
    let mut r: Vec<char> = Vec::new();
    let mut i: usize = 0;
    while i < s.len()
        invariant
            i <= s.len(),
            r@ == sanitized(s@.take(i as int)),
        decreases s.len() - i,
    {
        proof {
            let next = s@.take(i + 1);
            assert(next.last() == s@[i as int]);
            assert(next.drop_last() =~= s@.take(i as int));
        }
        match substitute(s[i]) {
            Some(d) => {
                r.push(d);
            },
            None => {},
        }
        i = i + 1;
    }
    proof {
        assert(s@.take(s.len() as int) =~= s@);
        lemma_sanitized_clean(s@);
    }
    r
}

/// Composes the display name of a work from its fields:
/// `[product id][publisher] title`, with every reserved character replaced
/// as the substitution table says, and without white space at either end.
pub fn compose(fields: &ExtractedFields) -> (r: String)
    ensures
        r@ == composed(fields.product_id@, fields.publisher_name@, fields.title@),
        is_clean(r@),
        sanitized(r@) == r@,
        trimmed(r@) == r@,
{
    let pid = chars_of(fields.product_id.as_str());
    let publisher = chars_of(fields.publisher_name.as_str());
    let title = chars_of(fields.title.as_str());
    let mut raw: Vec<char> = Vec::new();
    raw.push('[');
    append_chars(&mut raw, &pid);
    raw.push(']');
    raw.push('[');
    append_chars(&mut raw, &publisher);
    raw.push(']');
    raw.push(' ');
    append_chars(&mut raw, &title);
    assert(raw@ =~= labelled(fields.product_id@, fields.publisher_name@, fields.title@));
    let clean = sanitize(&raw);
    let name = trim(&clean);
    proof {
        lemma_composed_stable(fields.product_id@, fields.publisher_name@, fields.title@);
    }
    string_of(&name)
}

} // verus!
