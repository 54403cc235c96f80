//! The closed set of work types, and the classifier that assigns an
//! identifier to one of them.

use vstd::prelude::*;

verus! {

/// `regex::Error`, carried through as it comes.
#[verifier::external_type_specification]
#[verifier::external_body]
pub struct ExRegexError(regex::Error);

/// Whether `regex::Regex::new` compiles `pattern`.
pub uninterp spec fn pattern_compiles(pattern: Seq<char>) -> bool;

/// Whether the regular expression compiled from `pattern` finds a match
/// anywhere in `text` (`regex::Regex::is_match`).
pub uninterp spec fn pattern_finds(pattern: Seq<char>, text: Seq<char>) -> bool;

/// The upper-case form of `s` that `str::to_uppercase` returns.
pub uninterp spec fn uppercase(s: Seq<char>) -> Seq<char>;

/// `str::to_uppercase` maps a string to its upper-case form; the result
/// depends on the characters of the string alone.
pub assume_specification[ str::to_uppercase ](s: &str) -> (r: String)
    ensures
        r@ == uppercase(s@),
;

/// Compiles `pattern` with `regex::Regex::new` and searches `text` with
/// `regex::Regex::is_match`. The call fails exactly when the pattern does
/// not compile; otherwise it tells whether the pattern matches in `text`.
#[verifier::external_body]
fn search(pattern: &str, text: &str) -> (r: Result<bool, regex::Error>)
    ensures
        r is Ok <==> pattern_compiles(pattern@),
        r matches Ok(found) ==> found == pattern_finds(pattern@, text@),
{
    match regex::Regex::new(pattern) {
        Ok(re) => Ok(re.is_match(text)),
        Err(e) => Err(e),
    }
}

/// Whether the regular expression `pattern` matches in `text`. A pattern
/// that does not compile accepts nothing.
pub open spec fn pattern_accepts(pattern: Seq<char>, text: Seq<char>) -> bool {
    pattern_compiles(pattern) && pattern_finds(pattern, text)
}

/// Tests whether the regular expression `pattern` matches in `text`. A
/// pattern that does not compile accepts nothing.
pub fn accepts_text(pattern: &str, text: &str) -> (r: bool)
    ensures
        r == pattern_accepts(pattern@, text@),
{
    match search(pattern, text) {
        Ok(found) => found,
        Err(_) => false,
    }
}

/// A kind of catalog work. Each kind has its own identifier format, its own
/// page address and its own page layout.
#[derive(Clone, Copy, Debug, PartialEq, Eq, Structural)]
pub enum WorkType {
    /// Identifiers `RJ` + digits.
    Rj,
    /// Identifiers `VJ` + digits.
    Vj,
    /// Identifiers `BJ` + digits.
    Bj,
}

impl WorkType {
    /// Position of the work type in the registry; earlier entries win ties.
    pub open spec fn rank(self) -> nat {
        match self {
            WorkType::Rj => 0,
            WorkType::Vj => 1,
            WorkType::Bj => 2,
        }
    }

    /// The regular expression, anchored at both ends, that the identifiers
    /// of this work type match.
    pub open spec fn id_pattern_spec(self) -> Seq<char> {
        match self {
            WorkType::Rj => "^RJ\\d+$"@,
            WorkType::Vj => "^VJ\\d+$"@,
            WorkType::Bj => "^BJ\\d+$"@,
        }
    }

    /// The page address of this work type, with `{id}` where the
    /// identifier goes.
    pub open spec fn url_template_spec(self) -> Seq<char> {
        match self {
            WorkType::Rj => "https://www.dlsite.com/maniax/work/=/product_id/{id}.html"@,
            WorkType::Vj => "https://www.dlsite.com/pro/work/=/product_id/{id}.html"@,
            WorkType::Bj => "https://www.dlsite.com/books/work/=/product_id/{id}.html"@,
        }
    }

    /// The query that finds the node carrying the product id.
    pub open spec fn product_id_locator_spec(self) -> Seq<char> {
        ".work_right_info"@
    }

    /// The query that finds the node holding the title.
    pub open spec fn title_locator_spec(self) -> Seq<char> {
        "#work_name"@
    }

    /// The query that finds the node holding the publisher's name.
    pub open spec fn publisher_locator_spec(self) -> Seq<char> {
        match self {
            WorkType::Rj => "#work_maker td a"@,
            WorkType::Vj => "#work_maker td .maker_name a"@,
            WorkType::Bj => "#work_maker > tbody:nth-child(1) > tr:nth-child(1) > td:nth-child(2) > a:nth-child(1)"@,
        }
    }

    /// Whether `id`, taken as it stands, has the format of this work type.
    pub open spec fn accepts(self, id: Seq<char>) -> bool {
        pattern_accepts(self.id_pattern_spec(), id)
    }

    /// The regular expression of the identifiers of this work type.
    pub fn id_pattern(self) -> (r: &'static str)
        ensures
            r@ == self.id_pattern_spec(),
    {
        match self {
            WorkType::Rj => "^RJ\\d+$",
            WorkType::Vj => "^VJ\\d+$",
            WorkType::Bj => "^BJ\\d+$",
        }
    }

    /// The page address of this work type, with `{id}` where the
    /// identifier goes.
    pub fn url_template(self) -> (r: &'static str)
        ensures
            r@ == self.url_template_spec(),
    {
        match self {
            WorkType::Rj => "https://www.dlsite.com/maniax/work/=/product_id/{id}.html",
            WorkType::Vj => "https://www.dlsite.com/pro/work/=/product_id/{id}.html",
            WorkType::Bj => "https://www.dlsite.com/books/work/=/product_id/{id}.html",
        }
    }

    /// The query that finds the node carrying the product id.
    pub fn product_id_locator(self) -> (r: &'static str)
        ensures
            r@ == self.product_id_locator_spec(),
    {
        ".work_right_info"
    }

    /// The query that finds the node holding the title.
    pub fn title_locator(self) -> (r: &'static str)
        ensures
            r@ == self.title_locator_spec(),
    {
        "#work_name"
    }

    /// The query that finds the node holding the publisher's name.
    pub fn publisher_locator(self) -> (r: &'static str)
        ensures
            r@ == self.publisher_locator_spec(),
    {
        match self {
            WorkType::Rj => "#work_maker td a",
            WorkType::Vj => "#work_maker td .maker_name a",
            WorkType::Bj => "#work_maker > tbody:nth-child(1) > tr:nth-child(1) > td:nth-child(2) > a:nth-child(1)",
        }
    }

    /// Tests `id`, as it stands, against the identifier format of this work
    /// type.
    pub fn matches(self, id: &str) -> (r: bool)
        ensures
            r == self.accepts(id@),
    {
        accepts_text(self.id_pattern(), id)
    }
}

/// The work types in declaration order.
pub open spec fn registry_spec() -> Seq<WorkType> {
    seq![WorkType::Rj, WorkType::Vj, WorkType::Bj]
}

/// The work types in declaration order.
pub fn registry() -> (r: Vec<WorkType>)
    ensures
        r@ == registry_spec(),
{
    let mut r: Vec<WorkType> = Vec::new();
    r.push(WorkType::Rj);
    r.push(WorkType::Vj);
    r.push(WorkType::Bj);
    r
}

/// The work type that a row of match results selects: the registry entry
/// at the first position that holds `true`, if there is one.
pub open spec fn picked(hits: Seq<bool>) -> Option<WorkType> {
    if exists|i: int| is_first_hit(hits, i) {
        Some(registry_spec()[choose|i: int| is_first_hit(hits, i)])
    } else {
        None
    }
}

/// `i` is the first position of `hits`, within the registry, that holds
/// `true`.
pub open spec fn is_first_hit(hits: Seq<bool>, i: int) -> bool {
    &&& 0 <= i < hits.len()
    &&& i < registry_spec().len()
    &&& hits[i]
    &&& forall|j: int| 0 <= j < i ==> !hits[j]
}

/// Picks the work type for a row of match results, one result per registry
/// entry in declaration order. The earliest match wins.
pub fn pick(hits: &Vec<bool>) -> (r: Option<WorkType>)
    ensures
        r == picked(hits@),
        match r {
            Some(w) => is_first_hit(hits@, w.rank() as int),
            None => forall|i: int| 0 <= i < hits.len() && i < registry_spec().len() ==> !hits[i],
        },
{
    let reg = registry();
    let mut i: usize = 0;
    while i < reg.len() && i < hits.len()
        invariant
            reg@ == registry_spec(),
            i <= reg.len(),
            i <= hits.len(),
            forall|j: int| 0 <= j < i ==> !hits[j],
        decreases reg.len() - i,
    {
        if hits[i] {
            proof {
                lemma_first_hit_unique(hits@, i as int);
            }
            return Some(reg[i]);
        }
        i = i + 1;
    }
    assert(forall|k: int| !is_first_hit(hits@, k));
    None
}

/// At most one position is the first hit of a row.
pub proof fn lemma_first_hit_unique(hits: Seq<bool>, i: int)
    requires
        is_first_hit(hits, i),
    ensures
        forall|k: int| is_first_hit(hits, k) ==> k == i,
        picked(hits) == Some(registry_spec()[i]),
        registry_spec()[i].rank() == i,
{
    assert forall|k: int| is_first_hit(hits, k) implies k == i by {
        if k < i {
            assert(!hits[k]);
        } else if i < k {
            assert(!hits[i]);
        }
    }
}

/// The work type of an identifier taken as it stands: the first registry
/// entry whose format accepts it.
pub open spec fn classified(id: Seq<char>) -> Option<WorkType> {
    picked(registry_spec().map_values(|w: WorkType| w.accepts(id)))
}

/// Classifies an identifier that is already in upper case.
pub fn classify_normalized(id: &str) -> (r: Option<WorkType>)
    ensures
        r == classified(id@),
        match r {
            Some(w) => w.accepts(id@) && forall|v: WorkType| v.rank() < w.rank() ==> !v.accepts(id@),
            None => forall|v: WorkType| !v.accepts(id@),
        },
{
    let reg = registry();
    let mut hits: Vec<bool> = Vec::new();
    let mut i: usize = 0;
    while i < reg.len()
        invariant
            reg@ == registry_spec(),
            i <= reg.len(),
            hits.len() == i,
            forall|j: int| 0 <= j < i ==> hits[j] == reg[j].accepts(id@),
        decreases reg.len() - i,
    {
        let hit = reg[i].matches(id);
        hits.push(hit);
        i = i + 1;
    }
    assert(hits@ =~= registry_spec().map_values(|w: WorkType| w.accepts(id@)));
    let r = pick(&hits);
    proof {
        match r {
            Some(w) => {
                assert forall|v: WorkType| v.rank() < w.rank() implies !v.accepts(id@) by {
                    assert(registry_spec()[v.rank() as int] == v);
                    assert(!hits[v.rank() as int]);
                }
                assert(registry_spec()[w.rank() as int] == w);
            },
            None => {
                assert forall|v: WorkType| !v.accepts(id@) by {
                    assert(registry_spec()[v.rank() as int] == v);
                    assert(!hits[v.rank() as int]);
                }
            },
        }
    }
    r
}

/// Classifies a file-name stem. The stem is brought to upper case first, so
/// the case of its letters does not matter.
pub fn classify(stem: &str) -> (r: Option<WorkType>)
    ensures
        r == classified(uppercase(stem@)),
        match r {
            Some(w) => w.accepts(uppercase(stem@)) && forall|v: WorkType|
                v.rank() < w.rank() ==> !v.accepts(uppercase(stem@)),
            None => forall|v: WorkType| !v.accepts(uppercase(stem@)),
        },
{
    let id = stem.to_uppercase();
    classify_normalized(id.as_str())
}

} // verus!
