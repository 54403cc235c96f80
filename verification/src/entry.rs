//! Directory entries: their names, their order, and which of them are
//! candidates for a rename.

use vstd::prelude::*;
use crate::text::{append_chars, chars_of, string_of};
use crate::work::{classified, classify, uppercase};

verus! {

/// Position of the last dot of `name`, or `-1` where it has none.
pub open spec fn last_dot(name: Seq<char>) -> int
    decreases name.len(),
{
    if name.len() == 0 {
        -1
    } else if name.last() == '.' {
        name.len() - 1
    } else {
        last_dot(name.drop_last())
    }
}

/// Whether a file name has an extension: it has a dot that is not its
/// first character, and it is not the name `..`.
pub open spec fn has_extension(name: Seq<char>) -> bool {
    last_dot(name) > 0 && name != seq!['.', '.']
}

/// The stem of a file name: what stands before its last dot, or the whole
/// name where it has no extension.
pub open spec fn stem_of(name: Seq<char>) -> Seq<char> {
    if has_extension(name) {
        name.take(last_dot(name))
    } else {
        name
    }
}

/// The extension of a file name: what stands after its last dot, or
/// nothing where it has no extension.
pub open spec fn extension_of(name: Seq<char>) -> Seq<char> {
    if has_extension(name) {
        name.skip(last_dot(name) + 1)
    } else {
        Seq::empty()
    }
}

/// The last dot of a name is a dot, and no dot follows it.
pub proof fn lemma_last_dot(name: Seq<char>)
    ensures
        -1 <= last_dot(name) < name.len(),
        last_dot(name) >= 0 ==> name[last_dot(name)] == '.',
        forall|i: int| last_dot(name) < i < name.len() ==> name[i] != '.',
    decreases name.len(),
{
    if name.len() > 0 && name.last() != '.' {
        let rest = name.drop_last();
        lemma_last_dot(rest);
        assert forall|i: int| last_dot(name) < i < name.len() implies name[i] != '.' by {
            if i < rest.len() {
                assert(name[i] == rest[i]);
            }
        }
    }
}

/// A name with an extension is its stem, a dot, and its extension; the
/// extension holds no dot.
pub proof fn lemma_split_rejoins(name: Seq<char>)
    ensures
        has_extension(name) ==> name == stem_of(name) + seq!['.'] + extension_of(name),
        !has_extension(name) ==> name == stem_of(name) && extension_of(name).len() == 0,
        forall|i: int| 0 <= i < extension_of(name).len() ==> extension_of(name)[i] != '.',
{
    lemma_last_dot(name);
    if has_extension(name) {
        assert(name =~= stem_of(name) + seq!['.'] + extension_of(name));
    }
}

/// Splits a file name into its stem and its extension.
pub fn split_name(name: &str) -> (r: (String, String))
    ensures
        r.0@ == stem_of(name@),
        r.1@ == extension_of(name@),
{
    let chars = chars_of(name);
    let n = chars.len();
    let mut k: usize = n;
    assert(chars@.take(n as int) =~= chars@);
    while k > 0 && chars[k - 1] != '.'
        invariant
            k <= n,
            n == chars.len(),
            last_dot(chars@) == last_dot(chars@.take(k as int)),
        decreases k,
    {
        proof {
            let cur = chars@.take(k as int);
            assert(cur.last() == chars@[k - 1]);
            assert(cur.drop_last() =~= chars@.take(k - 1));
        }
        k = k - 1;
    }
    proof {
        let cur = chars@.take(k as int);
        if k > 0 {
            assert(cur.last() == chars@[k - 1]);
        }
        assert(last_dot(chars@) == k - 1);
    }
    let is_dots = n == 2 && chars[0] == '.' && chars[1] == '.';
    assert(is_dots == (chars@ =~= seq!['.', '.']));
    if k <= 1 || is_dots {
        return (name.to_owned(), String::new());
    }
    let mut stem: Vec<char> = Vec::new();
    let mut i: usize = 0;
    while i < k - 1
        invariant
            1 < k <= n,
            n == chars.len(),
            i <= k - 1,
            stem@ == chars@.take(i as int),
        decreases k - i,
    {
        stem.push(chars[i]);
        i = i + 1;
    }
    let mut extension: Vec<char> = Vec::new();
    let mut j: usize = k;
    while j < n
        invariant
            k <= j <= n,
            n == chars.len(),
            extension@ == chars@.subrange(k as int, j as int),
        decreases n - j,
    {
        extension.push(chars[j]);
        j = j + 1;
    }
    assert(chars@.subrange(k as int, n as int) =~= chars@.skip(k as int));
    (string_of(&stem), string_of(&extension))
}

/// An entry observed in a configured directory.
#[derive(Clone, Debug, PartialEq, Eq)]
pub struct CandidateEntry {
    /// The directory that holds the entry.
    pub dir: String,
    /// The name of the entry within its directory.
    pub name: String,
    /// Whether the entry is itself a directory.
    pub is_dir: bool,
}

/// A directory entry with its texts as sequences of characters.
pub struct EntryView {
    pub dir: Seq<char>,
    pub name: Seq<char>,
    pub is_dir: bool,
}

impl View for CandidateEntry {
    type V = EntryView;

    open spec fn view(&self) -> EntryView {
        EntryView { dir: self.dir@, name: self.name@, is_dir: self.is_dir }
    }
}

impl DeepView for CandidateEntry {
    type V = EntryView;

    open spec fn deep_view(&self) -> EntryView {
        self@
    }
}

/// The extensions of downloads in progress.
pub open spec fn is_blocked_extension(extension: Seq<char>) -> bool {
    extension == "!qt"@ || extension == "!ut"@ || extension == "downloading"@
}

/// The name under which an entry is renamed: the display name, then a dot
/// and the extension where the entry has one.
pub open spec fn renamed_file(display: Seq<char>, extension: Seq<char>) -> Seq<char> {
    if extension.len() > 0 {
        display + seq!['.'] + extension
    } else {
        display
    }
}

impl EntryView {
    /// The name of the entry without its extension.
    pub open spec fn stem(self) -> Seq<char> {
        stem_of(self.name)
    }

    /// The extension of the entry; empty where it has none.
    pub open spec fn extension(self) -> Seq<char> {
        extension_of(self.name)
    }

    /// The path of the entry, with `separator` between the directory and
    /// the name.
    pub open spec fn path(self, separator: Seq<char>) -> Seq<char> {
        self.dir + separator + self.name
    }

    /// The path of the entry once it is renamed to `display`: same
    /// directory, same extension.
    pub open spec fn target(self, display: Seq<char>, separator: Seq<char>) -> Seq<char> {
        self.dir + separator + renamed_file(display, self.extension())
    }

    /// Whether the entry is to be renamed: its stem has the format of a
    /// work type, its extension is not that of a download in progress, and
    /// it is no directory where only files are asked for.
    pub open spec fn is_candidate(self, file_only: bool) -> bool {
        &&& classified(uppercase(self.stem())) is Some
        &&& !is_blocked_extension(self.extension())
        &&& file_only ==> !self.is_dir
    }
}

/// Tests whether `extension` is that of a download in progress.
pub fn blocks_extension(extension: &String) -> (r: bool)
    ensures
        r == is_blocked_extension(extension@),
{
    let qt = "!qt".to_owned();
    let ut = "!ut".to_owned();
    let downloading = "downloading".to_owned();
    *extension == qt || *extension == ut || *extension == downloading
}

/// Joins a display name and an extension into a file name.
pub fn rename_file(display: &str, extension: &str) -> (r: String)
    ensures
        r@ == renamed_file(display@, extension@),
{
    let mut out = chars_of(display);
    let ext = chars_of(extension);
    if ext.len() > 0 {
        out.push('.');
        append_chars(&mut out, &ext);
    }
    string_of(&out)
}

/// Joins a directory, a separator and a file name into a path.
pub fn join_path(dir: &str, separator: &str, name: &str) -> (r: String)
    ensures
        r@ == dir@ + separator@ + name@,
{
    let mut out = chars_of(dir);
    append_chars(&mut out, &chars_of(separator));
    append_chars(&mut out, &chars_of(name));
    string_of(&out)
}

impl CandidateEntry {
    /// The entry `name` of the directory `dir`.
    pub fn new(dir: String, name: String, is_dir: bool) -> (r: CandidateEntry)
        ensures
            r@ == (EntryView { dir: dir@, name: name@, is_dir }),
    {
        CandidateEntry { dir, name, is_dir }
    }

    /// A copy of the entry.
    pub fn duplicate(&self) -> (r: CandidateEntry)
        ensures
            r@ == self@,
    {
        CandidateEntry { dir: self.dir.clone(), name: self.name.clone(), is_dir: self.is_dir }
    }

    /// The name of the entry without its extension.
    pub fn stem(&self) -> (r: String)
        ensures
            r@ == self@.stem(),
    {
        split_name(self.name.as_str()).0
    }

    /// The extension of the entry; empty where it has none.
    pub fn extension(&self) -> (r: String)
        ensures
            r@ == self@.extension(),
    {
        split_name(self.name.as_str()).1
    }

    /// The path of the entry.
    pub fn path(&self, separator: &str) -> (r: String)
        ensures
            r@ == self@.path(separator@),
    {
        join_path(self.dir.as_str(), separator, self.name.as_str())
    }

    /// The path that the entry gets when it is renamed to `display`. The
    /// entry stays in its directory and keeps its extension, which is
    /// appended as it stands.
    pub fn target_path(&self, display: &str, separator: &str) -> (r: String)
        ensures
            r@ == self@.target(display@, separator@),
    {
        let file = rename_file(display, self.extension().as_str());
        join_path(self.dir.as_str(), separator, file.as_str())
    }

    /// Tests whether the entry is to be renamed.
    pub fn is_candidate(&self, file_only: bool) -> (r: bool)
        ensures
            r == self@.is_candidate(file_only),
            r ==> !is_blocked_extension(self@.extension()),
            r && file_only ==> !self.is_dir,
    {
        let parts = split_name(self.name.as_str());
        if file_only && self.is_dir {
            return false;
        }
        if blocks_extension(&parts.1) {
            return false;
        }
        classify(parts.0.as_str()).is_some()
    }
}

/// The separator of path components: a backslash on Windows, a slash
/// elsewhere.
pub fn delimiter(windows: bool) -> (r: &'static str)
    ensures
        r@ == if windows {
            seq!['\\']
        } else {
            seq!['/']
        },
{
    if windows {
        proof {
            reveal_strlit("\\");
        }
        assert("\\"@ =~= seq!['\\']);
        "\\"
    } else {
        proof {
            reveal_strlit("/");
        }
        assert("/"@ =~= seq!['/']);
        "/"
    }
}

} // verus!
