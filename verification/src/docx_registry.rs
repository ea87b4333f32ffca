//! The names the DOCX writer hands out while it renders a book: bookmarks
//! for chapters, their ids, drawing ids and the numbering instances of
//! ordered lists, and the link targets that depend on them.

use vstd::prelude::*;
use crate::book::ChapterInfo;
use crate::docx_model::{LinkTarget, LinkTargetV};
use crate::docx_parts::BookmarkRef;
use crate::paths::{normalize_path, normalized, parent_dir, parent_of, path_join, join_path, without_fragment};
use crate::text::{
    chars_of, decimal, first_index, lemma_first_index_from, push_char, push_decimal, push_str,
    seq_ends_with, seq_starts_with, starts_with, ends_with, string_of, substring, find_char,
};

verus! {

/// The numbering instance of an ordered list: its id, nesting level and
/// first number.
#[derive(Clone, Copy, Debug, PartialEq, Eq)]
pub struct OrderedListDefinition {
    pub number_id: i32,
    pub level: usize,
    pub start: u64,
}

/// The value of the first entry with key `k`.
pub open spec fn lookup(m: Seq<(Seq<char>, Seq<char>)>, k: Seq<char>) -> Option<Seq<char>>
    decreases m.len(),
{
    if m.len() == 0 {
        None
    } else if m[0].0 == k {
        Some(m[0].1)
    } else {
        lookup(m.subrange(1, m.len() as int), k)
    }
}

/// Appending an entry changes no value already found.
pub proof fn lemma_lookup_push(m: Seq<(Seq<char>, Seq<char>)>, e: (Seq<char>, Seq<char>), k: Seq<char>)
    ensures
        lookup(m.push(e), k) == match lookup(m, k) {
            Some(v) => Some(v),
            None => if e.0 == k { Some(e.1) } else { None },
        },
    decreases m.len(),
{
    let n = m.push(e);
    assert(n[0] == if m.len() > 0 { m[0] } else { e });
    if m.len() > 0 {
        assert(n.subrange(1, n.len() as int) =~= m.subrange(1, m.len() as int).push(e));
        lemma_lookup_push(m.subrange(1, m.len() as int), e, k);
    } else {
        assert(n.subrange(1, n.len() as int) =~= Seq::<(Seq<char>, Seq<char>)>::empty());
        assert(lookup(Seq::<(Seq<char>, Seq<char>)>::empty(), k) is None);
    }
}

/// A value found in `m` is found in every extension of `m`.
pub proof fn lemma_lookup_prefix(m: Seq<(Seq<char>, Seq<char>)>, n: Seq<(Seq<char>, Seq<char>)>, k: Seq<char>)
    requires
        m.len() <= n.len(),
        n.subrange(0, m.len() as int) == m,
        lookup(m, k) is Some,
    ensures
        lookup(n, k) == lookup(m, k),
    decreases m.len(),
{
    assert(n[0] == m[0]);
    if m[0].0 != k {
        assert(n.subrange(1, n.len() as int).subrange(0, m.len() - 1) =~= m.subrange(1, m.len() as int));
        lemma_lookup_prefix(m.subrange(1, m.len() as int), n.subrange(1, n.len() as int), k);
    }
}

/// The views of key-value pairs of strings.
pub open spec fn pairs_view(v: Seq<(String, String)>) -> Seq<(Seq<char>, Seq<char>)> {
    Seq::new(v.len(), |i: int| (v[i].0@, v[i].1@))
}

/// What the names handed out so far are.
pub struct RegistryV {
    /// Normalised chapter paths and their bookmark names.
    pub bookmarks: Seq<(Seq<char>, Seq<char>)>,
    /// Bookmark names and their ids.
    pub bookmark_ids: Seq<(Seq<char>, Seq<char>)>,
    pub next_bookmark_id: usize,
    pub next_drawing_id: u32,
    pub next_numbering_id: i32,
    pub ordered_lists: Seq<OrderedListDefinition>,
}

/// The names handed out while one document is rendered.
pub struct DocxRegistry {
    pub bookmarks: Vec<(String, String)>,
    pub bookmark_ids: Vec<(String, String)>,
    pub next_bookmark_id: usize,
    pub next_drawing_id: u32,
    pub next_numbering_id: i32,
    pub ordered_lists: Vec<OrderedListDefinition>,
}

impl View for DocxRegistry {
    type V = RegistryV;

    open spec fn view(&self) -> RegistryV {
        RegistryV {
            bookmarks: pairs_view(self.bookmarks@),
            bookmark_ids: pairs_view(self.bookmark_ids@),
            next_bookmark_id: self.next_bookmark_id,
            next_drawing_id: self.next_drawing_id,
            next_numbering_id: self.next_numbering_id,
            ordered_lists: self.ordered_lists@,
        }
    }
}

/// The first numbering id of an ordered list; the lower ones belong to
/// bullets and task lists.
pub const FIRST_ORDERED_NUM_ID: i32 = 10;

/// Nothing handed out yet: bookmark and drawing ids count from 1, ordered
/// lists from `FIRST_ORDERED_NUM_ID`.
pub open spec fn initial_registry() -> RegistryV {
    RegistryV {
        bookmarks: seq![],
        bookmark_ids: seq![],
        next_bookmark_id: 1,
        next_drawing_id: 1,
        next_numbering_id: FIRST_ORDERED_NUM_ID,
        ordered_lists: seq![],
    }
}

/// `r2` keeps every name that `r1` handed out.
pub open spec fn extends(r1: RegistryV, r2: RegistryV) -> bool {
    &&& r1.bookmarks.len() <= r2.bookmarks.len()
    &&& r2.bookmarks.subrange(0, r1.bookmarks.len() as int) == r1.bookmarks
    &&& r1.bookmark_ids.len() <= r2.bookmark_ids.len()
    &&& r2.bookmark_ids.subrange(0, r1.bookmark_ids.len() as int) == r1.bookmark_ids
    &&& r1.ordered_lists.len() <= r2.ordered_lists.len()
    &&& r2.ordered_lists.subrange(0, r1.ordered_lists.len() as int) == r1.ordered_lists
}

pub open spec fn is_ascii_alnum(c: char) -> bool {
    ('0' <= c <= '9') || ('a' <= c <= 'z') || ('A' <= c <= 'Z')
}

/// The characters of `s` that may stand in a bookmark name: ASCII letters,
/// digits and `_` kept, `-` and space made `_`, the rest dropped.
pub open spec fn bookmark_chars(s: Seq<char>) -> Seq<char>
    decreases s.len(),
{
    if s.len() == 0 {
        seq![]
    } else {
        let c = s.last();
        bookmark_chars(s.drop_last()) + if is_ascii_alnum(c) || c == '_' {
            seq![c]
        } else if c == '-' || c == ' ' {
            seq!['_']
        } else {
            seq![]
        }
    }
}

/// A bookmark name for `anchor`: its name characters, or `bookmark` when
/// none are left.
pub open spec fn bookmark_name_of(anchor: Seq<char>) -> Seq<char> {
    let b = bookmark_chars(anchor);
    if b.len() == 0 { "bookmark"@ } else { b }
}

/// A character that may stand in a bookmark name.
pub open spec fn is_name_char(c: char) -> bool {
    is_ascii_alnum(c) || c == '_'
}

proof fn lemma_bookmark_chars(s: Seq<char>)
    ensures
        forall|i: int| 0 <= i < bookmark_chars(s).len() ==> is_name_char(#[trigger] bookmark_chars(s)[i]),
    decreases s.len(),
{
    if s.len() > 0 {
        lemma_bookmark_chars(s.drop_last());
        let b = bookmark_chars(s.drop_last());
        assert forall|i: int| 0 <= i < bookmark_chars(s).len() implies is_name_char(#[trigger] bookmark_chars(s)[i]) by {
            if i < b.len() {
                assert(bookmark_chars(s)[i] == b[i]);
            }
        }
    }
}

/// A bookmark name is never empty and holds only ASCII letters, digits
/// and `_`.
pub proof fn lemma_bookmark_name_chars(anchor: Seq<char>)
    ensures
        bookmark_name_of(anchor).len() > 0,
        forall|i: int| 0 <= i < bookmark_name_of(anchor).len() ==> is_name_char(#[trigger] bookmark_name_of(anchor)[i]),
{
    lemma_bookmark_chars(anchor);
    reveal_strlit("bookmark");
    if bookmark_chars(anchor).len() == 0 {
        assert("bookmark"@ =~= seq!['b', 'o', 'o', 'k', 'm', 'a', 'r', 'k']);
    }
}

/// A bookmark name for `anchor` (see `bookmark_name_of`).
pub fn bookmark_name(anchor: &str) -> (r: String)
    ensures
        r@ == bookmark_name_of(anchor@),
{
    let s = chars_of(anchor);
    let mut out = String::new();
    let mut i: usize = 0;
    while i < s.len()
        invariant
            i <= s.len(),
            s@ == anchor@,
            out@ == bookmark_chars(s@.take(i as int)),
        decreases s.len() - i,
    {
        let c = s[i];
        assert(s@.take(i + 1).drop_last() =~= s@.take(i as int));
        if ('0' <= c && c <= '9') || ('a' <= c && c <= 'z') || ('A' <= c && c <= 'Z') || c == '_' {
            push_char(&mut out, c);
        } else if c == '-' || c == ' ' {
            push_char(&mut out, '_');
        }
        assert(out@ =~= bookmark_chars(s@.take(i + 1)));
        i += 1;
    }
    assert(s@.take(s.len() as int) =~= s@);
    if out.as_str().is_empty() {
        proof { reveal_strlit("bookmark"); }
        return crate::text::to_string("bookmark");
    }
    out
}

/// The name a new chapter path gets: `md_` and the name characters of the
/// normalised path, cut to 36 characters.
pub open spec fn bookmark_base(normalized_path: Seq<char>) -> Seq<char> {
    let name = "md_"@ + bookmark_name_of(normalized_path);
    if name.len() > 36 { name.take(36) } else { name }
}

/// `n + 1`, or `n` at the top of the range.
pub open spec fn next_count(n: nat) -> nat {
    if n < u64::MAX { n + 1 } else { n }
}

/// The bookmark of the chapter at `path`, and the registry after it: the
/// name given before to the same normalised path, or else `bookmark_base`;
/// when that name already has an id, `_` and the number of named paths
/// plus one are appended; at most 40 characters.
pub open spec fn path_bookmark(r: RegistryV, path: Seq<char>) -> (RegistryV, Seq<char>) {
    let n = normalized(path);
    match lookup(r.bookmarks, n) {
        Some(name) => (r, name),
        None => {
            let base = bookmark_base(n);
            let candidate = if lookup(r.bookmark_ids, base) is Some {
                base + "_"@ + decimal(next_count(r.bookmarks.len()))
            } else {
                base
            };
            let name = if candidate.len() > 40 { candidate.take(40) } else { candidate };
            (RegistryV { bookmarks: r.bookmarks.push((n, name)), ..r }, name)
        },
    }
}

/// The id of bookmark `name`, and the registry after it: the id given
/// before, or else the next number.
pub open spec fn name_id(r: RegistryV, name: Seq<char>) -> (RegistryV, Seq<char>) {
    match lookup(r.bookmark_ids, name) {
        Some(id) => (r, id),
        None => {
            let id = decimal(r.next_bookmark_id as nat);
            (
                RegistryV {
                    bookmark_ids: r.bookmark_ids.push((name, id)),
                    next_bookmark_id: if r.next_bookmark_id < usize::MAX { (r.next_bookmark_id + 1) as usize } else { r.next_bookmark_id },
                    ..r
                },
                id,
            )
        },
    }
}

/// The bookmark (id and name) of a chapter from `source_path`, if it has
/// one.
pub open spec fn chapter_mark(r: RegistryV, source_path: Option<Seq<char>>) -> (RegistryV, Option<(Seq<char>, Seq<char>)>) {
    match source_path {
        None => (r, None),
        Some(p) => {
            let (r1, name) = path_bookmark(r, p);
            let (r2, id) = name_id(r1, name);
            (r2, Some((id, name)))
        },
    }
}

/// A new numbering instance for an ordered list at `level` starting at
/// `start`.
pub open spec fn ordered_numbering(r: RegistryV, level: usize, start: u64) -> (RegistryV, i32) {
    let id = r.next_numbering_id;
    (
        RegistryV {
            next_numbering_id: if id < i32::MAX { (id + 1) as i32 } else { id },
            ordered_lists: r.ordered_lists.push(OrderedListDefinition { number_id: id, level, start }),
            ..r
        },
        id,
    )
}

/// A new drawing id.
pub open spec fn drawing(r: RegistryV) -> (RegistryV, u32) {
    let id = r.next_drawing_id;
    (RegistryV { next_drawing_id: if id < u32::MAX { (id + 1) as u32 } else { id }, ..r }, id)
}

/// A chapter's path and the path a second call names are bookmarked the
/// same way: asking again for a path, or for one that normalises to the same
/// path, gives the same name and changes nothing.
pub proof fn lemma_path_bookmark_repeat(r: RegistryV, p: Seq<char>, q: Seq<char>)
    requires
        normalized(p) == normalized(q),
    ensures
        path_bookmark(path_bookmark(r, p).0, q) == (path_bookmark(r, p).0, path_bookmark(r, p).1),
{
    let n = normalized(p);
    if lookup(r.bookmarks, n) is None {
        let (r1, name) = path_bookmark(r, p);
        lemma_lookup_push(r.bookmarks, (n, name), n);
    }
}

/// Asking again for the id of a name gives the same id and changes nothing.
pub proof fn lemma_name_id_repeat(r: RegistryV, name: Seq<char>)
    ensures
        name_id(name_id(r, name).0, name) == name_id(r, name),
{
    if lookup(r.bookmark_ids, name) is None {
        let (r1, id) = name_id(r, name);
        lemma_lookup_push(r.bookmark_ids, (name, id), name);
    }
}

/// Every operation of the registry keeps the names handed out before.
pub proof fn lemma_operations_extend(r: RegistryV, p: Seq<char>, name: Seq<char>, level: usize, start: u64)
    ensures
        extends(r, path_bookmark(r, p).0),
        extends(r, name_id(r, name).0),
        extends(r, ordered_numbering(r, level, start).0),
        extends(r, drawing(r).0),
{
    assert(path_bookmark(r, p).0.bookmarks.subrange(0, r.bookmarks.len() as int) =~= r.bookmarks);
    assert(name_id(r, name).0.bookmark_ids.subrange(0, r.bookmark_ids.len() as int) =~= r.bookmark_ids);
    assert(ordered_numbering(r, level, start).0.ordered_lists.subrange(0, r.ordered_lists.len() as int) =~= r.ordered_lists);
    assert(r.bookmarks.subrange(0, r.bookmarks.len() as int) =~= r.bookmarks);
    assert(r.bookmark_ids.subrange(0, r.bookmark_ids.len() as int) =~= r.bookmark_ids);
    assert(r.ordered_lists.subrange(0, r.ordered_lists.len() as int) =~= r.ordered_lists);
}

/// Ordered lists are numbered from `FIRST_ORDERED_NUM_ID` on: the next
/// id and every id handed out are at least that.
pub open spec fn ordered_ids_ok(r: RegistryV) -> bool {
    &&& r.next_numbering_id >= FIRST_ORDERED_NUM_ID
    &&& forall|k: int| 0 <= k < r.ordered_lists.len() ==> #[trigger] r.ordered_lists[k].number_id >= FIRST_ORDERED_NUM_ID
}

/// An ordered list never gets the numbering of bullets or task items: a
/// new registry numbers ordered lists from `FIRST_ORDERED_NUM_ID`, every
/// operation keeps it so, and each ordered list's id is at least that,
/// never the bullet id 1 nor the task ids 3 and 4.
pub proof fn lemma_ordered_ids(r: RegistryV, p: Seq<char>, name: Seq<char>, level: usize, start: u64)
    requires
        ordered_ids_ok(r),
    ensures
        ordered_ids_ok(initial_registry()),
        ordered_ids_ok(path_bookmark(r, p).0),
        ordered_ids_ok(name_id(r, name).0),
        ordered_ids_ok(chapter_mark(r, Some(p)).0),
        ordered_ids_ok(drawing(r).0),
        ordered_ids_ok(ordered_numbering(r, level, start).0),
        ordered_numbering(r, level, start).1 >= FIRST_ORDERED_NUM_ID,
        ordered_numbering(r, level, start).1 != 1,
        ordered_numbering(r, level, start).1 != 3,
        ordered_numbering(r, level, start).1 != 4,
{
    let r1 = path_bookmark(r, p).0;
    assert(ordered_ids_ok(r1));
    assert(ordered_ids_ok(name_id(r1, path_bookmark(r, p).1).0));
    let o = ordered_numbering(r, level, start).0;
    assert forall|k: int| 0 <= k < o.ordered_lists.len() implies #[trigger] o.ordered_lists[k].number_id >= FIRST_ORDERED_NUM_ID by {
        if k < r.ordered_lists.len() {
            assert(o.ordered_lists[k] == r.ordered_lists[k]);
        }
    }
}

/// Once a path has a bookmark, every later registry gives it the same
/// one: a link to a chapter and the chapter's heading agree.
pub proof fn lemma_bookmark_kept(r1: RegistryV, r2: RegistryV, p: Seq<char>)
    requires
        extends(r1, r2),
        lookup(r1.bookmarks, normalized(p)) is Some,
    ensures
        path_bookmark(r2, p) == (r2, path_bookmark(r1, p).1),
{
    lemma_lookup_prefix(r1.bookmarks, r2.bookmarks, normalized(p));
}

/// Every bookmark name handed out so far fits Word's limit of 40
/// characters.
pub open spec fn names_fit(r: RegistryV) -> bool {
    forall|i: int| 0 <= i < r.bookmarks.len() ==> (#[trigger] r.bookmarks[i]).1.len() <= 40
}

/// A value that `lookup` finds is the value of one of the entries.
proof fn lemma_lookup_in(m: Seq<(Seq<char>, Seq<char>)>, k: Seq<char>)
    requires
        lookup(m, k) is Some,
    ensures
        exists|i: int| 0 <= i < m.len() && (#[trigger] m[i]).1 == lookup(m, k)->0,
    decreases m.len(),
{
    if m[0].0 != k {
        let rest = m.subrange(1, m.len() as int);
        lemma_lookup_in(rest, k);
        let j = choose|j: int| 0 <= j < rest.len() && (#[trigger] rest[j]).1 == lookup(rest, k)->0;
        assert(m[j + 1] == rest[j]);
    } else {
        assert(m[0].1 == lookup(m, k)->0);
    }
}

/// Chapter bookmark names are never longer than 40 characters (the
/// longest name Word keeps), and the registry goes on holding only such
/// names.
pub proof fn lemma_bookmark_names_fit(r: RegistryV, p: Seq<char>)
    requires
        names_fit(r),
    ensures
        path_bookmark(r, p).1.len() <= 40,
        names_fit(path_bookmark(r, p).0),
{
    let n = normalized(p);
    match lookup(r.bookmarks, n) {
        Some(name) => {
            lemma_lookup_in(r.bookmarks, n);
        },
        None => {
            let (r1, name) = path_bookmark(r, p);
            assert forall|i: int| 0 <= i < r1.bookmarks.len() implies (#[trigger] r1.bookmarks[i]).1.len() <= 40 by {
                if i < r.bookmarks.len() {
                    assert(r1.bookmarks[i] == r.bookmarks[i]);
                }
            }
        },
    }
}

/// The value for `key` in `m` (see `lookup`).
fn find_value(m: &Vec<(String, String)>, key: &String) -> (r: Option<String>)
    ensures
        crate::docx_model::opt_seq(r) == lookup(pairs_view(m@), key@),
{
    let ghost all = pairs_view(m@);
    assert(all.subrange(0, all.len() as int) =~= all);
    let mut i: usize = 0;
    while i < m.len()
        invariant
            i <= m.len(),
            all == pairs_view(m@),
            lookup(all, key@) == lookup(all.subrange(i as int, all.len() as int), key@),
        decreases m.len() - i,
    {
        let ghost rest = all.subrange(i as int, all.len() as int);
        assert(rest[0] == (m@[i as int].0@, m@[i as int].1@));
        if m[i].0 == *key {
            return Some(m[i].1.clone());
        }
        assert(rest.subrange(1, rest.len() as int) =~= all.subrange(i + 1, all.len() as int));
        i += 1;
    }
    None
}

impl DocxRegistry {
    /// An empty registry (see `initial_registry`).
    pub fn new() -> (r: DocxRegistry)
        ensures
            r@ == initial_registry(),
    {
        let r = DocxRegistry {
            bookmarks: Vec::new(),
            bookmark_ids: Vec::new(),
            next_bookmark_id: 1,
            next_drawing_id: 1,
            next_numbering_id: FIRST_ORDERED_NUM_ID,
            ordered_lists: Vec::new(),
        };
        assert(r@.bookmarks =~= seq![]);
        assert(r@.bookmark_ids =~= seq![]);
        r
    }

    /// The bookmark name of the chapter at `path` (see `path_bookmark`).
    pub fn bookmark_for_path(&mut self, path: &str) -> (name: String)
        ensures
            (final(self)@, name@) == path_bookmark(old(self)@, path@),
    {
        let normalized_path = normalize_path(path);
        match find_value(&self.bookmarks, &normalized_path) {
            Some(name) => return name,
            None => {},
        }
        let mut name = crate::text::to_string("md_");
        let b = bookmark_name(normalized_path.as_str());
        push_str(&mut name, b.as_str());
        proof { reveal_strlit("md_"); }
        let chars = chars_of(name.as_str());
        let base = if chars.len() > 36 { substring(&chars, 0, 36) } else { string_of(&chars) };
        assert(base@ == bookmark_base(normalized_path@)) by {
            assert(chars@.subrange(0, 36) =~= chars@.take(36));
        }
        let candidate = match find_value(&self.bookmark_ids, &base) {
            Some(_) => {
                let mut c = base.clone();
                push_char(&mut c, '_');
                let count: u64 = if (self.bookmarks.len() as u64) < u64::MAX {
                    self.bookmarks.len() as u64 + 1
                } else {
                    self.bookmarks.len() as u64
                };
                push_decimal(&mut c, count);
                proof { reveal_strlit("_"); }
                assert(c@ =~= base@ + "_"@ + decimal(next_count(pairs_view(self.bookmarks@).len())));
                c
            },
            None => base,
        };
        let cc = chars_of(candidate.as_str());
        let name = if cc.len() > 40 { substring(&cc, 0, 40) } else { string_of(&cc) };
        assert(cc@.subrange(0, 40) =~= cc@.take(40) || cc.len() <= 40);
        let ghost before = self.bookmarks@;
        self.bookmarks.push((normalized_path, name.clone()));
        assert(pairs_view(self.bookmarks@) =~= pairs_view(before).push((normalized(path@), name@)));
        name
    }

    /// The id of bookmark `name` (see `name_id`).
    pub fn bookmark_id(&mut self, name: &str) -> (id: String)
        ensures
            (final(self)@, id@) == name_id(old(self)@, name@),
    {
        let key = crate::text::to_string(name);
        match find_value(&self.bookmark_ids, &key) {
            Some(id) => return id,
            None => {},
        }
        let mut id = String::new();
        push_decimal(&mut id, self.next_bookmark_id as u64);
        assert(id@ =~= decimal(self.next_bookmark_id as nat));
        if self.next_bookmark_id < usize::MAX {
            self.next_bookmark_id = self.next_bookmark_id + 1;
        }
        let ghost before = self.bookmark_ids@;
        self.bookmark_ids.push((key, id.clone()));
        assert(pairs_view(self.bookmark_ids@) =~= pairs_view(before).push((name@, id@)));
        id
    }

    /// The bookmark of a chapter (see `chapter_mark`).
    pub fn chapter_bookmark(&mut self, source_path: Option<&str>) -> (r: Option<BookmarkRef>)
        ensures
            (final(self)@, crate::docx_parts::bookmark_view(r)) == chapter_mark(
                old(self)@,
                match source_path {
                    Some(p) => Some(p@),
                    None => None,
                },
            ),
    {
        match source_path {
            None => None,
            Some(p) => {
                let name = self.bookmark_for_path(p);
                let id = self.bookmark_id(name.as_str());
                Some(BookmarkRef { id, name })
            },
        }
    }

    /// A numbering instance for a new ordered list (see `ordered_numbering`).
    pub fn ordered_numbering_id(&mut self, level: usize, start: u64) -> (id: i32)
        ensures
            (final(self)@, id) == ordered_numbering(old(self)@, level, start),
    {
        let number_id = self.next_numbering_id;
        if self.next_numbering_id < i32::MAX {
            self.next_numbering_id = self.next_numbering_id + 1;
        }
        self.ordered_lists.push(OrderedListDefinition { number_id, level, start });
        number_id
    }

    /// A new drawing id (see `drawing`).
    pub fn next_drawing(&mut self) -> (id: u32)
        ensures
            (final(self)@, id) == drawing(old(self)@),
    {
        let id = self.next_drawing_id;
        if self.next_drawing_id < u32::MAX {
            self.next_drawing_id = self.next_drawing_id + 1;
        }
        id
    }
}

/// Whether `url` leads outside the book: `http:`, `https:`, `mailto:` or
/// `tel:`.
pub open spec fn is_remote_link(url: Seq<char>) -> bool {
    seq_starts_with(url, "http://"@) || seq_starts_with(url, "https://"@)
        || seq_starts_with(url, "mailto:"@) || seq_starts_with(url, "tel:"@)
}

/// Whether `url` leads outside the book (see `is_remote_link`).
pub fn is_remote_url(url: &str) -> (b: bool)
    ensures
        b == is_remote_link(url@),
{
    let s = chars_of(url);
    starts_with(&s, "http://") || starts_with(&s, "https://") || starts_with(&s, "mailto:")
        || starts_with(&s, "tel:")
}

/// The directory that a link in the chapter at `source_path` starts from,
/// for the link path `path`: none for a path from the root, else the
/// chapter's directory.
pub open spec fn link_base(source_path: Option<Seq<char>>, path: Seq<char>) -> Seq<char> {
    if seq_starts_with(path, "/"@) {
        seq![]
    } else {
        match source_path {
            Some(sp) => match parent_dir(sp) {
                Some(d) => d,
                None => seq![],
            },
            None => seq![],
        }
    }
}

/// The Markdown file that `url` links to, relative to the book's source:
/// none for a remote URL or a path without `.md` at its end.
pub open spec fn md_link_path(source_path: Option<Seq<char>>, url: Seq<char>) -> Option<Seq<char>> {
    let path = without_fragment(url);
    if is_remote_link(url) || !seq_ends_with(path, ".md"@) {
        None
    } else {
        Some(normalized(path_join(link_base(source_path, path), path)))
    }
}

/// The part of `s` before the first `#` or `?`.
pub open spec fn before_query(s: Seq<char>) -> Seq<char> {
    let h = without_fragment(s);
    match first_index(h, '?') {
        Some(i) => h.subrange(0, i),
        None => h,
    }
}

/// The file that an image `url` names, relative to the book's source: none
/// for a remote URL or an empty path.
pub open spec fn asset_path(source_path: Option<Seq<char>>, url: Seq<char>) -> Option<Seq<char>> {
    let path = before_query(url);
    if is_remote_link(url) || path.len() == 0 {
        None
    } else {
        Some(normalized(path_join(link_base(source_path, path), path)))
    }
}

fn link_base_of(source_path: Option<&str>, path: &str) -> (r: String)
    ensures
        r@ == link_base(
            match source_path {
                Some(p) => Some(p@),
                None => None,
            },
            path@,
        ),
{
    let pv = chars_of(path);
    if starts_with(&pv, "/") {
        return String::new();
    }
    match source_path {
        None => String::new(),
        Some(sp) => match parent_of(sp) {
            Some(d) => d,
            None => String::new(),
        },
    }
}

/// The Markdown file that `url` links to (see `md_link_path`).
pub fn local_md_path(source_path: Option<&str>, url: &str) -> (r: Option<String>)
    ensures
        crate::docx_model::opt_seq(r) == md_link_path(
            match source_path {
                Some(p) => Some(p@),
                None => None,
            },
            url@,
        ),
{
    if is_remote_url(url) {
        return None;
    }
    let path = crate::paths::strip_fragment(url);
    let pv = chars_of(path.as_str());
    if !ends_with(&pv, ".md") {
        return None;
    }
    let base = link_base_of(source_path, path.as_str());
    let joined = join_path(base.as_str(), path.as_str());
    Some(normalize_path(joined.as_str()))
}

/// The file that an image `url` names (see `asset_path`).
pub fn local_asset_path(source_path: Option<&str>, url: &str) -> (r: Option<String>)
    ensures
        crate::docx_model::opt_seq(r) == asset_path(
            match source_path {
                Some(p) => Some(p@),
                None => None,
            },
            url@,
        ),
{
    if is_remote_url(url) {
        return None;
    }
    let h = crate::paths::strip_fragment(url);
    let hv = chars_of(h.as_str());
    let path = match find_char(&hv, '?') {
        Some(i) => substring(&hv, 0, i),
        None => string_of(&hv),
    };
    if path.as_str().is_empty() {
        return None;
    }
    let base = link_base_of(source_path, path.as_str());
    let joined = join_path(base.as_str(), path.as_str());
    Some(normalize_path(joined.as_str()))
}

/// Where a link to `url` in the chapter at `source_path` leads, and the
/// registry after it: `#anchor` to the bookmark of that anchor, a local
/// Markdown file to the chapter's bookmark, anything else to the URL.
pub open spec fn link_target_of(r: RegistryV, source_path: Option<Seq<char>>, url: Seq<char>) -> (RegistryV, LinkTargetV) {
    if seq_starts_with(url, "#"@) {
        (r, LinkTargetV::Anchor(bookmark_name_of(url.subrange(1, url.len() as int))))
    } else {
        match md_link_path(source_path, url) {
            Some(p) => {
                let (r1, name) = path_bookmark(r, p);
                (r1, LinkTargetV::Anchor(name))
            },
            None => (r, LinkTargetV::External(url)),
        }
    }
}

impl DocxRegistry {
    /// Where a link leads (see `link_target_of`).
    pub fn link_target(&mut self, source_path: Option<&str>, url: &str) -> (t: LinkTarget)
        ensures
            (final(self)@, t@) == link_target_of(
                old(self)@,
                match source_path {
                    Some(p) => Some(p@),
                    None => None,
                },
                url@,
            ),
    {
        let s = chars_of(url);
        proof { reveal_strlit("#"); }
        if starts_with(&s, "#") {
            let rest = substring(&s, 1, s.len());
            return LinkTarget::Anchor(bookmark_name(rest.as_str()));
        }
        match local_md_path(source_path, url) {
            Some(p) => LinkTarget::Anchor(self.bookmark_for_path(p.as_str())),
            None => LinkTarget::External(crate::text::to_string(url)),
        }
    }
}

} // verus!
