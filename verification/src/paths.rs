//! Book-relative paths and link targets, written with `/` separators:
//! normalisation of `.` and `..`, fragments, `.md` to `.html`, and the tests
//! that tell remote URLs and e-mail addresses from local links.

use vstd::prelude::*;
use crate::text::{
    chars_of, ends_with, find_char, find_char_from, first_index, first_index_from,
    lemma_first_index_from, push_char, push_chars, seq_ends_with, seq_has_char, seq_starts_with,
    slice_to_vec, split_once, starts_with, string_of, substring, push_str,
};

verus! {

/// The `/`-separated segments of `s` from position `i` on (empty segments
/// included), as `str::split('/')` yields them.
pub open spec fn segments_from(s: Seq<char>, i: int) -> Seq<Seq<char>>
    decreases s.len() - i,
{
    match first_index_from(s, '/', i) {
        None => seq![s.subrange(i, s.len() as int)],
        Some(j) => if i <= j < s.len() {
            seq![s.subrange(i, j)] + segments_from(s, j + 1)
        } else {
            seq![]
        },
    }
}

/// The `/`-separated segments of `s`.
pub open spec fn segments(s: Seq<char>) -> Seq<Seq<char>> {
    segments_from(s, 0)
}

/// Whether a segment names a directory entry (not empty, `.` or `..`).
pub open spec fn is_normal_segment(x: Seq<char>) -> bool {
    x.len() != 0 && x != seq!['.'] && x != seq!['.', '.']
}

/// The entries left after walking `segs`: empty segments and `.` stay put,
/// `..` goes up one entry (not above the start), other segments go down.
pub open spec fn resolve(segs: Seq<Seq<char>>) -> Seq<Seq<char>>
    decreases segs.len(),
{
    if segs.len() == 0 {
        seq![]
    } else {
        let r = resolve(segs.drop_last());
        let x = segs.last();
        if x == seq!['.', '.'] {
            if r.len() > 0 { r.drop_last() } else { r }
        } else if is_normal_segment(x) {
            r.push(x)
        } else {
            r
        }
    }
}

/// The entries joined by `/`.
pub open spec fn join_segments(parts: Seq<Seq<char>>) -> Seq<char>
    decreases parts.len(),
{
    if parts.len() == 0 {
        seq![]
    } else if parts.len() == 1 {
        parts[0]
    } else {
        join_segments(parts.drop_last()).push('/') + parts.last()
    }
}

/// `s` with `.`, `..`, empty segments and a leading `/` resolved away: a
/// relative path without a trailing `/`.
pub open spec fn normalized(s: Seq<char>) -> Seq<char> {
    join_segments(resolve(segments(s)))
}

/// `x` holds no `/`.
pub open spec fn no_slash(x: Seq<char>) -> bool {
    forall|m: int| 0 <= m < x.len() ==> x[m] != '/'
}

proof fn lemma_first_index_is(s: Seq<char>, c: char, from: int, j: int)
    requires
        0 <= from <= j < s.len(),
        s[j] == c,
        forall|k: int| from <= k < j ==> s[k] != c,
    ensures
        first_index_from(s, c, from) == Some(j),
    decreases j - from,
{
    if from < j {
        lemma_first_index_is(s, c, from + 1, j);
    }
}

proof fn lemma_first_index_none(s: Seq<char>, c: char, from: int)
    requires
        0 <= from,
        forall|k: int| from <= k < s.len() ==> s[k] != c,
    ensures
        first_index_from(s, c, from) is None,
    decreases s.len() - from,
{
    if from < s.len() {
        lemma_first_index_none(s, c, from + 1);
    }
}

proof fn lemma_segments_no_slash(s: Seq<char>, i: int)
    requires
        0 <= i <= s.len(),
    ensures
        forall|k: int| 0 <= k < segments_from(s, i).len() ==> no_slash(#[trigger] segments_from(s, i)[k]),
    decreases s.len() - i,
{
    lemma_first_index_from(s, '/', i);
    match first_index_from(s, '/', i) {
        Some(j) => {
            lemma_segments_no_slash(s, j + 1);
            let first = s.subrange(i, j);
            assert(no_slash(first));
            assert forall|k: int| 0 <= k < segments_from(s, i).len() implies no_slash(#[trigger] segments_from(s, i)[k]) by {
                if k > 0 {
                    assert(segments_from(s, i)[k] == segments_from(s, j + 1)[k - 1]);
                }
            }
        },
        None => {
            assert(no_slash(s.subrange(i, s.len() as int)));
        },
    }
}

proof fn lemma_segments_concat(u: Seq<char>, v: Seq<char>, i: int)
    requires
        0 <= i <= u.len(),
        no_slash(v),
    ensures
        segments_from(u + seq!['/'] + v, i) == segments_from(u, i).push(v),
    decreases u.len() - i,
{
    let w = u + seq!['/'] + v;
    let n = u.len() as int;
    assert(w[n] == '/');
    assert(forall|k: int| 0 <= k < n ==> w[k] == u[k]);
    assert(forall|k: int| n < k < w.len() ==> w[k] == v[k - n - 1]);
    lemma_first_index_from(u, '/', i);
    match first_index_from(u, '/', i) {
        Some(j) => {
            lemma_first_index_is(w, '/', i, j);
            lemma_segments_concat(u, v, j + 1);
            assert(w.subrange(i, j) =~= u.subrange(i, j));
            assert(segments_from(w, i) =~= seq![u.subrange(i, j)] + segments_from(u, j + 1).push(v));
        },
        None => {
            lemma_first_index_is(w, '/', i, n);
            lemma_first_index_none(w, '/', n + 1);
            assert(w.subrange(i, n) =~= u.subrange(i, n));
            assert(w.subrange(n + 1, w.len() as int) =~= v);
            assert(segments_from(w, n + 1) =~= seq![v]);
        },
    }
}

proof fn lemma_segments_join(r: Seq<Seq<char>>)
    requires
        r.len() > 0,
        forall|k: int| 0 <= k < r.len() ==> no_slash(#[trigger] r[k]),
    ensures
        segments(join_segments(r)) == r,
    decreases r.len(),
{
    if r.len() == 1 {
        lemma_first_index_none(r[0], '/', 0);
        assert(r[0].subrange(0, r[0].len() as int) =~= r[0]);
        assert(segments(r[0]) =~= r);
    } else {
        let rest = r.drop_last();
        assert forall|k: int| 0 <= k < rest.len() implies no_slash(#[trigger] rest[k]) by {
            assert(rest[k] == r[k]);
        }
        lemma_segments_join(rest);
        assert(no_slash(r.last()));
        lemma_segments_concat(join_segments(rest), r.last(), 0);
        assert(join_segments(rest).push('/') + r.last() =~= join_segments(rest) + seq!['/'] + r.last());
        assert(rest.push(r.last()) =~= r);
    }
}

proof fn lemma_resolve_parts(segs: Seq<Seq<char>>)
    requires
        forall|k: int| 0 <= k < segs.len() ==> no_slash(#[trigger] segs[k]),
    ensures
        forall|k: int| 0 <= k < resolve(segs).len() ==> no_slash(#[trigger] resolve(segs)[k]) && is_normal_segment(resolve(segs)[k]),
    decreases segs.len(),
{
    if segs.len() > 0 {
        let rest = segs.drop_last();
        assert forall|k: int| 0 <= k < rest.len() implies no_slash(#[trigger] rest[k]) by {
            assert(rest[k] == segs[k]);
        }
        lemma_resolve_parts(rest);
        let r = resolve(rest);
        assert(no_slash(segs.last()));
        assert forall|k: int| 0 <= k < resolve(segs).len() implies no_slash(#[trigger] resolve(segs)[k]) && is_normal_segment(resolve(segs)[k]) by {
            if k < r.len() {
                assert(r.drop_last().len() <= r.len());
                if resolve(segs) == r.drop_last() {
                    assert(resolve(segs)[k] == r[k]);
                } else if resolve(segs) == r.push(segs.last()) {
                    assert(resolve(segs)[k] == r[k]);
                }
            }
        }
    }
}

proof fn lemma_resolve_normal(x: Seq<Seq<char>>)
    requires
        forall|k: int| 0 <= k < x.len() ==> is_normal_segment(#[trigger] x[k]),
    ensures
        resolve(x) == x,
    decreases x.len(),
{
    if x.len() > 0 {
        let rest = x.drop_last();
        assert forall|k: int| 0 <= k < rest.len() implies is_normal_segment(#[trigger] rest[k]) by {
            assert(rest[k] == x[k]);
        }
        lemma_resolve_normal(rest);
        assert(is_normal_segment(x.last()));
        assert(x.last() != seq!['.', '.']);
        assert(rest.push(x.last()) =~= x);
    }
}

/// A normalised path is relative and holds only entries: every segment of
/// a non-empty one is a name (not empty, `.` or `..`), so it neither starts
/// nor ends with `/`; the empty path stands for the starting directory.
pub proof fn lemma_normalized_segments(p: Seq<char>)
    ensures
        normalized(p).len() > 0 ==> forall|k: int| 0 <= k < segments(normalized(p)).len()
            ==> is_normal_segment(#[trigger] segments(normalized(p))[k]),
        normalized(p).len() > 0 ==> normalized(p)[0] != '/' && normalized(p).last() != '/',
{
    lemma_segments_no_slash(p, 0);
    let r = resolve(segments(p));
    lemma_resolve_parts(segments(p));
    if r.len() > 0 {
        lemma_segments_join(r);
        let s = normalized(p);
        assert(segments(s) == r);
        lemma_first_last_segment(s);
    } else {
        assert(join_segments(r) =~= Seq::<char>::empty());
    }
}

/// A path that starts or ends with `/` has an empty first or last segment.
proof fn lemma_first_last_segment(s: Seq<char>)
    requires
        s.len() > 0,
    ensures
        s[0] == '/' ==> segments(s)[0].len() == 0,
        s.last() == '/' ==> segments(s).last().len() == 0,
{
    if s[0] == '/' {
        lemma_first_index_is(s, '/', 0, 0);
        assert(s.subrange(0, 0).len() == 0);
    }
    if s.last() == '/' {
        lemma_segments_end(s, 0);
    }
}

/// The last segment from `i` on is the part after the last `/`.
proof fn lemma_segments_end(s: Seq<char>, i: int)
    requires
        0 <= i <= s.len(),
        s.len() > 0,
        s.last() == '/',
    ensures
        segments_from(s, i).len() > 0,
        segments_from(s, i).last().len() == 0,
    decreases s.len() - i,
{
    lemma_first_index_from(s, '/', i);
    match first_index_from(s, '/', i) {
        None => {
            if i < s.len() {
                assert(s[s.len() - 1] == '/');
            }
            assert(s.subrange(i, s.len() as int).len() == 0);
        },
        Some(j) => {
            lemma_segments_end(s, j + 1);
            assert(segments_from(s, i) == seq![s.subrange(i, j)] + segments_from(s, j + 1));
        },
    }
}

/// Normalising a normalised path changes nothing, so two paths that
/// normalise alike name the same file however often they are normalised.
pub proof fn lemma_normalized_idempotent(p: Seq<char>)
    ensures
        normalized(normalized(p)) == normalized(p),
{
    lemma_segments_no_slash(p, 0);
    let r = resolve(segments(p));
    lemma_resolve_parts(segments(p));
    if r.len() == 0 {
        let e: Seq<char> = seq![];
        assert(normalized(p) == join_segments(r));
        assert(join_segments(r) =~= e);
        assert(first_index_from(e, '/', 0) is None);
        assert(e.subrange(0, 0) =~= e);
        assert(segments(e) =~= seq![e]);
        let one: Seq<Seq<char>> = seq![e];
        assert(one.drop_last() =~= Seq::<Seq<char>>::empty());
        assert(one.last() == e);
        assert(e != seq!['.', '.']);
        assert(!is_normal_segment(e));
        assert(resolve(Seq::<Seq<char>>::empty()) =~= Seq::<Seq<char>>::empty());
        assert(resolve(one) == resolve(one.drop_last()));
    } else {
        lemma_segments_join(r);
        lemma_resolve_normal(r);
    }
}

/// `base` joined with `target` by a `/` (just `target` when `base` is empty).
pub open spec fn path_join(base: Seq<char>, target: Seq<char>) -> Seq<char> {
    if base.len() == 0 { target } else { base.push('/') + target }
}

/// The part of `s` before the first `#`.
pub open spec fn without_fragment(s: Seq<char>) -> Seq<char> {
    match first_index(s, '#') {
        Some(i) => s.subrange(0, i),
        None => s,
    }
}

pub open spec fn spec_is_remote_url(s: Seq<char>) -> bool {
    seq_starts_with(s, "http://"@) || seq_starts_with(s, "https://"@)
}

pub open spec fn spec_looks_like_email(s: Seq<char>) -> bool {
    match split_once(s, '@') {
        Some((local, domain)) => local.len() != 0 && seq_has_char(domain, '.')
            && !seq_ends_with(domain, "."@),
        None => false,
    }
}

/// The views of a vector of character vectors.
pub open spec fn views(v: Seq<Vec<char>>) -> Seq<Seq<char>> {
    Seq::new(v.len(), |i: int| v[i]@)
}

/// Whether `value` is an `http://` or `https://` URL.
pub fn is_remote_url(value: &str) -> (b: bool)
    ensures
        b == spec_is_remote_url(value@),
{
    let s = chars_of(value);
    starts_with(&s, "http://") || starts_with(&s, "https://")
}

/// Whether `value` looks like an e-mail address: something before the first
/// `@`, and after it a domain that holds a `.` and does not end with one.
pub fn looks_like_email(value: &str) -> (b: bool)
    ensures
        b == spec_looks_like_email(value@),
{
    let s = chars_of(value);
    match find_char(&s, '@') {
        None => false,
        Some(at) => {
            let domain = slice_to_vec(&s, at + 1, s.len());
            let has_dot = find_char(&domain, '.').is_some();
            proof {
                lemma_first_index_from(domain@, '.', 0);
                if has_dot {
                    let k = first_index(domain@, '.')->0;
                    assert(domain@[k] == '.');
                }
            }
            at != 0 && has_dot && !ends_with(&domain, ".")
        },
    }
}

/// The part of `target` before the first `#`.
pub fn strip_fragment(target: &str) -> (r: String)
    ensures
        r@ == without_fragment(target@),
{
    let s = chars_of(target);
    match find_char(&s, '#') {
        Some(i) => substring(&s, 0, i),
        None => string_of(&s),
    }
}

/// `path` with `.`, `..` and empty segments resolved (see `normalized`).
pub fn normalize_path(path: &str) -> (r: String)
    ensures
        r@ == normalized(path@),
{
    let s = chars_of(path);
    let mut stack: Vec<Vec<char>> = Vec::new();
    let mut i: usize = 0;
    let ghost mut done: Seq<Seq<char>> = seq![];
    loop
        invariant_except_break
            segments_from(s@, 0) == done + segments_from(s@, i as int),
            views(stack@) == resolve(done),
        invariant
            s@ == path@,
            i <= s.len(),
        ensures
            views(stack@) == resolve(segments(s@)),
        decreases s.len() - i,
    {
        let found = find_char_from(&s, '/', i);
        proof { lemma_first_index_from(s@, '/', i as int); }
        let j = match found { Some(j) => j, None => s.len() };
        let seg = slice_to_vec(&s, i, j);
        let ghost before = views(stack@);
        if seg.len() == 2 && seg[0] == '.' && seg[1] == '.' {
            assert(seg@ =~= seq!['.', '.']);
            if stack.len() > 0 {
                stack.pop();
                assert(views(stack@) =~= before.drop_last());
            }
        } else if seg.len() == 0 || (seg.len() == 1 && seg[0] == '.') {
            proof {
                if seg.len() == 1 { assert(seg@ =~= seq!['.']); }
            }
        } else {
            proof {
                if seg.len() == 1 { assert(seg@ != seq!['.']); }
                if seg.len() == 2 { assert(seg@ != seq!['.', '.'] ) by {
                    if seg@ == seq!['.', '.'] { assert(seg@[0] == '.' && seg@[1] == '.'); }
                } }
            }
            stack.push(seg);
            assert(views(stack@) =~= before.push(seg@));
        }
        proof {
            let nd = done.push(seg@);
            assert(nd.drop_last() =~= done);
            match found {
                Some(j) => {
                    assert(segments_from(s@, i as int) =~= seq![seg@] + segments_from(s@, j + 1));
                    assert(done + segments_from(s@, i as int) =~= nd + segments_from(s@, j + 1));
                },
                None => {
                    assert(segments_from(s@, i as int) =~= seq![seg@]);
                },
            }
            done = nd;
        }
        match found {
            Some(j) => { i = j + 1; },
            None => {
                assert(done =~= segments(s@));
                break;
            },
        }
    }
    join_parts(&stack)
}

/// The parts joined by `/`.
pub fn join_parts(parts: &Vec<Vec<char>>) -> (r: String)
    ensures
        r@ == join_segments(views(parts@)),
{
    let mut out = String::new();
    let mut k: usize = 0;
    while k < parts.len()
        invariant
            k <= parts.len(),
            out@ == join_segments(views(parts@).take(k as int)),
        decreases parts.len() - k,
    {
        let ghost t = views(parts@).take(k + 1);
        assert(t.drop_last() =~= views(parts@).take(k as int));
        if k > 0 {
            push_char(&mut out, '/');
        } else {
            assert(views(parts@).take(0) =~= seq![]);
        }
        push_chars(&mut out, parts[k].as_slice());
        assert(out@ =~= join_segments(t));
        k += 1;
    }
    assert(views(parts@).take(parts.len() as int) =~= views(parts@));
    out
}


/// Index of the last occurrence of `c` in `s`, if any.
pub open spec fn last_index(s: Seq<char>, c: char) -> Option<int>
    decreases s.len(),
{
    if s.len() == 0 {
        None
    } else if s.last() == c {
        Some(s.len() - 1)
    } else {
        last_index(s.drop_last(), c)
    }
}

pub proof fn lemma_last_index(s: Seq<char>, c: char)
    ensures
        match last_index(s, c) {
            Some(k) => 0 <= k < s.len() && s[k] == c && forall|j: int| k < j < s.len() ==> s[j] != c,
            None => forall|j: int| 0 <= j < s.len() ==> s[j] != c,
        },
    decreases s.len(),
{
    if s.len() > 0 && s.last() != c {
        lemma_last_index(s.drop_last(), c);
        assert(forall|j: int| 0 <= j < s.len() - 1 ==> s.drop_last()[j] == s[j]);
    }
}

/// `p` with a trailing `.md` turned into `.html`.
pub open spec fn md_to_html_link(p: Seq<char>) -> Seq<char> {
    if seq_ends_with(p, ".md"@) { p.subrange(0, p.len() - 3) + ".html"@ } else { p }
}

/// Where the file name of `p` starts (after its last `/`).
pub open spec fn file_name_start(p: Seq<char>) -> int {
    match last_index(p, '/') {
        Some(k) => k + 1,
        None => 0,
    }
}

/// `p` with the extension of its file name replaced by `.ext` (added when it
/// has none), as `PathBuf::set_extension` does; a path whose last segment is
/// empty, `.` or `..` stays as it is.
pub open spec fn with_extension(p: Seq<char>, ext: Seq<char>) -> Seq<char> {
    let k = file_name_start(p);
    let name = p.subrange(k, p.len() as int);
    if name.len() == 0 || name == seq!['.'] || name == seq!['.', '.'] {
        p
    } else {
        let stem = match last_index(name, '.') {
            Some(d) => if d > 0 { name.subrange(0, d) } else { name },
            None => name,
        };
        p.subrange(0, k) + stem + seq!['.'] + ext
    }
}

/// `p` with the extension `.html` (see `with_extension`).
pub open spec fn with_html_extension(p: Seq<char>) -> Seq<char> {
    with_extension(p, "html"@)
}

/// The directory part of `p` (everything before its last `/`; empty for a
/// bare file name), or `None` for the empty path.
pub open spec fn parent_dir(p: Seq<char>) -> Option<Seq<char>> {
    if p.len() == 0 {
        None
    } else {
        match last_index(p, '/') {
            Some(k) => Some(p.subrange(0, k)),
            None => Some(seq![]),
        }
    }
}

/// Where a link target of a chapter in `dir` points inside the book: the
/// target without its fragment, taken relative to `dir` unless it starts with
/// `/`, then normalised.
pub open spec fn output_path(dir: Option<Seq<char>>, target: Seq<char>) -> Seq<char> {
    let t = without_fragment(target);
    let base = if seq_starts_with(t, "/"@) {
        seq![]
    } else {
        match dir {
            Some(d) => d,
            None => seq![],
        }
    };
    normalized(path_join(base, t))
}

/// Whether a character may stand in a Typst label as it is.
pub open spec fn is_label_char(c: char) -> bool {
    ('a' <= c <= 'z') || ('A' <= c <= 'Z') || ('0' <= c <= '9') || c == '-' || c == '_' || c == '.'
}

/// `s` with each character that may not stand in a Typst label replaced by
/// `-`; `chapter` when `s` is empty.
pub open spec fn typst_label(s: Seq<char>) -> Seq<char> {
    if s.len() == 0 {
        "chapter"@
    } else {
        Seq::new(s.len(), |i: int| if is_label_char(s[i]) { s[i] } else { '-' })
    }
}

/// A Typst label is never empty, holds only ASCII letters and digits,
/// `-`, `_` and `.`, and is as long as its text when that is not empty.
pub proof fn lemma_typst_label_chars(s: Seq<char>)
    ensures
        typst_label(s).len() > 0,
        forall|i: int| 0 <= i < typst_label(s).len() ==> is_label_char(#[trigger] typst_label(s)[i]),
        s.len() > 0 ==> typst_label(s).len() == s.len(),
{
    reveal_strlit("chapter");
    if s.len() == 0 {
        let c = "chapter"@;
        assert(c =~= seq!['c', 'h', 'a', 'p', 't', 'e', 'r']);
    }
}

/// `p` with a trailing `.md` turned into `.html`.
pub fn md_link_to_html(path: &str) -> (r: String)
    ensures
        r@ == md_to_html_link(path@),
{
    let s = chars_of(path);
    proof { reveal_strlit(".md"); }
    if ends_with(&s, ".md") {
        let mut out = substring(&s, 0, s.len() - 3);
        push_str(&mut out, ".html");
        out
    } else {
        string_of(&s)
    }
}

/// Index of the last occurrence of `c` in `s`.
pub fn find_last_char(s: &[char], c: char) -> (r: Option<usize>)
    ensures
        match r {
            Some(k) => last_index(s@, c) == Some(k as int) && k < s.len(),
            None => last_index(s@, c) is None,
        },
{
    let mut i = s.len();
    assert(s@.subrange(0, s@.len() as int) =~= s@);
    while i > 0
        invariant
            i <= s.len(),
            last_index(s@, c) == last_index(s@.subrange(0, i as int), c),
        decreases i,
    {
        let ghost t = s@.subrange(0, i as int);
        if s[i - 1] == c {
            return Some(i - 1);
        }
        assert(t.drop_last() =~= s@.subrange(0, i - 1));
        i -= 1;
    }
    assert(s@.subrange(0, 0) =~= Seq::<char>::empty());
    None
}

/// `path` with the extension of its file name set to `ext`
/// (see `with_extension`).
pub fn set_extension(path: &str, ext: &str) -> (r: String)
    ensures
        r@ == with_extension(path@, ext@),
{
    let s = chars_of(path);
    assert(s@.subrange(0, s@.len() as int) =~= s@);
    proof { lemma_last_index(s@, '/'); }
    let k = match find_last_char(&s, '/') {
        Some(k) => k + 1,
        None => 0,
    };
    let name = slice_to_vec(&s, k, s.len());
    if name.len() == 0 || (name.len() == 1 && name[0] == '.')
        || (name.len() == 2 && name[0] == '.' && name[1] == '.') {
        proof {
            if name.len() == 1 { assert(name@ =~= seq!['.']); }
            if name.len() == 2 { assert(name@ =~= seq!['.', '.']); }
        }
        return string_of(&s);
    }
    proof {
        if name.len() == 1 { assert(name@ != seq!['.']) by { if name@ == seq!['.'] { assert(name@[0] == '.'); } } }
        if name.len() == 2 {
            assert(name@ != seq!['.', '.']) by {
                if name@ == seq!['.', '.'] { assert(name@[0] == '.' && name@[1] == '.'); }
            }
        }
    }
    proof { lemma_last_index(name@, '.'); }
    let stem_end = match find_last_char(&name, '.') {
        Some(d) => if d > 0 { d } else { name.len() },
        None => name.len(),
    };
    let mut out = substring(&s, 0, k);
    push_chars(&mut out, &slice_to_vec(&name, 0, stem_end));
    push_char(&mut out, '.');
    push_str(&mut out, ext);
    assert(name@.subrange(0, name@.len() as int) =~= name@);
    out
}

/// `path` with the extension `html` (see `with_html_extension`).
pub fn md_path_to_html(path: &str) -> (r: String)
    ensures
        r@ == with_html_extension(path@),
{
    set_extension(path, "html")
}

/// The name of an output file: the book's title (`book` without one) with
/// the extension `ext`.
pub open spec fn output_file_name(title: Option<Seq<char>>, ext: Seq<char>) -> Seq<char> {
    with_extension(
        match title {
            Some(t) => t,
            None => "book"@,
        },
        ext,
    )
}

/// The name of the output file for a book with `title` (see `output_file_name`).
pub fn output_filename(title: Option<&str>, extension: &str) -> (r: String)
    ensures
        r@ == output_file_name(
            match title {
                Some(t) => Some(t@),
                None => None,
            },
            extension@,
        ),
{
    match title {
        Some(t) => set_extension(t, extension),
        None => set_extension("book", extension),
    }
}

/// The directory part of `path` (see `parent_dir`).
pub fn parent_of(path: &str) -> (r: Option<String>)
    ensures
        match r {
            Some(d) => parent_dir(path@) == Some(d@),
            None => parent_dir(path@) is None,
        },
{
    let s = chars_of(path);
    if s.len() == 0 {
        return None;
    }
    proof { lemma_last_index(s@, '/'); }
    match find_last_char(&s, '/') {
        Some(k) => {
            Some(substring(&s, 0, k))
        },
        None => Some(String::new()),
    }
}

/// `base` and `target` joined by a `/` (see `path_join`).
pub fn join_path(base: &str, target: &str) -> (r: String)
    ensures
        r@ == path_join(base@, target@),
{
    let b = chars_of(base);
    if b.len() == 0 {
        let t = chars_of(target);
        return string_of(&t);
    }
    let mut out = string_of(&b);
    push_char(&mut out, '/');
    push_str(&mut out, target);
    out
}

/// Where `target`, linked from a chapter in `chapter_rel_dir`, points inside
/// the book (see `output_path`).
pub fn normalize_output_path(chapter_rel_dir: Option<&str>, target: &str) -> (r: String)
    ensures
        r@ == output_path(
            match chapter_rel_dir {
                Some(d) => Some(d@),
                None => None,
            },
            target@,
        ),
{
    let t = strip_fragment(target);
    let tv = chars_of(t.as_str());
    let base = if starts_with(&tv, "/") {
        String::new()
    } else {
        match chapter_rel_dir {
            Some(d) => string_of(&chars_of(d)),
            None => String::new(),
        }
    };
    let joined = join_path(base.as_str(), t.as_str());
    normalize_join(joined.as_str())
}

/// A joined path with `.`, `..` and empty segments resolved (see
/// `normalized`).
pub fn normalize_join(path: &str) -> (r: String)
    ensures
        r@ == normalized(path@),
{
    normalize_path(path)
}

/// `target` under `base` as `Path::join` puts it: a path from the root
/// stands alone, and no `/` is doubled.
pub open spec fn fs_join(base: Seq<char>, target: Seq<char>) -> Seq<char> {
    if seq_starts_with(target, "/"@) || base.len() == 0 {
        target
    } else if seq_ends_with(base, "/"@) {
        base + target
    } else {
        base.push('/') + target
    }
}

/// `target` under `base` (see `fs_join`).
pub fn join_under(base: &str, target: &str) -> (r: String)
    ensures
        r@ == fs_join(base@, target@),
{
    let t = chars_of(target);
    let b = chars_of(base);
    if starts_with(&t, "/") || b.len() == 0 {
        return string_of(&t);
    }
    let mut out = string_of(&b);
    if !ends_with(&b, "/") {
        push_char(&mut out, '/');
    }
    push_str(&mut out, target);
    out
}

/// Where the source of an asset `target` (without its fragment) may be:
/// under the book's source directory, then beside the chapter.
pub open spec fn source_candidates_v(source_dir: Seq<char>, chapter_dir: Option<Seq<char>>, target: Seq<char>) -> Seq<Seq<char>> {
    let t = without_fragment(target);
    match chapter_dir {
        Some(d) => seq![fs_join(source_dir, t), fs_join(d, t)],
        None => seq![fs_join(source_dir, t)],
    }
}

/// Where the source of an asset may be (see `source_candidates_v`).
pub fn source_candidates(source_dir: &str, chapter_dir: Option<&str>, target: &str) -> (r: Vec<String>)
    ensures
        crate::text::string_views(r@) == source_candidates_v(
            source_dir@,
            match chapter_dir {
                Some(d) => Some(d@),
                None => None,
            },
            target@,
        ),
{
    let t = strip_fragment(target);
    let mut v: Vec<String> = Vec::new();
    v.push(join_under(source_dir, t.as_str()));
    match chapter_dir {
        Some(d) => v.push(join_under(d, t.as_str())),
        None => {},
    }
    assert(crate::text::string_views(v@) =~= source_candidates_v(
        source_dir@,
        match chapter_dir {
            Some(d) => Some(d@),
            None => None,
        },
        target@,
    ));
    v
}

/// The first candidate that exists (`exists[i]` tells for `candidates[i]`),
/// else the first candidate.
pub open spec fn resolved_source(candidates: Seq<Seq<char>>, exists: Seq<bool>) -> Seq<char>
    recommends
        candidates.len() > 0,
{
    match first_existing(candidates, exists, 0) {
        Some(i) => candidates[i],
        None => candidates[0],
    }
}

pub open spec fn first_existing(candidates: Seq<Seq<char>>, exists: Seq<bool>, from: int) -> Option<int>
    decreases candidates.len() - from,
{
    if from < 0 || from >= candidates.len() {
        None
    } else if from < exists.len() && exists[from] {
        Some(from)
    } else {
        first_existing(candidates, exists, from + 1)
    }
}

/// The source of an asset (see `resolved_source`).
pub fn resolve_source_path(candidates: &Vec<String>, exists: &Vec<bool>) -> (r: String)
    requires
        candidates@.len() > 0,
    ensures
        r@ == resolved_source(crate::text::string_views(candidates@), exists@),
{
    let ghost cv = crate::text::string_views(candidates@);
    let mut i: usize = 0;
    while i < candidates.len()
        invariant
            i <= candidates.len(),
            cv == crate::text::string_views(candidates@),
            first_existing(cv, exists@, 0) == first_existing(cv, exists@, i as int),
        decreases candidates.len() - i,
    {
        if i < exists.len() && exists[i] {
            return candidates[i].clone();
        }
        i += 1;
    }
    candidates[0].clone()
}

/// The same as `normalize_output_path`.
pub fn normalized_output_path_str(chapter_rel_dir: Option<&str>, target: &str) -> (r: String)
    ensures
        r@ == output_path(
            match chapter_rel_dir {
                Some(d) => Some(d@),
                None => None,
            },
            target@,
        ),
{
    normalize_output_path(chapter_rel_dir, target)
}

/// `text` made into a Typst label (see `typst_label`).
pub fn escape_typst_label(text: &str) -> (r: String)
    ensures
        r@ == typst_label(text@),
{
    let s = chars_of(text);
    if s.len() == 0 {
        let r = string_of(&chars_of("chapter"));
        return r;
    }
    let mut out: Vec<char> = Vec::new();
    let mut i: usize = 0;
    while i < s.len()
        invariant
            i <= s.len(),
            out@ =~= Seq::new(i as nat, |j: int| if is_label_char(s@[j]) { s@[j] } else { '-' }),
        decreases s.len() - i,
    {
        let c = s[i];
        let ok = ('a' <= c && c <= 'z') || ('A' <= c && c <= 'Z') || ('0' <= c && c <= '9')
            || c == '-' || c == '_' || c == '.';
        out.push(if ok { c } else { '-' });
        i += 1;
    }
    string_of(&out)
}

/// The Typst label of an output path.
pub fn label_for_output_path(path: &str) -> (r: String)
    ensures
        r@ == typst_label(path@),
{
    escape_typst_label(path)
}

} // verus!
