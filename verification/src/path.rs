//! Request paths: their segments, their canonical form, and the
//! representation that a path asks for.

use vstd::prelude::*;

verus! {

/// The form in which a page is served.
#[derive(Clone, Copy, Debug, PartialEq, Eq, Structural)]
pub enum Representation {
    Html,
    Json,
}

/// What each string of `v` holds.
pub open spec fn texts(v: Seq<String>) -> Seq<Seq<char>> {
    Seq::new(v.len(), |i: int| v[i]@)
}

/// The pieces of `s` between its slashes, in order. A string without a slash
/// is one piece; `n` slashes give `n + 1` pieces, some of which may be empty.
pub open spec fn split(s: Seq<char>) -> Seq<Seq<char>>
    decreases s.len(),
{
    if s.len() == 0 {
        seq![Seq::<char>::empty()]
    } else {
        let before = split(s.drop_last());
        if s.last() == '/' {
            before.push(Seq::<char>::empty())
        } else {
            before.drop_last().push(before.last().push(s.last()))
        }
    }
}

/// `path` without one leading and one trailing slash.
pub open spec fn trimmed(path: Seq<char>) -> Seq<char> {
    let from: int = if path.len() > 0 && path[0] == '/' {
        1
    } else {
        0
    };
    let to: int = if path.len() > from && path.last() == '/' {
        path.len() - 1
    } else {
        path.len() as int
    };
    path.subrange(from, to)
}

/// The segments of a request path. A leading slash and a trailing slash do
/// not count, so `/a/b`, `/a/b/` and `a/b` have the same two segments, and
/// the root path has none.
pub open spec fn segments(path: Seq<char>) -> Seq<Seq<char>> {
    let inner = trimmed(path);
    if inner.len() == 0 {
        Seq::empty()
    } else {
        split(inner)
    }
}

/// The pieces written one after the other, a slash between each two.
pub open spec fn join(pieces: Seq<Seq<char>>) -> Seq<char>
    decreases pieces.len(),
{
    if pieces.len() == 0 {
        Seq::empty()
    } else if pieces.len() == 1 {
        pieces[0]
    } else {
        join(pieces.drop_last()) + seq!['/'] + pieces.last()
    }
}

/// The one spelling that stands for every path with the same segments: a
/// slash, then the path without its leading and its trailing slash. Where
/// that ends in a slash, because the last segment is empty, one more slash
/// follows to keep that segment.
pub open spec fn canonical(path: Seq<char>) -> Seq<char> {
    let inner = trimmed(path);
    if inner.len() > 0 && inner.last() == '/' {
        seq!['/'] + inner + seq!['/']
    } else {
        seq!['/'] + inner
    }
}

/// Whether `s` ends in `suffix`.
pub open spec fn ends_with(s: Seq<char>, suffix: Seq<char>) -> bool {
    suffix.len() <= s.len() && s.subrange(s.len() - suffix.len(), s.len() as int) == suffix
}

/// The ending that marks a JSON path: `/json`.
pub open spec fn json_suffix() -> Seq<char> {
    seq!['/', 'j', 's', 'o', 'n']
}

/// The representation that `path` asks for: JSON where it ends in `/json`,
/// HTML otherwise.
pub open spec fn representation(path: Seq<char>) -> Representation {
    if ends_with(path, json_suffix()) {
        Representation::Json
    } else {
        Representation::Html
    }
}

/// The characters of `s`, one by one.
pub fn chars_of(s: &str) -> (v: Vec<char>)
    ensures
        v@ == s@,
{
    let mut v: Vec<char> = Vec::new();
    for c in it: s.chars()
        invariant
            it.seq() == s@,
            v@ == it.seq().take(it.index() as int),
    {
        v.push(c);
    }
    v
}

/// Decides the representation of a request from its path alone.
pub fn representation_of(path: &str) -> (r: Representation)
    ensures
        r == representation(path@),
{
    let chars = chars_of(path);
    let n: usize = chars.len();
    if n >= 5 && chars[n - 5] == '/' && chars[n - 4] == 'j' && chars[n - 3] == 's' && chars[n - 2]
        == 'o' && chars[n - 1] == 'n' {
        assert(path@.subrange(n - 5, n as int) =~= json_suffix());
        Representation::Json
    } else {
        assert(!ends_with(path@, json_suffix())) by {
            if n >= 5 {
                let tail = path@.subrange(n - 5, n as int);
                assert(tail[0] == path@[n - 5]);
                assert(tail[1] == path@[n - 4]);
                assert(tail[2] == path@[n - 3]);
                assert(tail[3] == path@[n - 2]);
                assert(tail[4] == path@[n - 1]);
            }
        }
        Representation::Html
    }
}

/// Where a path begins and ends once its leading and its trailing slash are
/// left out.
fn trim(chars: &Vec<char>) -> (bounds: (usize, usize))
    ensures
        bounds.0 <= bounds.1 <= chars@.len(),
        bounds.0 <= 1,
        chars@.subrange(bounds.0 as int, bounds.1 as int) == trimmed(chars@),
{
    let n: usize = chars.len();
    let from: usize = if n > 0 && chars[0] == '/' {
        1
    } else {
        0
    };
    let to: usize = if n > from && chars[n - 1] == '/' {
        n - 1
    } else {
        n
    };
    (from, to)
}

/// Splits a request path into its segments.
pub fn segments_of(path: &str) -> (pieces: Vec<String>)
    ensures
        texts(pieces@) == segments(path@),
{
    let chars = chars_of(path);
    let n: usize = chars.len();
    let (from, to) = trim(&chars);
    let mut pieces: Vec<String> = Vec::new();
    if from == to {
        assert(texts(pieces@) =~= Seq::<Seq<char>>::empty());
        return pieces;
    }
    let ghost inner = path@.subrange(from as int, to as int);
    let mut start: usize = from;
    let mut i: usize = from;
    proof {
        assert(inner.take(0) =~= Seq::<char>::empty());
        assert(path@.subrange(from as int, from as int) =~= Seq::<char>::empty());
        assert(texts(pieces@).push(Seq::<char>::empty()) =~= seq![Seq::<char>::empty()]);
    }
    while i < to
        invariant
            chars@ == path@,
            n == chars@.len(),
            from <= start <= i <= to <= n,
            inner == path@.subrange(from as int, to as int),
            split(inner.take(i - from)) == texts(pieces@).push(
                path@.subrange(start as int, i as int),
            ),
        decreases to - i,
    {
        let ghost sofar = inner.take(i - from);
        let ghost next = inner.take(i + 1 - from);
        proof {
            assert(next.drop_last() =~= sofar);
            assert(next.last() == path@[i as int]);
        }
        if chars[i] == '/' {
            let piece = path.substring_char(start, i).to_owned();
            let ghost before = pieces@;
            pieces.push(piece);
            proof {
                assert(texts(pieces@) =~= texts(before).push(
                    path@.subrange(start as int, i as int),
                ));
                assert(path@.subrange(i + 1, i + 1) =~= Seq::<char>::empty());
            }
            start = i + 1;
        } else {
            proof {
                let old_piece = path@.subrange(start as int, i as int);
                assert(old_piece.push(path@[i as int]) =~= path@.subrange(
                    start as int,
                    i + 1,
                ));
                assert(texts(pieces@).push(old_piece).drop_last() =~= texts(pieces@));
            }
        }
        i = i + 1;
    }
    let piece = path.substring_char(start, to).to_owned();
    let ghost before = pieces@;
    pieces.push(piece);
    proof {
        assert(inner.take(to - from) =~= inner);
        assert(texts(pieces@) =~= texts(before).push(path@.subrange(start as int, to as int)));
    }
    pieces
}

/// Writes a request path in its canonical form.
pub fn canonical_path(path: &str) -> (c: String)
    ensures
        c@ == canonical(path@),
{
    let chars = chars_of(path);
    let (from, to) = trim(&chars);
    proof {
        reveal_strlit("/");
        assert("/"@ =~= seq!['/']);
    }
    let mut c = String::new();
    c.append("/");
    c.append(path.substring_char(from, to));
    if to > from && chars[to - 1] == '/' {
        c.append("/");
    }
    c
}

/// A string always splits into at least one piece.
pub proof fn lemma_split_nonempty(s: Seq<char>)
    ensures
        split(s).len() >= 1,
    decreases s.len(),
{
    if s.len() > 0 {
        lemma_split_nonempty(s.drop_last());
    }
}

/// A string without a slash is its own single piece.
pub proof fn lemma_split_plain(s: Seq<char>)
    requires
        forall|i: int| 0 <= i < s.len() ==> s[i] != '/',
    ensures
        split(s) == seq![s],
    decreases s.len(),
{
    if s.len() == 0 {
        assert(s =~= Seq::<char>::empty());
    } else {
        lemma_split_plain(s.drop_last());
        assert(s.drop_last().push(s.last()) =~= s);
        assert(seq![s.drop_last()].last() == s.drop_last());
        assert(seq![s.drop_last()].drop_last().push(s) =~= seq![s]);
    }
}

/// The pieces of two strings joined by a slash are the pieces of the first
/// followed by the pieces of the second.
pub proof fn lemma_split_slash(a: Seq<char>, b: Seq<char>)
    ensures
        split(a + seq!['/'] + b) == split(a) + split(b),
    decreases b.len(),
{
    let s = a + seq!['/'] + b;
    if b.len() == 0 {
        assert(s.drop_last() =~= a);
        assert(split(a).push(Seq::<char>::empty()) =~= split(a) + split(b));
    } else {
        let shorter = b.drop_last();
        lemma_split_slash(a, shorter);
        lemma_split_nonempty(shorter);
        assert(s.drop_last() =~= a + seq!['/'] + shorter);
        assert(s.last() == b.last());
        let before = split(a) + split(shorter);
        if b.last() == '/' {
            assert(before.push(Seq::<char>::empty()) =~= split(a) + split(b));
        } else {
            assert(before.last() == split(shorter).last());
            assert(before.drop_last() =~= split(a) + split(shorter).drop_last());
            assert(before.drop_last().push(before.last().push(b.last())) =~= split(a) + split(b));
        }
    }
}

/// Joining the pieces of a string gives the string back: no two strings
/// have the same pieces.
pub proof fn lemma_join_split(s: Seq<char>)
    ensures
        join(split(s)) == s,
    decreases s.len(),
{
    if s.len() == 0 {
        assert(s =~= Seq::<char>::empty());
    } else {
        let shorter = s.drop_last();
        let before = split(shorter);
        lemma_join_split(shorter);
        lemma_split_nonempty(shorter);
        assert(shorter.push(s.last()) =~= s);
        if s.last() == '/' {
            assert(before.push(Seq::<char>::empty()).drop_last() =~= before);
            assert(join(before) + seq!['/'] + Seq::<char>::empty() =~= s);
        } else {
            let last = before.last().push(s.last());
            let pieces = before.drop_last().push(last);
            assert(pieces.drop_last() =~= before.drop_last());
            if before.len() == 1 {
                assert(last =~= s);
            } else {
                assert(join(before.drop_last()) + seq!['/'] + last =~= (join(before.drop_last())
                    + seq!['/'] + before.last()).push(s.last()));
            }
        }
    }
}

/// The canonical form of a path has the segments of the path, and is its own
/// canonical form.
pub proof fn lemma_canonical_keeps_segments(path: Seq<char>)
    ensures
        trimmed(canonical(path)) == trimmed(path),
        segments(canonical(path)) == segments(path),
        canonical(canonical(path)) == canonical(path),
{
    let inner = trimmed(path);
    let c = canonical(path);
    assert(c[0] == '/');
    if inner.len() > 0 && inner.last() == '/' {
        assert(c.last() == '/');
        assert(c.subrange(1, c.len() - 1) =~= inner);
    } else if inner.len() > 0 {
        assert(c.last() == inner.last());
        assert(c.subrange(1, c.len() as int) =~= inner);
    } else {
        assert(c.subrange(1, 1) =~= inner);
    }
}

/// Paths have the same canonical form exactly where they have the same
/// segments.
pub proof fn lemma_canonical_by_segments(a: Seq<char>, b: Seq<char>)
    ensures
        canonical(a) == canonical(b) <==> segments(a) == segments(b),
{
    lemma_canonical_keeps_segments(a);
    lemma_canonical_keeps_segments(b);
    if segments(a) == segments(b) {
        lemma_split_nonempty(trimmed(a));
        lemma_split_nonempty(trimmed(b));
        lemma_join_split(trimmed(a));
        lemma_join_split(trimmed(b));
        if trimmed(a).len() == 0 {
            assert(trimmed(a) =~= trimmed(b));
        }
    }
}

} // verus!
