//! Lexical handling of `/`-separated paths.
//!
//! A path is text. Its segments are the pieces between `/` characters; it is
//! rooted when it begins with `/`. Nothing here consults a file system.

use vstd::prelude::*;
use crate::text::{append_chars, chars_of, copy_chars, string_of};

verus! {

/// The texts held by a sequence of character vectors.
pub open spec fn rows(v: Seq<Vec<char>>) -> Seq<Seq<char>> {
    Seq::new(v.len(), |i: int| v[i]@)
}

/// Whether the path begins at the root.
pub open spec fn is_rooted(p: Seq<char>) -> bool {
    p.len() > 0 && p[0] == '/'
}

/// A left-to-right scan of `p`: the segments already closed by a `/`, and the
/// segment still open at the end of `p`.
pub open spec fn split_scan(p: Seq<char>) -> (Seq<Seq<char>>, Seq<char>)
    decreases p.len(),
{
    if p.len() == 0 {
        (Seq::empty(), Seq::empty())
    } else {
        let before = split_scan(p.drop_last());
        if p.last() == '/' {
            (before.0.push(before.1), Seq::empty())
        } else {
            (before.0, before.1.push(p.last()))
        }
    }
}

/// The pieces of `p` between `/` characters, empty pieces included.
pub open spec fn path_segments(p: Seq<char>) -> Seq<Seq<char>> {
    split_scan(p).0.push(split_scan(p).1)
}

/// The segment `.`.
pub open spec fn cur_dir() -> Seq<char> {
    seq!['.']
}

/// The segment `..`.
pub open spec fn parent_dir() -> Seq<char> {
    seq!['.', '.']
}

/// The effect of one segment on the segments retained so far: an empty
/// segment and `.` change nothing, `..` removes the last retained segment if
/// there is one, anything else is retained.
pub open spec fn apply_segment(kept: Seq<Seq<char>>, seg: Seq<char>) -> Seq<Seq<char>> {
    if seg.len() == 0 || seg == cur_dir() {
        kept
    } else if seg == parent_dir() {
        if kept.len() > 0 {
            kept.drop_last()
        } else {
            kept
        }
    } else {
        kept.push(seg)
    }
}

/// The segments retained after `segs` have been applied from left to right.
pub open spec fn resolve_segments(segs: Seq<Seq<char>>) -> Seq<Seq<char>>
    decreases segs.len(),
{
    if segs.len() == 0 {
        Seq::empty()
    } else {
        apply_segment(resolve_segments(segs.drop_last()), segs.last())
    }
}

/// The segments joined by single `/` characters.
pub open spec fn join_segments(segs: Seq<Seq<char>>) -> Seq<char>
    decreases segs.len(),
{
    if segs.len() == 0 {
        Seq::empty()
    } else if segs.len() == 1 {
        segs[0]
    } else {
        join_segments(segs.drop_last()) + seq!['/'] + segs.last()
    }
}

/// The root marker of a path: `/` if it is rooted, nothing otherwise.
pub open spec fn root_of(p: Seq<char>) -> Seq<char> {
    if is_rooted(p) {
        seq!['/']
    } else {
        Seq::empty()
    }
}

/// The normal form of a path: its root marker, then the segments that
/// survive `.` and `..` resolution, joined by `/`.
pub open spec fn normalized(p: Seq<char>) -> Seq<char> {
    root_of(p) + join_segments(resolve_segments(path_segments(p)))
}

/// Whether `seg` is a segment that normalization retains as it is.
pub open spec fn is_plain_segment(seg: Seq<char>) -> bool {
    seg.len() > 0 && seg != cur_dir() && seg != parent_dir()
}

/// Splits a path into its segments.
pub fn split_path(p: &Vec<char>) -> (segs: Vec<Vec<char>>)
    ensures
        rows(segs@) == path_segments(p@),
{
    let mut done: Vec<Vec<char>> = Vec::new();
    let mut cur: Vec<char> = Vec::new();
    let mut i: usize = 0;
    assert(rows(done@) =~= Seq::<Seq<char>>::empty());
    assert(p@.take(0) =~= Seq::<char>::empty());
    while i < p.len()
        invariant
            i <= p.len(),
            rows(done@) == split_scan(p@.take(i as int)).0,
            cur@ == split_scan(p@.take(i as int)).1,
        decreases p.len() - i,
    {
        let c = p[i];
        proof {
            let next = p@.take(i + 1);
            assert(next.drop_last() =~= p@.take(i as int));
            assert(next.last() == c);
        }
        if c == '/' {
            let ghost before = rows(done@);
            let ghost closed = cur@;
            done.push(cur);
            cur = Vec::new();
            assert(rows(done@) =~= before.push(closed));
        } else {
            cur.push(c);
        }
        i += 1;
    }
    assert(p@.take(p.len() as int) =~= p@);
    let ghost before = rows(done@);
    let ghost closed = cur@;
    done.push(cur);
    assert(rows(done@) =~= before.push(closed));
    done
}

/// Whether `seg` is the segment `.`.
fn is_cur_dir(seg: &Vec<char>) -> (r: bool)
    ensures
        r == (seg@ == cur_dir()),
{
    if seg.len() == 1 && seg[0] == '.' {
        assert(seg@ =~= cur_dir());
        true
    } else {
        false
    }
}

/// Whether `seg` is the segment `..`.
fn is_parent_dir(seg: &Vec<char>) -> (r: bool)
    ensures
        r == (seg@ == parent_dir()),
{
    if seg.len() == 2 && seg[0] == '.' && seg[1] == '.' {
        assert(seg@ =~= parent_dir());
        true
    } else {
        false
    }
}

/// Applies the segments from left to right and returns those retained.
pub fn resolve_dots(segs: Vec<Vec<char>>) -> (kept: Vec<Vec<char>>)
    ensures
        rows(kept@) == resolve_segments(rows(segs@)),
{
    let ghost all = rows(segs@);
    let mut kept: Vec<Vec<char>> = Vec::new();
    let mut i: usize = 0;
    let n = segs.len();
    assert(rows(kept@) =~= Seq::<Seq<char>>::empty());
    assert(all.take(0) =~= Seq::<Seq<char>>::empty());
    while i < n
        invariant
            n == segs.len(),
            i <= n,
            all == rows(segs@),
            rows(kept@) == resolve_segments(all.take(i as int)),
        decreases n - i,
    {
        let seg = &segs[i];
        proof {
            let next = all.take(i + 1);
            assert(next.drop_last() =~= all.take(i as int));
            assert(next.last() == seg@);
        }
        let ghost before = rows(kept@);
        if seg.len() == 0 || is_cur_dir(seg) {
        } else if is_parent_dir(seg) {
            if kept.len() > 0 {
                kept.pop();
                assert(rows(kept@) =~= before.drop_last());
            }
        } else {
            let copy = copy_chars(seg);
            kept.push(copy);
            assert(rows(kept@) =~= before.push(seg@));
        }
        i += 1;
    }
    assert(all.take(n as int) =~= all);
    kept
}

/// Joins the segments with single `/` characters.
pub fn join_path(segs: &Vec<Vec<char>>) -> (p: Vec<char>)
    ensures
        p@ == join_segments(rows(segs@)),
{
    let ghost all = rows(segs@);
    let mut out: Vec<char> = Vec::new();
    let mut i: usize = 0;
    assert(all.take(0) =~= Seq::<Seq<char>>::empty());
    while i < segs.len()
        invariant
            i <= segs.len(),
            all == rows(segs@),
            out@ == join_segments(all.take(i as int)),
        decreases segs.len() - i,
    {
        proof {
            let next = all.take(i + 1);
            assert(next.drop_last() =~= all.take(i as int));
            assert(next.last() == segs@[i as int]@);
            if i == 0 {
                assert(next[0] == segs@[0]@);
            }
        }
        if i > 0 {
            out.push('/');
        }
        let ghost head = out@;
        append_chars(&mut out, &segs[i]);
        proof {
            if i == 0 {
                assert(out@ =~= segs@[0]@);
            } else {
                assert(out@ =~= join_segments(all.take(i as int)) + seq!['/'] + segs@[i as int]@);
            }
        }
        i += 1;
    }
    assert(all.take(segs.len() as int) =~= all);
    out
}

/// Normalizes a path given as characters.
pub fn normalize_chars(p: &Vec<char>) -> (r: Vec<char>)
    ensures
        r@ == normalized(p@),
{
    let mut out: Vec<char> = Vec::new();
    if p.len() > 0 && p[0] == '/' {
        out.push('/');
    }
    assert(out@ =~= root_of(p@));
    let kept = resolve_dots(split_path(p));
    let body = join_path(&kept);
    append_chars(&mut out, &body);
    out
}

/// Resolves the `.` and `..` segments of a path lexically.
///
/// Segments are taken from left to right: `.` and empty segments are dropped,
/// `..` removes the segment retained before it (and does nothing when none is
/// retained), every other segment is retained. A rooted path stays rooted.
pub fn normalize_path(path: &str) -> (r: String)
    ensures
        r@ == normalized(path@),
{
    let p = chars_of(path);
    let n = normalize_chars(&p);
    string_of(&n)
}

/// No segment that normalization retains is empty, `.` or `..`.
pub proof fn lemma_resolved_segments_are_plain(segs: Seq<Seq<char>>)
    ensures
        forall|i: int|
            0 <= i < resolve_segments(segs).len() ==> is_plain_segment(
                #[trigger] resolve_segments(segs)[i],
            ),
    decreases segs.len(),
{
    if segs.len() > 0 {
        lemma_resolved_segments_are_plain(segs.drop_last());
        let before = resolve_segments(segs.drop_last());
        let after = resolve_segments(segs);
        assert(after == apply_segment(before, segs.last()));
        assert forall|i: int| 0 <= i < after.len() implies is_plain_segment(#[trigger] after[i]) by {
            if i < before.len() {
                assert(after[i] == before[i]);
            }
        }
    }
}

/// Whether the text holds no `/`.
pub open spec fn slash_free(s: Seq<char>) -> bool {
    forall|i: int| 0 <= i < s.len() ==> s[i] != '/'
}

/// Whether every text of the sequence is free of `/`.
pub open spec fn all_slash_free(segs: Seq<Seq<char>>) -> bool {
    forall|i: int| 0 <= i < segs.len() ==> slash_free(#[trigger] segs[i])
}

/// Whether every segment of the sequence is one that normalization retains.
pub open spec fn all_plain(segs: Seq<Seq<char>>) -> bool {
    forall|i: int| 0 <= i < segs.len() ==> is_plain_segment(#[trigger] segs[i])
}

/// The segments of a path hold no `/`.
pub proof fn lemma_segments_are_slash_free(p: Seq<char>)
    ensures
        all_slash_free(split_scan(p).0),
        slash_free(split_scan(p).1),
        all_slash_free(path_segments(p)),
    decreases p.len(),
{
    if p.len() > 0 {
        lemma_segments_are_slash_free(p.drop_last());
    }
}

/// Joining segments of which the last is lengthened by a character
/// lengthens the joined text by that character.
proof fn lemma_join_push(segs: Seq<Seq<char>>, last: Seq<char>, c: char)
    ensures
        join_segments(segs.push(last.push(c))) == join_segments(segs.push(last)).push(c),
{
    let short = segs.push(last);
    let long = segs.push(last.push(c));
    assert(short.drop_last() =~= segs);
    assert(long.drop_last() =~= segs);
    if segs.len() > 0 {
        assert(join_segments(segs) + seq!['/'] + last.push(c) =~= (join_segments(segs) + seq!['/']
            + last).push(c));
    }
}

/// Splitting is the inverse of joining: the segments of a path, joined by
/// `/`, are the path. With `lemma_segments_are_slash_free` this says what the
/// segments of a path are.
pub proof fn lemma_segments_join_to_path(p: Seq<char>)
    ensures
        join_segments(path_segments(p)) == p,
    decreases p.len(),
{
    if p.len() == 0 {
        assert(path_segments(p) =~= seq![Seq::<char>::empty()]);
        assert(join_segments(path_segments(p)) =~= p);
    } else {
        let head = p.drop_last();
        lemma_segments_join_to_path(head);
        let done = split_scan(head).0;
        let open = split_scan(head).1;
        if p.last() == '/' {
            let segs = done.push(open).push(Seq::<char>::empty());
            assert(path_segments(p) =~= segs);
            assert(segs.drop_last() =~= done.push(open));
            assert(join_segments(segs) =~= join_segments(done.push(open)) + seq!['/']);
            assert(head + seq!['/'] =~= p);
        } else {
            assert(path_segments(p) =~= done.push(open.push(p.last())));
            lemma_join_push(done, open, p.last());
            assert(head.push(p.last()) =~= p);
        }
    }
}

/// Scanning on over text without `/` only lengthens the open segment.
proof fn lemma_scan_append(x: Seq<char>, s: Seq<char>)
    requires
        slash_free(s),
    ensures
        split_scan(x + s) == (split_scan(x).0, split_scan(x).1 + s),
    decreases s.len(),
{
    if s.len() == 0 {
        assert(x + s =~= x);
        assert(split_scan(x).1 + s =~= split_scan(x).1);
    } else {
        let head = s.drop_last();
        lemma_scan_append(x, head);
        assert((x + s).drop_last() =~= x + head);
        assert((x + s).last() == s.last());
        assert((split_scan(x).1 + head).push(s.last()) =~= split_scan(x).1 + s);
    }
}

/// Scanning over a `/` closes the open segment.
proof fn lemma_scan_slash(x: Seq<char>)
    ensures
        split_scan(x.push('/')) == (split_scan(x).0.push(split_scan(x).1), Seq::<char>::empty()),
{
    assert(x.push('/').drop_last() =~= x);
}

/// The segments of joined segments, written after a text `x`: the first of
/// them lengthens the segment that `x` left open, the others follow.
proof fn lemma_segments_after(x: Seq<char>, segs: Seq<Seq<char>>)
    requires
        segs.len() > 0,
        all_slash_free(segs),
    ensures
        path_segments(x + join_segments(segs)) == split_scan(x).0.push(split_scan(x).1 + segs[0])
            + segs.skip(1),
    decreases segs.len(),
{
    let done = split_scan(x).0;
    let open = split_scan(x).1;
    if segs.len() == 1 {
        lemma_scan_append(x, segs[0]);
        assert(done.push(open + segs[0]) + segs.skip(1) =~= done.push(open + segs[0]));
    } else {
        let head = segs.drop_last();
        let last = segs.last();
        assert(all_slash_free(head)) by {
            assert forall|i: int| 0 <= i < head.len() implies slash_free(#[trigger] head[i]) by {
                assert(head[i] == segs[i]);
            }
        }
        lemma_segments_after(x, head);
        let before = x + join_segments(head);
        lemma_scan_slash(before);
        lemma_scan_append(before.push('/'), last);
        assert(x + join_segments(segs) =~= before.push('/') + last);
        assert(Seq::<char>::empty() + last =~= last);
        assert(head[0] == segs[0]);
        assert((done.push(open + segs[0]) + head.skip(1)).push(last) =~= done.push(
            open + segs[0],
        ) + segs.skip(1));
    }
}

/// Segments that normalization retains are left as they are by it.
proof fn lemma_plain_segments_resolve_to_themselves(segs: Seq<Seq<char>>)
    requires
        all_plain(segs),
    ensures
        resolve_segments(segs) == segs,
    decreases segs.len(),
{
    if segs.len() == 0 {
        assert(segs =~= Seq::<Seq<char>>::empty());
    } else {
        let head = segs.drop_last();
        assert(all_plain(head)) by {
            assert forall|i: int| 0 <= i < head.len() implies is_plain_segment(
                #[trigger] head[i],
            ) by {
                assert(head[i] == segs[i]);
            }
        }
        lemma_plain_segments_resolve_to_themselves(head);
        assert(is_plain_segment(segs[segs.len() - 1]));
        assert(head.push(segs.last()) =~= segs);
    }
}

/// An empty segment at the front changes nothing.
proof fn lemma_leading_empty_segment(segs: Seq<Seq<char>>)
    ensures
        resolve_segments(seq![Seq::<char>::empty()] + segs) == resolve_segments(segs),
    decreases segs.len(),
{
    let lead = seq![Seq::<char>::empty()];
    if segs.len() == 0 {
        assert(lead + segs =~= lead);
        assert(lead.drop_last() =~= Seq::<Seq<char>>::empty());
        assert(resolve_segments(lead.drop_last()) =~= Seq::<Seq<char>>::empty());
        assert(lead.last().len() == 0);
    } else {
        lemma_leading_empty_segment(segs.drop_last());
        assert((lead + segs).drop_last() =~= lead + segs.drop_last());
        assert((lead + segs).last() == segs.last());
    }
}

/// Normalization retains only segments without `/`.
proof fn lemma_resolved_are_slash_free(segs: Seq<Seq<char>>)
    requires
        all_slash_free(segs),
    ensures
        all_slash_free(resolve_segments(segs)),
    decreases segs.len(),
{
    if segs.len() > 0 {
        let head = segs.drop_last();
        assert(all_slash_free(head)) by {
            assert forall|i: int| 0 <= i < head.len() implies slash_free(#[trigger] head[i]) by {
                assert(head[i] == segs[i]);
            }
        }
        lemma_resolved_are_slash_free(head);
        let before = resolve_segments(head);
        let after = resolve_segments(segs);
        assert(slash_free(segs[segs.len() - 1]));
        assert forall|i: int| 0 <= i < after.len() implies slash_free(#[trigger] after[i]) by {
            if i < before.len() {
                assert(after[i] == before[i]);
            }
        }
    }
}

/// Joined segments begin with the first of them.
proof fn lemma_join_begins_with_first(segs: Seq<Seq<char>>)
    requires
        segs.len() > 0,
    ensures
        join_segments(segs).len() >= segs[0].len(),
        join_segments(segs).take(segs[0].len() as int) == segs[0],
    decreases segs.len(),
{
    if segs.len() == 1 {
        assert(segs[0].take(segs[0].len() as int) =~= segs[0]);
    } else {
        let head = segs.drop_last();
        lemma_join_begins_with_first(head);
        assert(head[0] == segs[0]);
        assert(join_segments(segs).take(segs[0].len() as int) =~= join_segments(head).take(
            segs[0].len() as int,
        ));
    }
}

/// Normalization is idempotent: a normal form is its own normal form.
pub proof fn lemma_normalized_is_normal(p: Seq<char>)
    ensures
        normalized(normalized(p)) == normalized(p),
{
    let kept = resolve_segments(path_segments(p));
    let q = normalized(p);
    let slash = seq!['/'];
    lemma_segments_are_slash_free(p);
    lemma_resolved_are_slash_free(path_segments(p));
    lemma_resolved_segments_are_plain(path_segments(p));
    assert(all_plain(kept));
    lemma_plain_segments_resolve_to_themselves(kept);
    let none = Seq::<char>::empty();
    assert(split_scan(none) == (Seq::<Seq<char>>::empty(), none));
    if kept.len() == 0 {
        assert(join_segments(kept) =~= none);
        if is_rooted(p) {
            assert(q =~= slash);
            assert(none.push('/') =~= slash);
            lemma_scan_slash(none);
            let segs = path_segments(slash);
            assert(segs =~= seq![none, none]);
            assert(segs.drop_last() =~= seq![none]);
            assert(seq![none].drop_last() =~= Seq::<Seq<char>>::empty());
            assert(resolve_segments(seq![none]) =~= Seq::<Seq<char>>::empty());
            assert(resolve_segments(segs) =~= Seq::<Seq<char>>::empty());
            assert(normalized(slash) =~= slash);
        } else {
            assert(q =~= none);
            let segs = path_segments(none);
            assert(segs =~= seq![none]);
            assert(segs.drop_last() =~= Seq::<Seq<char>>::empty());
            assert(resolve_segments(segs) =~= Seq::<Seq<char>>::empty());
            assert(normalized(none) =~= none);
        }
    } else {
        lemma_join_begins_with_first(kept);
        assert(is_plain_segment(kept[0]));
        assert(slash_free(kept[0]));
        let joined = join_segments(kept);
        assert(joined[0] == kept[0][0]) by {
            assert(joined.take(kept[0].len() as int)[0] == kept[0][0]);
        }
        assert(kept.skip(1) =~= kept.subrange(1, kept.len() as int));
        if is_rooted(p) {
            assert(q =~= slash + joined);
            assert(none.push('/') =~= slash);
            lemma_scan_slash(none);
            lemma_segments_after(slash, kept);
            assert(none + kept[0] =~= kept[0]);
            assert(Seq::<Seq<char>>::empty().push(none).push(kept[0]) + kept.skip(1) =~= seq![
                none,
            ] + kept);
            lemma_leading_empty_segment(kept);
            assert(is_rooted(q));
        } else {
            assert(q =~= joined);
            lemma_segments_after(none, kept);
            assert(none + joined =~= joined);
            assert(none + kept[0] =~= kept[0]);
            assert(Seq::<Seq<char>>::empty().push(kept[0]) + kept.skip(1) =~= kept);
            assert(!is_rooted(q));
            assert(root_of(q) + joined =~= joined);
        }
    }
}

} // verus!
