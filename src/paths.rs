//! Paths as text, with `/` or `\` between components, as a Windows host
//! reads them; other hosts keep a `\` inside a name, which names of
//! installations do not hold.
use vstd::prelude::*;
use crate::text::chars_of;

verus! {

/// Whether `c` separates the components of a path.
pub open spec fn is_path_sep(c: char) -> bool {
    c == '/' || c == '\\'
}

/// The pieces of a path between its separators; empty pieces stand for
/// repeated or trailing separators.
pub open spec fn path_pieces(p: Seq<char>) -> Seq<Seq<char>>
    decreases p.len(),
{
    if p.len() == 0 {
        seq![Seq::empty()]
    } else {
        let prev = path_pieces(p.drop_last());
        if is_path_sep(p.last()) {
            prev.push(Seq::empty())
        } else {
            prev.update(prev.len() - 1, prev.last().push(p.last()))
        }
    }
}

/// A text without separators is one piece.
pub proof fn lemma_path_pieces_single(t: Seq<char>)
    requires
        forall|k: int| 0 <= k < t.len() ==> !is_path_sep(#[trigger] t[k]),
    ensures
        path_pieces(t) == seq![t],
    decreases t.len(),
{
    if t.len() > 0 {
        assert forall|k: int| 0 <= k < t.drop_last().len() implies !is_path_sep(#[trigger] t.drop_last()[k]) by {
            assert(t.drop_last()[k] == t[k]);
        }
        lemma_path_pieces_single(t.drop_last());
        assert(t.drop_last().push(t.last()) =~= t);
        assert(path_pieces(t) =~= seq![t]);
    } else {
        assert(t =~= Seq::<char>::empty());
    }
}

/// A separator followed by a text without separators adds that text as the
/// last piece.
pub proof fn lemma_path_pieces_append(s: Seq<char>, c: char, t: Seq<char>)
    requires
        is_path_sep(c),
        forall|k: int| 0 <= k < t.len() ==> !is_path_sep(#[trigger] t[k]),
    ensures
        path_pieces(s + seq![c] + t) == path_pieces(s).push(t),
    decreases t.len(),
{
    if t.len() == 0 {
        assert((s + seq![c] + t).drop_last() =~= s);
        assert(t =~= Seq::<char>::empty());
    } else {
        let u = t.drop_last();
        assert forall|k: int| 0 <= k < u.len() implies !is_path_sep(#[trigger] u[k]) by {
            assert(u[k] == t[k]);
        }
        lemma_path_pieces_append(s, c, u);
        assert((s + seq![c] + t).drop_last() =~= s + seq![c] + u);
        assert(u.push(t.last()) =~= t);
        assert(path_pieces(s + seq![c] + t) =~= path_pieces(s).push(t));
    }
}

/// Whether a piece names nothing: an empty piece or `.`.
pub open spec fn is_blank_piece(c: Seq<char>) -> bool {
    c.len() == 0 || c == seq!['.']
}

/// The last piece that is neither empty nor `.`.
pub open spec fn last_named(pieces: Seq<Seq<char>>) -> Option<Seq<char>>
    decreases pieces.len(),
{
    if pieces.len() == 0 {
        None
    } else if is_blank_piece(pieces.last()) {
        last_named(pieces.drop_last())
    } else {
        Some(pieces.last())
    }
}

/// The final component of a path, as `Path::file_name` gives it: none for a
/// path that ends in `..` or names no component.
pub open spec fn file_name_of(p: Seq<char>) -> Option<Seq<char>> {
    match last_named(path_pieces(p)) {
        Some(n) => if n == seq!['.', '.'] {
            None
        } else {
            Some(n)
        },
        None => None,
    }
}

/// The text before the last `.` of `n`, if `n` holds a `.`.
pub open spec fn before_last_dot(n: Seq<char>) -> Option<Seq<char>>
    decreases n.len(),
{
    if n.len() == 0 {
        None
    } else if n.last() == '.' {
        Some(n.drop_last())
    } else {
        before_last_dot(n.drop_last())
    }
}

/// A file name without its extension, as `Path::file_stem` takes it: the text
/// before the last `.`, unless there is none or that `.` is the first character.
pub open spec fn stem_of_name(n: Seq<char>) -> Seq<char> {
    match before_last_dot(n) {
        Some(b) => if b.len() > 0 {
            b
        } else {
            n
        },
        None => n,
    }
}

/// Splits the path `s` at every separator.
pub fn split_path(s: &str) -> (r: Vec<String>)
    ensures
        r.deep_view() == path_pieces(s@),
{
    let cs = chars_of(s);
    let n = cs.len();
    let mut r: Vec<String> = Vec::new();
    let mut start: usize = 0;
    let mut i: usize = 0;
    assert(s@.take(0) =~= Seq::<char>::empty());
    assert(r.deep_view() =~= Seq::<Seq<char>>::empty());
    while i < n
        invariant
            start <= i <= n == cs@.len(),
            cs@ == s@,
            path_pieces(s@.take(i as int)).len() >= 1,
            path_pieces(s@.take(i as int)).last() == cs@.subrange(start as int, i as int),
            r.deep_view() == path_pieces(s@.take(i as int)).drop_last(),
        decreases n - i,
    {
        let ghost prev = path_pieces(s@.take(i as int));
        let ghost next = path_pieces(s@.take(i + 1));
        assert(s@.take(i + 1).drop_last() =~= s@.take(i as int));
        assert(s@.take(i + 1).last() == cs@[i as int]);
        if cs[i] == '/' || cs[i] == '\\' {
            let piece = s.substring_char(start, i).to_owned();
            r.push(piece);
            assert(next == prev.push(Seq::empty()));
            assert(next.drop_last() =~= prev);
            assert(r.deep_view() =~= prev.drop_last().push(prev.last()));
            assert(prev.drop_last().push(prev.last()) =~= prev);
            start = i + 1;
            assert(cs@.subrange(start as int, i + 1) =~= Seq::<char>::empty());
        } else {
            assert(next == prev.update(prev.len() - 1, prev.last().push(cs@[i as int])));
            assert(next.drop_last() =~= prev.drop_last());
            assert(cs@.subrange(start as int, i + 1) =~= cs@.subrange(start as int, i as int).push(
                cs@[i as int],
            ));
        }
        i = i + 1;
    }
    assert(s@.take(n as int) =~= s@);
    let ghost fin = path_pieces(s@);
    let piece = s.substring_char(start, n).to_owned();
    r.push(piece);
    assert(r.deep_view() =~= fin.drop_last().push(fin.last()));
    assert(fin.drop_last().push(fin.last()) =~= fin);
    r
}

/// Whether `s` is empty or `.`.
fn is_blank(s: &String) -> (r: bool)
    ensures
        r == is_blank_piece(s@),
{
    let cs = chars_of(s.as_str());
    if cs.len() == 1 && cs[0] == '.' {
        assert(cs@ =~= seq!['.']);
    }
    cs.len() == 0 || (cs.len() == 1 && cs[0] == '.')
}

/// The final component of the path `p`, if it has one.
pub fn file_name(p: &str) -> (r: Option<String>)
    ensures
        r matches Some(n) ==> file_name_of(p@) == Some(n@),
        r is None <==> file_name_of(p@) is None,
{
    let pieces = split_path(p);
    let ghost ps = pieces.deep_view();
    let mut k = pieces.len();
    assert(ps.take(k as int) =~= ps);
    while k > 0 && is_blank(&pieces[k - 1])
        invariant
            k <= pieces@.len(),
            ps == pieces.deep_view(),
            last_named(ps) == last_named(ps.take(k as int)),
        decreases k,
    {
        assert(ps.take(k as int).drop_last() =~= ps.take(k - 1));
        k = k - 1;
    }
    if k == 0 {
        assert(ps.take(0) =~= Seq::<Seq<char>>::empty());
        return None;
    }
    let name = pieces[k - 1].clone();
    assert(ps.take(k as int).last() == name@);
    let cs = chars_of(name.as_str());
    if cs.len() == 2 && cs[0] == '.' && cs[1] == '.' {
        assert(name@ =~= seq!['.', '.']);
        None
    } else {
        assert(name@ != seq!['.', '.']);
        Some(name)
    }
}

} // verus!
