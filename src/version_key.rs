//! Version keys: the numbers that an installation's path or its own report
//! gives, used to order and filter candidates.
use vstd::prelude::*;
use crate::paths::{
    file_name, file_name_of, is_blank_piece, is_path_sep, last_named, lemma_path_pieces_append,
    lemma_path_pieces_single, path_pieces, split_path,
};
use crate::select::key_lt;
use crate::text::{
    before_first, chars_of, dotted_numbers, dotted_numbers_in, dotted_release, find_char,
    has_prefix, has_prefix_in, is_digit, lemma_dotted_release, parse_u32, parse_u32_in, trim,
    trimmed,
};

verus! {

/// The key of an installation whose path names no version: above every
/// release number, since such an installation is taken to be the newest.
pub const UNVERSIONED: u32 = 999;

/// The key that a directory name such as `llvm@17` or `llvm-17.0.6` gives;
/// empty where it gives none.
pub open spec fn dir_key(c: Seq<char>) -> Seq<u32> {
    let at = "llvm@"@;
    let dash = "llvm-"@;
    if has_prefix(c, at) && dotted_numbers(c.skip(at.len() as int)).len() > 0 {
        dotted_numbers(c.skip(at.len() as int))
    } else if has_prefix(c, dash) {
        dotted_numbers(c.skip(dash.len() as int))
    } else {
        Seq::empty()
    }
}

/// The key of the first piece whose name gives one, else the unversioned key.
pub open spec fn pieces_key(pieces: Seq<Seq<char>>) -> Seq<u32>
    decreases pieces.len(),
{
    if pieces.len() == 0 {
        seq![UNVERSIONED]
    } else if dir_key(pieces[0]).len() > 0 {
        dir_key(pieces[0])
    } else {
        pieces_key(pieces.drop_first())
    }
}

/// The version key of an `llvm-config` path. A file named `llvm-config-<v>`
/// gives the numbers of `<v>`, or `[0]` where `<v>` holds none; otherwise the
/// first directory named `llvm@<v>` or `llvm-<v>` gives them; otherwise the
/// key is `[UNVERSIONED]`.
pub open spec fn version_key(p: Seq<char>) -> Seq<u32> {
    let prefix = "llvm-config-"@;
    match file_name_of(p) {
        Some(n) => if has_prefix(n, prefix) {
            let v = dotted_numbers(n.skip(prefix.len() as int));
            if v.len() > 0 {
                v
            } else {
                seq![0]
            }
        } else {
            pieces_key(path_pieces(p))
        },
        None => pieces_key(path_pieces(p)),
    }
}

/// The key that the directory name `c` gives, empty where it gives none.
fn dir_key_of(c: &String, at: &Vec<char>, dash: &Vec<char>) -> (r: Vec<u32>)
    requires
        at@ == "llvm@"@,
        dash@ == "llvm-"@,
    ensures
        r@ == dir_key(c@),
{
    let cs = chars_of(c.as_str());
    let n = cs.len();
    assert(cs@.subrange(0, n as int) =~= cs@);
    if has_prefix_in(&cs, 0, n, at) {
        let v = dotted_numbers_in(&cs, at.len(), n);
        assert(cs@.subrange(at@.len() as int, n as int) =~= c@.skip(at@.len() as int));
        if v.len() > 0 {
            return v;
        }
    }
    if has_prefix_in(&cs, 0, n, dash) {
        let v = dotted_numbers_in(&cs, dash.len(), n);
        assert(cs@.subrange(dash@.len() as int, n as int) =~= c@.skip(dash@.len() as int));
        return v;
    }
    Vec::new()
}

/// Extracts the version key from the path of an `llvm-config` executable,
/// for ordering candidates: `llvm@17`, `llvm-17` and `llvm-config-17` give
/// `[17]`, an unversioned `llvm` gives `[UNVERSIONED]`.
pub fn extract_version_from_llvm_path(path: &str) -> (r: Vec<u32>)
    ensures
        r@ == version_key(path@),
        r@.len() > 0,
{
    let prefix = chars_of("llvm-config-");
    if let Some(name) = file_name(path) {
        let cs = chars_of(name.as_str());
        let n = cs.len();
        assert(cs@.subrange(0, n as int) =~= cs@);
        if has_prefix_in(&cs, 0, n, &prefix) {
            let v = dotted_numbers_in(&cs, prefix.len(), n);
            assert(cs@.subrange(prefix@.len() as int, n as int) =~= name@.skip(
                prefix@.len() as int,
            ));
            if v.len() > 0 {
                return v;
            }
            return vec![0];
        }
    }
    let at = chars_of("llvm@");
    let dash = chars_of("llvm-");
    let pieces = split_path(path);
    let ghost ps = pieces.deep_view();
    let mut i: usize = 0;
    assert(ps.skip(0) =~= ps);
    assert(version_key(path@) == pieces_key(ps));
    while i < pieces.len()
        invariant
            i <= pieces@.len(),
            ps == pieces.deep_view(),
            ps == path_pieces(path@),
            at@ == "llvm@"@,
            dash@ == "llvm-"@,
            pieces_key(ps) == pieces_key(ps.skip(i as int)),
            version_key(path@) == pieces_key(ps),
        decreases pieces@.len() - i,
    {
        let k = dir_key_of(&pieces[i], &at, &dash);
        assert(ps.skip(i as int)[0] == pieces@[i as int]@);
        assert(ps.skip(i as int).drop_first() =~= ps.skip(i + 1));
        if k.len() > 0 {
            return k;
        }
        i = i + 1;
    }
    assert(ps.skip(i as int) =~= Seq::<Seq<char>>::empty());
    vec![UNVERSIONED]
}

/// The major version in the output of `llvm-config --version`: the number
/// before the first `.` of the trimmed text.
pub open spec fn reported_major(output: Seq<char>) -> Option<u32> {
    parse_u32(before_first(trimmed(output), '.'))
}

/// Reads the major version from what `llvm-config --version` printed.
pub fn parse_major_version(output: &str) -> (r: Option<u32>)
    ensures
        r == reported_major(output@),
{
    let t = trim(output);
    let cs = chars_of(t);
    let n = cs.len();
    assert(cs@.subrange(0, n as int) =~= cs@);
    let k = find_char(&cs, 0, n, '.');
    parse_u32_in(&cs, 0, k)
}

/// The key of a candidate once an unversioned path has been resolved: where
/// the path gave `[UNVERSIONED]` and the executable reported its major
/// version, that version alone.
pub open spec fn resolved_key(key: Seq<u32>, reported: Option<u32>) -> Seq<u32> {
    if key == seq![UNVERSIONED] && reported is Some {
        seq![reported->0]
    } else {
        key
    }
}

/// Whether `key` is the key of an unversioned path, whose version is worth
/// asking the executable for.
pub fn is_unversioned(key: &Vec<u32>) -> (r: bool)
    ensures
        r == (key@ == seq![UNVERSIONED]),
{
    if key.len() == 1 && key[0] == UNVERSIONED {
        assert(key@ =~= seq![UNVERSIONED]);
        true
    } else {
        false
    }
}

/// Replaces an unversioned key by the major version the executable reported.
pub fn resolve_unversioned(key: Vec<u32>, reported: Option<u32>) -> (r: Vec<u32>)
    ensures
        r@ == resolved_key(key@, reported),
{
    match reported {
        Some(v) => if is_unversioned(&key) {
            vec![v]
        } else {
            key
        },
        None => key,
    }
}

/// The ways installations name their version.
pub enum NamingConvention {
    /// A versioned executable, `llvm-config-<v>`.
    ConfigSuffix,
    /// A Homebrew-style directory, `llvm@<v>`.
    AtDirectory,
    /// A package-style directory, `llvm-<v>`.
    DashDirectory,
}

/// The name that an installation of release `rs` (such as `[17, 0, 6]`)
/// has under convention `c`.
pub open spec fn conventional_name(c: NamingConvention, rs: Seq<u32>) -> Seq<char> {
    match c {
        NamingConvention::ConfigSuffix => "llvm-config-"@ + dotted_release(rs),
        NamingConvention::AtDirectory => "llvm@"@ + dotted_release(rs),
        NamingConvention::DashDirectory => "llvm-"@ + dotted_release(rs),
    }
}

proof fn lemma_conventional_key(c: NamingConvention, rs: Seq<u32>)
    requires
        rs.len() > 0,
    ensures
        version_key(conventional_name(c, rs)) == rs,
        !(c is ConfigSuffix) ==> dir_key(conventional_name(c, rs)) == rs,
        forall|k: int| 0 <= k < conventional_name(c, rs).len() ==> !is_path_sep(#[trigger] conventional_name(c, rs)[k]),
        conventional_name(c, rs).len() > 0,
        conventional_name(c, rs)[0] == 'l',
{
    reveal_strlit("llvm-config-");
    reveal_strlit("llvm@");
    reveal_strlit("llvm-");
    let d = dotted_release(rs);
    lemma_dotted_release(rs);
    let p = conventional_name(c, rs);
    let pre = match c {
        NamingConvention::ConfigSuffix => "llvm-config-"@,
        NamingConvention::AtDirectory => "llvm@"@,
        NamingConvention::DashDirectory => "llvm-"@,
    };
    assert(p == pre + d);
    assert forall|k: int| 0 <= k < p.len() implies !is_path_sep(#[trigger] p[k]) by {
        if k >= pre.len() {
            assert(p[k] == d[k - pre.len()]);
            assert(is_digit(d[k - pre.len()]) || d[k - pre.len()] == '.');
        }
    }
    lemma_path_pieces_single(p);
    assert(seq![p].drop_last() =~= Seq::<Seq<char>>::empty());
    assert(!is_blank_piece(p)) by {
        if p == seq!['.'] {
            assert(p[0] == 'l');
        }
    }
    assert(last_named(seq![p]) == Some(p));
    assert(p != seq!['.', '.']) by {
        assert(p[0] == 'l');
    }
    assert(file_name_of(p) == Some(p));
    assert(p.skip(pre.len() as int) =~= d);
    assert(p.take(pre.len() as int) =~= pre);
    match c {
        NamingConvention::ConfigSuffix => {
            assert(has_prefix(p, "llvm-config-"@));
        },
        NamingConvention::AtDirectory => {
            assert(!has_prefix(p, "llvm-config-"@)) by {
                if has_prefix(p, "llvm-config-"@) {
                    assert(p.take(12)[4] == '-');
                }
            }
            assert(has_prefix(p, "llvm@"@));
            assert(seq![p].drop_first() =~= Seq::<Seq<char>>::empty());
            assert(pieces_key(seq![p]) == dir_key(p));
        },
        NamingConvention::DashDirectory => {
            assert(!has_prefix(p, "llvm-config-"@)) by {
                if has_prefix(p, "llvm-config-"@) {
                    assert(p.take(12)[5] == 'c');
                    assert(p[5] == d[0]);
                }
            }
            assert(!has_prefix(p, "llvm@"@)) by {
                if has_prefix(p, "llvm@"@) {
                    assert(p.take(5)[4] == '@');
                }
            }
            assert(has_prefix(p, "llvm-"@));
            assert(seq![p].drop_first() =~= Seq::<Seq<char>>::empty());
            assert(pieces_key(seq![p]) == dir_key(p));
        },
    }
}

/// Under each naming convention, the key of an installation of release
/// `a` is `a` itself, so that ordering installations by key orders them by
/// release, component by component; an unversioned installation orders
/// above every release whose major number is below `UNVERSIONED`.
pub proof fn lemma_keys_follow_releases(c: NamingConvention, a: Seq<u32>, b: Seq<u32>)
    requires
        a.len() > 0,
        b.len() > 0,
    ensures
        version_key(conventional_name(c, a)) == a,
        key_lt(version_key(conventional_name(c, a)), version_key(conventional_name(c, b)))
            <==> key_lt(a, b),
        a[0] < UNVERSIONED ==> key_lt(version_key(conventional_name(c, a)), seq![UNVERSIONED]),
{
    lemma_conventional_key(c, a);
    lemma_conventional_key(c, b);
}

/// An executable named `llvm-config-<v>` in any directory gives the key of
/// its release.
pub proof fn lemma_versioned_executable_in_path(dir: Seq<char>, sep: char, rs: Seq<u32>)
    requires
        is_path_sep(sep),
        rs.len() > 0,
    ensures
        version_key(dir + seq![sep] + conventional_name(NamingConvention::ConfigSuffix, rs)) == rs,
{
    let name = conventional_name(NamingConvention::ConfigSuffix, rs);
    lemma_conventional_key(NamingConvention::ConfigSuffix, rs);
    lemma_path_pieces_append(dir, sep, name);
    let p = dir + seq![sep] + name;
    let ps = path_pieces(dir).push(name);
    assert(ps.last() == name);
    assert(!is_blank_piece(name)) by {
        if name == seq!['.'] {
            assert(name[0] == 'l');
        }
    }
    assert(last_named(ps) == Some(name));
    assert(name != seq!['.', '.']) by {
        assert(name[0] == 'l');
    }
    assert(file_name_of(p) == Some(name));
    reveal_strlit("llvm-config-");
    assert(name.take(12) =~= "llvm-config-"@);
    assert(has_prefix(name, "llvm-config-"@));
    assert(file_name_of(name) == Some(name)) by {
        lemma_path_pieces_single(name);
        assert(seq![name].drop_last() =~= Seq::<Seq<char>>::empty());
        assert(last_named(seq![name]) == Some(name));
    }
}

/// The key of a list of pieces is that of the first piece that gives one.
proof fn lemma_first_versioned_piece(pre: Seq<Seq<char>>, mid: Seq<char>, post: Seq<Seq<char>>)
    requires
        forall|i: int| 0 <= i < pre.len() ==> dir_key(#[trigger] pre[i]).len() == 0,
        dir_key(mid).len() > 0,
    ensures
        pieces_key(pre + seq![mid] + post) == dir_key(mid),
    decreases pre.len(),
{
    let all = pre + seq![mid] + post;
    if pre.len() == 0 {
        assert(all[0] == mid);
    } else {
        assert(all[0] == pre[0]);
        assert(dir_key(pre[0]).len() == 0);
        assert(all.drop_first() =~= pre.drop_first() + seq![mid] + post);
        assert forall|i: int| 0 <= i < pre.drop_first().len() implies dir_key(#[trigger] pre.drop_first()[i]).len() == 0 by {
            assert(pre.drop_first()[i] == pre[i + 1]);
        }
        lemma_first_versioned_piece(pre.drop_first(), mid, post);
    }
}

/// A directory named `llvm@<v>` or `llvm-<v>` anywhere in a path gives the
/// key of its release, provided no directory before it names a version and the file
/// is not a versioned `llvm-config-<w>`.
pub proof fn lemma_versioned_directory_in_path(
    p: Seq<char>,
    pre: Seq<Seq<char>>,
    post: Seq<Seq<char>>,
    c: NamingConvention,
    rs: Seq<u32>,
)
    requires
        !(c is ConfigSuffix),
        rs.len() > 0,
        path_pieces(p) == pre + seq![conventional_name(c, rs)] + post,
        forall|i: int| 0 <= i < pre.len() ==> dir_key(#[trigger] pre[i]).len() == 0,
        !(file_name_of(p) matches Some(n) && has_prefix(n, "llvm-config-"@)),
    ensures
        version_key(p) == rs,
{
    lemma_conventional_key(c, rs);
    let name = conventional_name(c, rs);
    lemma_first_versioned_piece(pre, name, post);
}

} // verus!
