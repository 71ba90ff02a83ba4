//! The filesystem scanner's rules: which patterns a directory is searched
//! with, which matches count, and which directories a search covers.
use vstd::prelude::*;
use crate::paths::is_path_sep;
use crate::platform::{libclang_directory_list, libclang_directory_patterns, TargetOs};
use crate::text::{chars_of, contains_run, contains_run_in, first_line, first_line_of};

verus! {

/// A text with each of the wildcard characters `?`, `*`, `[` and `]` put in
/// brackets, so that a pattern matches it literally.
pub open spec fn glob_escaped(s: Seq<char>) -> Seq<char>
    decreases s.len(),
{
    if s.len() == 0 {
        s
    } else {
        let prev = glob_escaped(s.drop_last());
        let c = s.last();
        if c == '?' || c == '*' || c == '[' || c == ']' {
            prev + seq!['[', c, ']']
        } else {
            prev.push(c)
        }
    }
}

/// Relies on `glob::Pattern::escape`: it puts each of `?`, `*`, `[` and `]`
/// in brackets and keeps every other character.
#[verifier::external_body]
fn escape_pattern(s: &str) -> (r: String)
    ensures
        r@ == glob_escaped(s@),
{
    glob::Pattern::escape(s)
}

/// `directory` with its wildcard characters escaped.
pub fn escape_directory(directory: &str) -> (r: String)
    ensures
        r@ == glob_escaped(directory@),
{
    escape_pattern(directory)
}

/// `name` appended to the path `dir`, as `Path::join` does with `/`: an
/// absolute `name` replaces `dir`, and a separator is put between the two
/// unless `dir` is empty or already ends in one.
pub open spec fn joined_path(dir: Seq<char>, name: Seq<char>) -> Seq<char> {
    if name.len() > 0 && name[0] == '/' {
        name
    } else if dir.len() == 0 || dir.last() == '/' {
        dir + name
    } else {
        dir + seq!['/'] + name
    }
}

/// Appends `name` to the path `dir`.
pub fn join_path(dir: &str, name: &str) -> (r: String)
    ensures
        r@ == joined_path(dir@, name@),
{
    let ns = chars_of(name);
    if ns.len() > 0 && ns[0] == '/' {
        return name.to_owned();
    }
    let ds = chars_of(dir);
    let mut r = dir.to_owned();
    if ds.len() > 0 && ds[ds.len() - 1] != '/' {
        r.append("/");
        assert("/"@ =~= seq!['/']) by {
            reveal_strlit("/");
        }
    }
    r.append(name);
    r
}

/// The patterns that search `directory`, taken literally, for files whose
/// names match one of `filenames`.
pub open spec fn directory_patterns(directory: Seq<char>, filenames: Seq<Seq<char>>) -> Seq<Seq<char>> {
    filenames.map_values(|f: Seq<char>| joined_path(glob_escaped(directory), f))
}

/// The patterns for a search of `directory` for files whose names match one
/// of `filenames`; wildcards in `directory` itself match only themselves.
pub fn search_patterns(directory: &str, filenames: &Vec<String>) -> (r: Vec<String>)
    ensures
        r.deep_view() == directory_patterns(directory@, filenames.deep_view()),
{
    let escaped = escape_pattern(directory);
    let mut r: Vec<String> = Vec::new();
    let mut i: usize = 0;
    while i < filenames.len()
        invariant
            i <= filenames@.len(),
            escaped@ == glob_escaped(directory@),
            r@.len() == i,
            forall|k: int| 0 <= k < i ==> #[trigger] r@[k]@ == joined_path(escaped@, filenames@[k]@),
        decreases filenames@.len() - i,
    {
        let p = join_path(escaped.as_str(), filenames[i].as_str());
        r.push(p);
        i = i + 1;
    }
    assert(r.deep_view() =~= directory_patterns(directory@, filenames.deep_view()));
    r
}

/// Whether a file name is one of `libclang-cpp`, a different library whose
/// names the patterns for `libclang` can also match.
pub open spec fn is_excluded_name(name: Seq<char>) -> bool {
    contains_run(name, "-cpp."@)
}

/// The matches, as (directory, file name) pairs, that are not excluded, in
/// the order found.
pub open spec fn kept_matches(found: Seq<(Seq<char>, Seq<char>)>) -> Seq<(Seq<char>, Seq<char>)>
    decreases found.len(),
{
    if found.len() == 0 {
        found
    } else {
        let prev = kept_matches(found.drop_last());
        if is_excluded_name(found.last().1) {
            prev
        } else {
            prev.push(found.last())
        }
    }
}

/// No match that is kept has an excluded file name, and every match that is
/// kept was found.
pub proof fn lemma_kept_matches_exclude(found: Seq<(Seq<char>, Seq<char>)>)
    ensures
        forall|i: int| 0 <= i < kept_matches(found).len() ==> !is_excluded_name(#[trigger] kept_matches(found)[i].1),
        forall|i: int| 0 <= i < kept_matches(found).len() ==> found.contains(#[trigger] kept_matches(found)[i]),
    decreases found.len(),
{
    if found.len() > 0 {
        let init = found.drop_last();
        lemma_kept_matches_exclude(init);
        assert forall|i: int| 0 <= i < kept_matches(found).len() implies found.contains(#[trigger] kept_matches(found)[i]) by {
            if i < kept_matches(init).len() {
                assert(kept_matches(found)[i] == kept_matches(init)[i]);
                let k = choose|k: int| 0 <= k < init.len() && init[k] == kept_matches(init)[i];
                assert(found[k] == init[k]);
            } else {
                assert(found[found.len() - 1] == found.last());
            }
        }
        assert forall|i: int| 0 <= i < kept_matches(found).len() implies !is_excluded_name(#[trigger] kept_matches(found)[i].1) by {
            if i < kept_matches(init).len() {
                assert(kept_matches(found)[i] == kept_matches(init)[i]);
            }
        }
    }
}

/// The (directory, file name) pairs of a list of matches.
pub open spec fn pair_views(v: Seq<(String, String)>) -> Seq<(Seq<char>, Seq<char>)> {
    v.map_values(|p: (String, String)| (p.0@, p.1@))
}

/// Drops the matches whose file name marks them as `libclang-cpp`.
pub fn filter_matches(found: &Vec<(String, String)>) -> (r: Vec<(String, String)>)
    ensures
        pair_views(r@) == kept_matches(pair_views(found@)),
{
    let infix = chars_of("-cpp.");
    let ghost fv = pair_views(found@);
    let mut r: Vec<(String, String)> = Vec::new();
    assert(pair_views(r@) =~= kept_matches(fv.take(0)));
    let mut i: usize = 0;
    while i < found.len()
        invariant
            i <= found@.len() == fv.len(),
            fv == pair_views(found@),
            infix@ == "-cpp."@,
            pair_views(r@) == kept_matches(fv.take(i as int)),
        decreases found@.len() - i,
    {
        assert(fv.take(i + 1).drop_last() =~= fv.take(i as int));
        assert(fv.take(i + 1).last() == (found@[i as int].0@, found@[i as int].1@));
        let name = chars_of(found[i].1.as_str());
        let excluded = contains_run_in(&name, &infix);
        if !excluded {
            let ghost before = r@;
            let item = (found[i].0.clone(), found[i].1.clone());
            r.push(item);
            assert(pair_views(r@) =~= pair_views(before).push((item.0@, item.1@)));
        }
        i = i + 1;
    }
    assert(fv.take(i as int) =~= fv);
    r
}

/// `s` without trailing separators.
pub open spec fn without_trailing_seps(s: Seq<char>) -> Seq<char>
    decreases s.len(),
{
    if s.len() > 0 && is_path_sep(s.last()) {
        without_trailing_seps(s.drop_last())
    } else {
        s
    }
}

/// The index where the last component of `s` starts.
pub open spec fn last_component_start(s: Seq<char>) -> int
    decreases s.len(),
{
    if s.len() == 0 {
        0
    } else if is_path_sep(s.last()) {
        s.len() as int
    } else {
        last_component_start(s.drop_last())
    }
}

/// For a Windows directory whose last component is `lib`, its sibling `bin`
/// directory, where the DLL is usually installed.
pub open spec fn windows_sibling_bin(d: Seq<char>) -> Option<Seq<char>> {
    let t = without_trailing_seps(d);
    let k = last_component_start(t);
    if t.skip(k) == "lib"@ {
        Some(t.take(k) + "bin"@)
    } else {
        None
    }
}

/// The directories that a search of `directory` covers on `os`.
pub open spec fn covered_directories(directory: Seq<char>, os: TargetOs) -> Seq<Seq<char>> {
    match (os, windows_sibling_bin(directory)) {
        (TargetOs::Windows, Some(b)) => seq![directory, b],
        _ => seq![directory],
    }
}

/// The sibling `bin` directory of a Windows `lib` directory.
fn sibling_bin(directory: &str) -> (r: Option<String>)
    ensures
        opt_text(r) == windows_sibling_bin(directory@),
{
    let cs = chars_of(directory);
    let mut end = cs.len();
    assert(cs@.take(end as int) =~= directory@);
    while end > 0 && (cs[end - 1] == '/' || cs[end - 1] == '\\')
        invariant
            end <= cs@.len(),
            cs@ == directory@,
            without_trailing_seps(directory@) == without_trailing_seps(cs@.take(end as int)),
        decreases end,
    {
        assert(cs@.take(end as int).drop_last() =~= cs@.take(end - 1));
        end = end - 1;
    }
    let ghost t = cs@.take(end as int);
    assert(without_trailing_seps(t) == t);
    let mut k = end;
    assert(t.take(k as int) =~= t);
    while k > 0 && !(cs[k - 1] == '/' || cs[k - 1] == '\\')
        invariant
            k <= end <= cs@.len(),
            t == cs@.take(end as int),
            last_component_start(t) == last_component_start(t.take(k as int)),
        decreases k,
    {
        assert(t.take(k as int).drop_last() =~= t.take(k - 1));
        k = k - 1;
    }
    assert(last_component_start(t) == k);
    proof {
        reveal_strlit("lib");
    }
    let is_lib = end - k == 3 && cs[k] == 'l' && cs[k + 1] == 'i' && cs[k + 2] == 'b';
    if is_lib {
        assert(t.skip(k as int) =~= "lib"@);
        let mut b = directory.substring_char(0, k).to_owned();
        b.append("bin");
        assert(directory@.subrange(0, k as int) =~= t.take(k as int));
        Some(b)
    } else {
        assert(t.skip(k as int) != "lib"@) by {
            reveal_strlit("lib");
            if t.skip(k as int) == "lib"@ {
                assert(t.skip(k as int).len() == end - k);
                assert(t.skip(k as int)[0] == 'l');
                assert(t.skip(k as int)[1] == 'i');
                assert(t.skip(k as int)[2] == 'b');
            }
        }
        None
    }
}

/// The text of an optional string, as a view.
pub open spec fn opt_text(o: Option<String>) -> Option<Seq<char>> {
    match o {
        Some(s) => Some(s@),
        None => None,
    }
}

/// The patterns that search `directory` for files named like one of
/// `filenames`, followed, on Windows, by those for its sibling `bin`
/// directory where `directory` is a `lib` directory.
pub fn search_directories(directory: &str, filenames: &Vec<String>, os: TargetOs) -> (r: Vec<String>)
    ensures
        r.deep_view() == match (os, windows_sibling_bin(directory@)) {
            (TargetOs::Windows, Some(b)) => directory_patterns(directory@, filenames.deep_view())
                + directory_patterns(b, filenames.deep_view()),
            _ => directory_patterns(directory@, filenames.deep_view()),
        },
{
    let mut r = search_patterns(directory, filenames);
    if os == TargetOs::Windows {
        if let Some(b) = sibling_bin(directory) {
            let more = search_patterns(b.as_str(), filenames);
            let ghost before = r.deep_view();
            let mut j: usize = 0;
            while j < more.len()
                invariant
                    j <= more@.len(),
                    r@.len() == before.len() + j,
                    forall|k: int| 0 <= k < before.len() ==> #[trigger] r@[k]@ == before[k],
                    forall|k: int| 0 <= k < j ==> #[trigger] r@[before.len() + k]@ == more@[k]@,
                decreases more@.len() - j,
            {
                r.push(more[j].clone());
                j = j + 1;
            }
            assert forall|k: int| 0 <= k < r@.len() implies #[trigger] r.deep_view()[k] == (before + more.deep_view())[k] by {
                if k >= before.len() {
                    assert(r@[before.len() + (k - before.len())]@ == more@[k - before.len()]@);
                }
            }
            assert(r.deep_view() =~= before + more.deep_view());
        }
    }
    r
}

/// The directories named by what `llvm-config --prefix` printed: `bin`,
/// `lib` and `lib64` under the prefix on its first line.
pub open spec fn prefix_directory_list(output: Seq<char>) -> Option<Seq<Seq<char>>> {
    match first_line_of(output) {
        Some(p) => Some(
            seq![joined_path(p, "bin"@), joined_path(p, "lib"@), joined_path(p, "lib64"@)],
        ),
        None => None,
    }
}

/// The directories to search under the installation prefix that
/// `llvm-config --prefix` printed; none where it printed nothing.
pub fn prefix_directories(output: &str) -> (r: Option<Vec<String>>)
    ensures
        r is None <==> prefix_directory_list(output@) is None,
        r matches Some(v) ==> prefix_directory_list(output@) == Some(v.deep_view()),
{
    match first_line(output) {
        Some(p) => {
            let v = vec![
                join_path(p.as_str(), "bin"),
                join_path(p.as_str(), "lib"),
                join_path(p.as_str(), "lib64"),
            ];
            assert(v.deep_view() =~= seq![
                joined_path(p@, "bin"@),
                joined_path(p@, "lib"@),
                joined_path(p@, "lib64"@),
            ]);
            Some(v)
        },
        None => None,
    }
}

/// The toolchain library directory under the developer directory that
/// `xcode-select --print-path` printed on its first line.
pub open spec fn xcode_directory(output: Seq<char>) -> Option<Seq<char>> {
    match first_line_of(output) {
        Some(p) => Some(joined_path(p, "Toolchains/XcodeDefault.xctoolchain/usr/lib"@)),
        None => None,
    }
}

/// The toolchain library directory to search on macOS; none where
/// `xcode-select` printed nothing.
pub fn xcode_toolchain_directory(output: &str) -> (r: Option<String>)
    ensures
        opt_text(r) == xcode_directory(output@),
{
    match first_line(output) {
        Some(p) => Some(join_path(p.as_str(), "Toolchains/XcodeDefault.xctoolchain/usr/lib")),
        None => None,
    }
}

/// A directory pattern made relative by removing a leading `/` or `C:\`,
/// for searches under a scratch directory.
pub open spec fn relative_pattern_of(p: Seq<char>) -> Seq<char> {
    if p.len() > 0 && p[0] == '/' {
        p.drop_first()
    } else if p.len() >= 3 && p[0] == 'C' && p[1] == ':' && p[2] == '\\' {
        p.skip(3)
    } else {
        p
    }
}

/// Makes a directory pattern relative.
pub fn relative_pattern(p: &str) -> (r: String)
    ensures
        r@ == relative_pattern_of(p@),
{
    let cs = chars_of(p);
    let n = cs.len();
    if n > 0 && cs[0] == '/' {
        p.substring_char(1, n).to_owned()
    } else if n >= 3 && cs[0] == 'C' && cs[1] == ':' && cs[2] == '\\' {
        p.substring_char(3, n).to_owned()
    } else {
        p.to_owned()
    }
}

/// Whether one of the matches has the file name `filename`: where the
/// override names a file, the search is satisfied by that file alone.
pub fn override_file_hit(found: &Vec<(String, String)>, filename: &str) -> (r: bool)
    ensures
        r == exists|i: int| 0 <= i < found@.len() && (#[trigger] found@[i]).1@ == filename@,
{
    let name = filename.to_owned();
    let mut i: usize = 0;
    while i < found.len()
        invariant
            i <= found@.len(),
            name@ == filename@,
            forall|k: int| 0 <= k < i ==> (#[trigger] found@[k]).1@ != filename@,
        decreases found@.len() - i,
    {
        if found[i].1 == name {
            return true;
        }
        i = i + 1;
    }
    false
}

/// One place that a search for `libclang` looks in.
pub enum SearchStep {
    /// The path that the override variable names: a library file, or else a
    /// directory to search.
    Override(String),
    /// A directory searched as it is.
    Directory(String),
    /// A pattern; each directory it matches, compared without regard to
    /// case, is searched.
    Pattern(String),
}

/// A step as its kind (0 override, 1 directory, 2 pattern) and its text.
pub open spec fn step_view(s: SearchStep) -> (int, Seq<char>) {
    match s {
        SearchStep::Override(p) => (0, p@),
        SearchStep::Directory(d) => (1, d@),
        SearchStep::Pattern(p) => (2, p@),
    }
}

/// The views of a list of steps.
pub open spec fn steps_view(v: Seq<SearchStep>) -> Seq<(int, Seq<char>)> {
    v.map_values(|s: SearchStep| step_view(s))
}

/// Directories as steps.
pub open spec fn as_directories(ds: Seq<Seq<char>>) -> Seq<(int, Seq<char>)> {
    ds.map_values(|d: Seq<char>| (1int, d))
}

/// The places a search looks in, in order. An override is searched alone.
/// Otherwise: `bin`, `lib` and `lib64` under the prefix that
/// `llvm-config --prefix` printed; on macOS the toolchain directory under
/// what `xcode-select --print-path` printed; the entries of the library
/// search path; then the platform's directory patterns, made relative where
/// `scratch` says the search runs under a scratch directory.
pub open spec fn planned_steps(
    env_override: Option<Seq<char>>,
    prefix_output: Option<Seq<char>>,
    xcode_output: Option<Seq<char>>,
    library_path: Seq<Seq<char>>,
    os: TargetOs,
    msvc: bool,
    scratch: bool,
) -> Seq<(int, Seq<char>)> {
    match env_override {
        Some(p) => seq![(0int, p)],
        None => {
            let prefix_part = match prefix_output {
                Some(o) => match prefix_directory_list(o) {
                    Some(ds) => as_directories(ds),
                    None => Seq::empty(),
                },
                None => Seq::empty(),
            };
            let xcode_part = match xcode_output {
                Some(o) => if os == TargetOs::MacOs && xcode_directory(o) is Some {
                    seq![(1int, xcode_directory(o)->0)]
                } else {
                    Seq::empty()
                },
                None => Seq::empty(),
            };
            let patterns = libclang_directory_list(os, msvc).map_values(
                |p: Seq<char>|
                    (
                        2int,
                        if scratch {
                            relative_pattern_of(p)
                        } else {
                            p
                        },
                    ),
            );
            prefix_part + xcode_part + as_directories(library_path) + patterns
        },
    }
}

/// Appends the directories `ds` as steps.
fn push_directories(steps: &mut Vec<SearchStep>, ds: Vec<String>)
    ensures
        steps_view(final(steps)@) == steps_view(old(steps)@) + as_directories(ds.deep_view()),
{
    let ghost start = steps_view(steps@);
    let mut i: usize = 0;
    while i < ds.len()
        invariant
            i <= ds@.len(),
            steps_view(steps@) == start + as_directories(ds.deep_view().take(i as int)),
        decreases ds@.len() - i,
    {
        let ghost before = steps_view(steps@);
        steps.push(SearchStep::Directory(ds[i].clone()));
        assert(steps_view(steps@) =~= before.push((1int, ds@[i as int]@)));
        assert(as_directories(ds.deep_view().take(i + 1)) =~= as_directories(
            ds.deep_view().take(i as int),
        ).push((1int, ds@[i as int]@)));
        i = i + 1;
    }
    assert(ds.deep_view().take(i as int) =~= ds.deep_view());
}

/// Lists the places a search for `libclang` looks in, in order; see
/// `planned_steps`. Where the override is set, the helper outputs and the
/// search path are not consulted.
pub fn search_plan(
    env_override: Option<&str>,
    prefix_output: Option<&str>,
    xcode_output: Option<&str>,
    library_path: Vec<String>,
    os: TargetOs,
    msvc: bool,
    scratch: bool,
) -> (r: Vec<SearchStep>)
    ensures
        steps_view(r@) == planned_steps(
            match env_override {
                Some(p) => Some(p@),
                None => None,
            },
            match prefix_output {
                Some(o) => Some(o@),
                None => None,
            },
            match xcode_output {
                Some(o) => Some(o@),
                None => None,
            },
            library_path.deep_view(),
            os,
            msvc,
            scratch,
        ),
{
    let mut steps: Vec<SearchStep> = Vec::new();
    if let Some(p) = env_override {
        steps.push(SearchStep::Override(p.to_owned()));
        assert(steps_view(steps@) =~= seq![(0int, p@)]);
        return steps;
    }
    assert(steps_view(steps@) =~= Seq::<(int, Seq<char>)>::empty());
    if let Some(o) = prefix_output {
        if let Some(ds) = prefix_directories(o) {
            push_directories(&mut steps, ds);
        }
    }
    let ghost after_prefix = steps_view(steps@);
    if os == TargetOs::MacOs {
        if let Some(o) = xcode_output {
            if let Some(d) = xcode_toolchain_directory(o) {
                steps.push(SearchStep::Directory(d));
                assert(steps_view(steps@) =~= after_prefix.push((1int, xcode_directory(o@)->0)));
            }
        }
    }
    let ghost after_xcode = steps_view(steps@);
    push_directories(&mut steps, library_path);
    let ghost after_path = steps_view(steps@);
    let patterns = libclang_directory_patterns(os, msvc);
    let ghost pv = libclang_directory_list(os, msvc).map_values(
        |p: Seq<char>|
            (
                2int,
                if scratch {
                    relative_pattern_of(p)
                } else {
                    p
                },
            ),
    );
    let mut i: usize = 0;
    while i < patterns.len()
        invariant
            i <= patterns@.len(),
            patterns@.len() == libclang_directory_list(os, msvc).len(),
            forall|k: int| 0 <= k < patterns@.len() ==> (#[trigger] patterns@[k])@ == libclang_directory_list(os, msvc)[k],
            pv == libclang_directory_list(os, msvc).map_values(
                |p: Seq<char>|
                    (
                        2int,
                        if scratch {
                            relative_pattern_of(p)
                        } else {
                            p
                        },
                    ),
            ),
            steps_view(steps@) == after_path + pv.take(i as int),
        decreases patterns@.len() - i,
    {
        let p = patterns[i];
        let text = if scratch {
            relative_pattern(p)
        } else {
            p.to_owned()
        };
        let ghost before = steps_view(steps@);
        steps.push(SearchStep::Pattern(text));
        assert(steps_view(steps@) =~= before.push(pv[i as int]));
        assert(pv.take(i + 1) =~= pv.take(i as int).push(pv[i as int]));
        i = i + 1;
    }
    assert(pv.take(i as int) =~= pv);
    steps
}

} // verus!
