//! Linking to the static libraries: the names to link and the flags around
//! them.
use vstd::prelude::*;
use crate::paths::{file_name, file_name_of, stem_of_name, before_last_dot};
use crate::platform::TargetOs;
use crate::search::{glob_escaped, join_path, joined_path};
use crate::text::{chars_of, has_prefix, has_prefix_in, split_whitespace, trim, trimmed, ws_tokens};

verus! {

/// The library name in the path of a library file: its file name without
/// the extension and without a leading `lib`.
pub open spec fn library_name_of(p: Seq<char>) -> Option<Seq<char>> {
    match file_name_of(p) {
        Some(n) => {
            let st = stem_of_name(n);
            Some(
                if has_prefix(st, "lib"@) {
                    st.skip(3)
                } else {
                    st
                },
            )
        },
        None => None,
    }
}

/// The file name without its extension.
fn file_stem(n: &String) -> (r: String)
    ensures
        r@ == stem_of_name(n@),
{
    let cs = chars_of(n.as_str());
    let len = cs.len();
    let mut k = len;
    assert(cs@.take(k as int) =~= cs@);
    while k > 0 && cs[k - 1] != '.'
        invariant
            k <= len == cs@.len(),
            cs@ == n@,
            before_last_dot(n@) == before_last_dot(cs@.take(k as int)),
        decreases k,
    {
        assert(cs@.take(k as int).drop_last() =~= cs@.take(k - 1));
        k = k - 1;
    }
    if k == 0 {
        assert(cs@.take(0) =~= Seq::<char>::empty());
        return n.clone();
    }
    assert(cs@.take(k as int).drop_last() =~= cs@.take(k - 1));
    if k - 1 == 0 {
        n.clone()
    } else {
        n.as_str().substring_char(0, k - 1).to_owned()
    }
}

/// Gets the name of an LLVM or Clang static library from its path.
pub fn get_library_name(path: &str) -> (r: Option<String>)
    ensures
        r is None <==> library_name_of(path@) is None,
        r matches Some(n) ==> library_name_of(path@) == Some(n@),
{
    match file_name(path) {
        Some(name) => {
            let st = file_stem(&name);
            let cs = chars_of(st.as_str());
            let lib = chars_of("lib");
            let n = cs.len();
            assert(cs@.subrange(0, n as int) =~= cs@);
            if has_prefix_in(&cs, 0, n, &lib) {
                proof {
                    reveal_strlit("lib");
                }
                Some(st.as_str().substring_char(3, n).to_owned())
            } else {
                Some(st)
            }
        },
        None => None,
    }
}

/// The library names in what `llvm-config --libs --link-static` printed: a
/// token `-l<name>` gives `<name>`, any other token is a library path and
/// gives its library name, if it has one.
pub open spec fn llvm_library_names(tokens: Seq<Seq<char>>) -> Seq<Seq<char>>
    decreases tokens.len(),
{
    if tokens.len() == 0 {
        Seq::empty()
    } else {
        let prev = llvm_library_names(tokens.drop_last());
        let t = tokens.last();
        if has_prefix(t, "-l"@) {
            prev.push(t.skip(2))
        } else {
            match library_name_of(t) {
                Some(n) => prev.push(n),
                None => prev,
            }
        }
    }
}

/// Gets the LLVM static libraries required to link to `libclang`, from what
/// `llvm-config --libs --link-static` printed.
pub fn get_llvm_libraries(output: &str) -> (r: Vec<String>)
    ensures
        r.deep_view() == llvm_library_names(ws_tokens(output@)),
{
    let tokens = split_whitespace(output);
    let ghost ts = tokens.deep_view();
    let dash_l = chars_of("-l");
    proof {
        reveal_strlit("-l");
    }
    let mut r: Vec<String> = Vec::new();
    let mut i: usize = 0;
    assert(ts.take(0) =~= Seq::<Seq<char>>::empty());
    assert(r.deep_view() =~= Seq::<Seq<char>>::empty());
    while i < tokens.len()
        invariant
            i <= tokens@.len(),
            ts == tokens.deep_view(),
            dash_l@ == "-l"@,
            r.deep_view() == llvm_library_names(ts.take(i as int)),
        decreases tokens@.len() - i,
    {
        assert(ts.take(i + 1).drop_last() =~= ts.take(i as int));
        assert(ts.take(i + 1).last() == tokens@[i as int]@);
        let t = tokens[i].as_str();
        let cs = chars_of(t);
        let n = cs.len();
        assert(cs@.subrange(0, n as int) =~= cs@);
        let ghost before = r.deep_view();
        if has_prefix_in(&cs, 0, n, &dash_l) {
            proof {
                reveal_strlit("-l");
            }
            let name = t.substring_char(2, n).to_owned();
            r.push(name);
            assert(r.deep_view() =~= before.push(name@));
        } else {
            match get_library_name(t) {
                Some(name) => {
                    r.push(name);
                    assert(r.deep_view() =~= before.push(name@));
                },
                None => {},
            }
        }
        i = i + 1;
    }
    assert(ts.take(i as int) =~= ts);
    r
}

/// The Clang static libraries linked when the directory cannot be listed.
pub open spec fn default_clang_libraries() -> Seq<Seq<char>> {
    seq![
        "clang"@,
        "clangAST"@,
        "clangAnalysis"@,
        "clangBasic"@,
        "clangDriver"@,
        "clangEdit"@,
        "clangFrontend"@,
        "clangIndex"@,
        "clangLex"@,
        "clangParse"@,
        "clangRewrite"@,
        "clangSema"@,
        "clangSerialization"@,
    ]
}

/// The library names of the paths that have one, in order.
pub open spec fn library_names(paths: Seq<Seq<char>>) -> Seq<Seq<char>>
    decreases paths.len(),
{
    if paths.len() == 0 {
        Seq::empty()
    } else {
        let prev = library_names(paths.drop_last());
        match library_name_of(paths.last()) {
            Some(n) => prev.push(n),
            None => prev,
        }
    }
}

/// The pattern that lists the Clang static libraries in `directory`.
pub fn clang_library_pattern(directory: &str) -> (r: String)
    ensures
        r@ == joined_path(glob_escaped(directory@), "libclang*.a"@),
{
    let escaped = crate::search::escape_directory(directory);
    join_path(escaped.as_str(), "libclang*.a")
}

/// Gets the Clang static libraries to link: the library names of the files
/// that the pattern of `clang_library_pattern` matched, or the fixed list
/// where that pattern could not be used.
pub fn get_clang_libraries(matched: Option<&Vec<String>>) -> (r: Vec<String>)
    ensures
        r.deep_view() == match matched {
            Some(paths) => library_names(paths.deep_view()),
            None => default_clang_libraries(),
        },
{
    match matched {
        None => {
            let r = vec![
                "clang".to_owned(),
                "clangAST".to_owned(),
                "clangAnalysis".to_owned(),
                "clangBasic".to_owned(),
                "clangDriver".to_owned(),
                "clangEdit".to_owned(),
                "clangFrontend".to_owned(),
                "clangIndex".to_owned(),
                "clangLex".to_owned(),
                "clangParse".to_owned(),
                "clangRewrite".to_owned(),
                "clangSema".to_owned(),
                "clangSerialization".to_owned(),
            ];
            assert(r.deep_view() =~= default_clang_libraries());
            r
        },
        Some(paths) => {
            let ghost ps = paths.deep_view();
            let mut r: Vec<String> = Vec::new();
            let mut i: usize = 0;
            assert(ps.take(0) =~= Seq::<Seq<char>>::empty());
            assert(r.deep_view() =~= Seq::<Seq<char>>::empty());
            while i < paths.len()
                invariant
                    i <= paths@.len(),
                    ps == paths.deep_view(),
                    r.deep_view() == library_names(ps.take(i as int)),
                decreases paths@.len() - i,
            {
                assert(ps.take(i + 1).drop_last() =~= ps.take(i as int));
                assert(ps.take(i + 1).last() == paths@[i as int]@);
                let ghost before = r.deep_view();
                match get_library_name(paths[i].as_str()) {
                    Some(name) => {
                        r.push(name);
                        assert(r.deep_view() =~= before.push(name@));
                    },
                    None => {},
                }
                i = i + 1;
            }
            assert(ps.take(i as int) =~= ps);
            r
        },
    }
}

/// The file names that mark a directory of Clang static libraries: the
/// monolithic library or a component library that every static build has.
pub fn static_marker_files(os: TargetOs) -> (r: Vec<&'static str>)
    ensures
        os == TargetOs::Windows ==> r@.len() == 2 && r@[0]@ == "libclang.lib"@ && r@[1]@ == "clangBasic.lib"@,
        os != TargetOs::Windows ==> r@.len() == 2 && r@[0]@ == "libclang.a"@ && r@[1]@ == "libclangBasic.a"@,
{
    if os == TargetOs::Windows {
        vec!["libclang.lib", "clangBasic.lib"]
    } else {
        vec!["libclang.a", "libclangBasic.a"]
    }
}

/// The prefix of each LLVM library in the link flags: `static=` where
/// `llvm-config --shared-mode` printed `static`, else none.
pub fn llvm_link_prefix(mode: Option<&str>) -> (r: &'static str)
    ensures
        r@ == (match mode {
            Some(m) => if trimmed(m@) == "static"@ {
                "static="@
            } else {
                ""@
            },
            None => ""@,
        }),
{
    match mode {
        Some(m) => {
            let t = trim(m);
            let cs = chars_of(t);
            proof {
                reveal_strlit("static");
            }
            let is_static = cs.len() == 6 && cs[0] == 's' && cs[1] == 't' && cs[2] == 'a' && cs[3] == 't'
                && cs[4] == 'i' && cs[5] == 'c';
            if is_static {
                assert(cs@ =~= "static"@);
                "static="
            } else {
                assert(cs@ != "static"@) by {
                    if cs@ == "static"@ {
                        assert(cs@[0] == 's' && cs@[1] == 't' && cs@[2] == 'a' && cs@[3] == 't' && cs@[4] == 'i' && cs@[5] == 'c');
                    }
                }
                ""
            }
        },
        None => "",
    }
}

/// The system libraries that the static libraries need, as compiler flags;
/// none where the target tracks them itself.
pub fn system_library_flags(os: TargetOs, libcpp: bool) -> (r: Option<&'static str>)
    ensures
        r matches Some(f) ==> f@ == (match os {
            TargetOs::FreeBsd => "-l ffi -l ncursesw -l c++ -l z"@,
            TargetOs::MacOs => "-l ffi -l ncurses -l c++ -l z"@,
            _ => if libcpp {
                "-l c++"@
            } else {
                "-l ffi -l ncursesw -l stdc++ -l z"@
            },
        }),
        r is Some <==> (os == TargetOs::FreeBsd || os == TargetOs::MacOs || os == TargetOs::Haiku || os == TargetOs::Linux),
{
    match os {
        TargetOs::FreeBsd => Some("-l ffi -l ncursesw -l c++ -l z"),
        TargetOs::Haiku | TargetOs::Linux => if libcpp {
            Some("-l c++")
        } else {
            Some("-l ffi -l ncursesw -l stdc++ -l z")
        },
        TargetOs::MacOs => Some("-l ffi -l ncurses -l c++ -l z"),
        _ => None,
    }
}

} // verus!
