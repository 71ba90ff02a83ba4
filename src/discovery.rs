//! Finding `llvm-config`: the target version, the one-time search and its
//! cache, and the platform tables of where installations live.
use vstd::prelude::*;
use crate::text::{decimal, decimal_text, joined};
use crate::version_key::{parse_major_version, reported_major};

verus! {

/// Whether `(major, minor)` is a release line that a `clang_<major>_<minor>`
/// capability flag can ask for.
pub open spec fn is_known_feature(f: (u32, u32)) -> bool {
    (f.1 == 0 && 4 <= f.0 && f.0 <= 23) || (f.0 == 3 && 5 <= f.1 && f.1 <= 9)
}

/// The target major version: the highest major version among the enabled
/// capability flags that name a known release line, none if there is none.
pub open spec fn target_version(features: Seq<(u32, u32)>) -> Option<u32>
    decreases features.len(),
{
    if features.len() == 0 {
        None
    } else {
        let prev = target_version(features.drop_last());
        let f = features.last();
        if !is_known_feature(f) {
            prev
        } else {
            match prev {
                Some(m) => if f.0 > m {
                    Some(f.0)
                } else {
                    Some(m)
                },
                None => Some(f.0),
            }
        }
    }
}

/// The target is the major version of a known flag, and no known flag has a
/// higher one; there is a target exactly where some flag is known.
pub proof fn lemma_target_is_highest(features: Seq<(u32, u32)>)
    ensures
        target_version(features) is None <==> forall|i: int|
            0 <= i < features.len() ==> !is_known_feature(#[trigger] features[i]),
        target_version(features) matches Some(m) ==> (exists|i: int|
            0 <= i < features.len() && is_known_feature(#[trigger] features[i]) && features[i].0 == m)
            && (forall|i: int| 0 <= i < features.len() && is_known_feature(#[trigger] features[i]) ==> features[i].0 <= m),
    decreases features.len(),
{
    if features.len() > 0 {
        let init = features.drop_last();
        lemma_target_is_highest(init);
        assert forall|i: int| 0 <= i < init.len() implies #[trigger] init[i] == features[i] by {}
        let n = features.len() - 1;
        if let Some(m) = target_version(features) {
            if let Some(pm) = target_version(init) {
                let k = choose|i: int| 0 <= i < init.len() && is_known_feature(#[trigger] init[i]) && init[i].0 == pm;
                assert(features[k] == init[k]);
            }
            assert forall|i: int| 0 <= i < features.len() && is_known_feature(#[trigger] features[i]) implies features[i].0 <= m by {
                if i < n {
                    assert(init[i] == features[i]);
                }
            }
        } else {
            assert forall|i: int| 0 <= i < features.len() implies !is_known_feature(#[trigger] features[i]) by {
                if i < n {
                    assert(init[i] == features[i]);
                }
            }
        }
        if target_version(features) is None {
        } else if forall|i: int| 0 <= i < features.len() ==> !is_known_feature(#[trigger] features[i]) {
            if let Some(pm) = target_version(init) {
                let k = choose|i: int| 0 <= i < init.len() && is_known_feature(#[trigger] init[i]) && init[i].0 == pm;
                assert(features[k] == init[k]);
            }
            assert(!is_known_feature(features[n]));
        }
    }
}

/// The target major version for the enabled capability flags, each given as
/// the `(major, minor)` of its `clang_<major>_<minor>` name. The flags are
/// cumulative, so the highest one decides.
pub fn get_target_clang_version(features: &Vec<(u32, u32)>) -> (r: Option<u32>)
    ensures
        r == target_version(features@),
{
    let mut best: Option<u32> = None;
    let mut i: usize = 0;
    assert(features@.take(0) =~= Seq::<(u32, u32)>::empty());
    while i < features.len()
        invariant
            i <= features@.len(),
            best == target_version(features@.take(i as int)),
        decreases features@.len() - i,
    {
        assert(features@.take(i + 1).drop_last() =~= features@.take(i as int));
        assert(features@.take(i + 1).last() == features@[i as int]);
        let (major, minor) = features[i];
        let known = (minor == 0 && 4 <= major && major <= 23) || (major == 3 && 5 <= minor && minor
            <= 9);
        if known {
            match best {
                Some(m) => if major > m {
                    best = Some(major);
                },
                None => {
                    best = Some(major);
                },
            }
        }
        i = i + 1;
    }
    assert(features@.take(i as int) =~= features@);
    best
}

/// Whether the `llvm-config` on the search path, which printed `output` for
/// `--version`, will do: always where no version is targeted, else only
/// where its major version can be read and is the target.
pub open spec fn path_llvm_config_fits(target: Option<u32>, output: Seq<char>) -> bool {
    match target {
        Some(t) => reported_major(output) == Some(t),
        None => true,
    }
}

/// Decides whether the `llvm-config` on the search path will do.
pub fn accept_path_llvm_config(target: Option<u32>, output: &str) -> (r: bool)
    ensures
        r == path_llvm_config_fits(target, output@),
{
    match target {
        Some(t) => match parse_major_version(output) {
            Some(f) => t == f,
            None => false,
        },
        None => true,
    }
}

/// The result of the search for `llvm-config`, kept so that the search runs
/// at most once.
pub struct LlvmConfigCache {
    slot: Option<Option<String>>,
}

impl View for LlvmConfigCache {
    type V = Option<Option<Seq<char>>>;

    /// `None` before the search; afterwards what it found, if anything.
    closed spec fn view(&self) -> Option<Option<Seq<char>>> {
        match self.slot {
            None => None,
            Some(None) => Some(None),
            Some(Some(p)) => Some(Some(p@)),
        }
    }
}

/// The cache after a lookup whose search, if it ran, found `found`.
pub open spec fn cache_after(c: Option<Option<Seq<char>>>, found: Option<Seq<char>>) -> Option<
    Option<Seq<char>>,
> {
    match c {
        Some(v) => Some(v),
        None => Some(found),
    }
}

/// Whether a lookup on the cache `c` runs the search.
pub open spec fn needs_search(c: Option<Option<Seq<char>>>) -> bool {
    c is None
}

/// After one lookup, no lookup runs the search again, whatever it finds, and
/// the cached result stays what the first search found.
pub proof fn lemma_search_runs_once(
    c: Option<Option<Seq<char>>>,
    first: Option<Seq<char>>,
    later: Option<Seq<char>>,
)
    ensures
        !needs_search(cache_after(c, first)),
        cache_after(cache_after(c, first), later) == cache_after(c, first),
{
}

impl LlvmConfigCache {
    /// A cache before any search.
    pub fn new() -> (r: LlvmConfigCache)
        ensures
            r@ is None,
    {
        LlvmConfigCache { slot: None }
    }
}

/// The option's text, as a view.
pub open spec fn opt_view(o: Option<String>) -> Option<Seq<char>> {
    match o {
        Some(s) => Some(s@),
        None => None,
    }
}

fn clone_opt(o: &Option<String>) -> (r: Option<String>)
    ensures
        opt_view(r) == opt_view(*o),
{
    match o {
        Some(s) => Some(s.clone()),
        None => None,
    }
}

/// The path of an `llvm-config` found by `search`, which runs only on the
/// first lookup; later lookups give what it found then.
pub fn find_llvm_config<F: FnOnce() -> Option<String>>(cache: &mut LlvmConfigCache, search: F) -> (r:
    Option<String>)
    requires
        old(cache)@ is None ==> search.requires(()),
    ensures
        old(cache)@ matches Some(v) ==> opt_view(r) == v,
        old(cache)@ is None ==> search.ensures((), r),
        final(cache)@ == cache_after(old(cache)@, opt_view(r)),
{
    match &cache.slot {
        Some(cached) => {
            return clone_opt(cached);
        },
        None => {},
    }
    let found = search();
    cache.slot = Some(clone_opt(&found));
    found
}

/// The `llvm-config` to run: the override where one is set; else what the
/// cached search found; else the one on the search path.
pub fn resolve_llvm_config_path<F: FnOnce() -> Option<String>>(
    env_override: Option<String>,
    cache: &mut LlvmConfigCache,
    search: F,
) -> (r: String)
    requires
        env_override is None && old(cache)@ is None ==> search.requires(()),
    ensures
        env_override matches Some(p) ==> r@ == p@ && final(cache)@ == old(cache)@,
        env_override is None ==> exists|found: Option<String>|
            (old(cache)@ is None ==> search.ensures((), found))
            && (old(cache)@ matches Some(v) ==> opt_view(found) == v)
            && final(cache)@ == cache_after(old(cache)@, opt_view(found))
            && r@ == match opt_view(found) {
                Some(p) => p,
                None => "llvm-config"@,
            },
{
    if let Some(p) = env_override {
        return p;
    }
    let found = find_llvm_config(cache, search);
    match found {
        Some(p) => p,
        None => "llvm-config".to_owned(),
    }
}

/// The advisory message for an `llvm-config` found by the search.
pub open spec fn detected_text(target: Option<u32>, path: Seq<char>) -> Seq<char> {
    match target {
        Some(t) => "cargo:warning=clang-sys: auto-detected llvm-config (v"@ + decimal(t as nat)
            + ") at: "@ + path,
        None => "cargo:warning=clang-sys: auto-detected llvm-config at: "@ + path,
    }
}

/// Writes the advisory message for an `llvm-config` found at `path`.
pub fn detected_warning(target: Option<u32>, path: &str) -> (r: String)
    ensures
        r@ == detected_text(target, path@),
{
    match target {
        Some(t) => {
            let mut r = "cargo:warning=clang-sys: auto-detected llvm-config (v".to_owned();
            let d = decimal_text(t);
            r.append(d.as_str());
            r.append(") at: ");
            r.append(path);
            r
        },
        None => {
            let mut r = "cargo:warning=clang-sys: auto-detected llvm-config at: ".to_owned();
            r.append(path);
            r
        },
    }
}

/// The available versions as a list, or `none` where there are none.
pub open spec fn available_text(available: Seq<u32>) -> Seq<char> {
    if available.len() == 0 {
        "none"@
    } else {
        joined(available.map_values(|v: u32| decimal(v as nat)), ", "@)
    }
}

/// The advisory message where no `llvm-config` has the target version.
pub open spec fn mismatch_text(target: u32, available: Seq<u32>) -> Seq<char> {
    "cargo:warning=clang-sys: could not find llvm-config for v"@ + decimal(target as nat)
        + " (available: "@ + available_text(available) + "). Install LLVM "@ + decimal(
        target as nat,
    ) + " or set LLVM_CONFIG_PATH."@
}

/// Writes the advisory message where the installations found have the
/// major versions `available` but none has `target`.
pub fn mismatch_warning(target: u32, available: &Vec<u32>) -> (r: String)
    ensures
        r@ == mismatch_text(target, available@),
{
    let mut list = String::new();
    let ghost ds = available@.map_values(|v: u32| decimal(v as nat));
    let mut i: usize = 0;
    assert(ds.take(0) =~= Seq::<Seq<char>>::empty());
    while i < available.len()
        invariant
            i <= available@.len(),
            ds == available@.map_values(|v: u32| decimal(v as nat)),
            list@ == joined(ds.take(i as int), ", "@),
        decreases available@.len() - i,
    {
        assert(ds.take(i + 1).drop_last() =~= ds.take(i as int));
        if i > 0 {
            list.append(", ");
        } else {
            assert(list@ =~= Seq::<char>::empty());
        }
        let d = decimal_text(available[i]);
        list.append(d.as_str());
        i = i + 1;
    }
    assert(ds.take(i as int) =~= ds);
    let t = decimal_text(target);
    let mut r = "cargo:warning=clang-sys: could not find llvm-config for v".to_owned();
    r.append(t.as_str());
    r.append(" (available: ");
    if available.len() == 0 {
        r.append("none");
    } else {
        r.append(list.as_str());
    }
    r.append("). Install LLVM ");
    r.append(t.as_str());
    r.append(" or set LLVM_CONFIG_PATH.");
    r
}

} // verus!
