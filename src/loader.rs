//! The loaded library: which release line it belongs to, and the registry
//! that holds it for one execution context.
use vstd::prelude::*;
use std::sync::Arc;
use crate::text::{
    before_first, chars_of, find_char, parse_u32, parse_u32_in, split_whitespace, ws_tokens,
};

verus! {

/// The release lines of `libclang`, oldest first; each stands for the first
/// release that has its API.
#[derive(Clone, Copy, Debug, PartialEq, Eq, Structural, PartialOrd, Ord, Hash)]
pub enum Version {
    V3_5,
    V3_6,
    V3_7,
    V3_8,
    V3_9,
    V4_0,
    V5_0,
    V6_0,
    V7_0,
    V8_0,
    V9_0,
    V11_0,
    V12_0,
    V16_0,
    V17_0,
    V18_0,
    V19_0,
    V20_0,
    V21_0,
    V22_0,
    V23_0,
}

/// The release number of a line, times ten: `V3_5` is 35, `V23_0` is 230.
/// Lines are ordered by it, as they were released.
pub open spec fn rank(v: Version) -> nat {
    match v {
        Version::V3_5 => 35,
        Version::V3_6 => 36,
        Version::V3_7 => 37,
        Version::V3_8 => 38,
        Version::V3_9 => 39,
        Version::V4_0 => 40,
        Version::V5_0 => 50,
        Version::V6_0 => 60,
        Version::V7_0 => 70,
        Version::V8_0 => 80,
        Version::V9_0 => 90,
        Version::V11_0 => 110,
        Version::V12_0 => 120,
        Version::V16_0 => 160,
        Version::V17_0 => 170,
        Version::V18_0 => 180,
        Version::V19_0 => 190,
        Version::V20_0 => 200,
        Version::V21_0 => 210,
        Version::V22_0 => 220,
        Version::V23_0 => 230,
    }
}

/// How a release line is described to people.
pub open spec fn label_of(v: Version) -> Seq<char> {
    match v {
        Version::V3_5 => "3.5.x"@,
        Version::V3_6 => "3.6.x"@,
        Version::V3_7 => "3.7.x"@,
        Version::V3_8 => "3.8.x"@,
        Version::V3_9 => "3.9.x"@,
        Version::V4_0 => "4.0.x"@,
        Version::V5_0 => "5.0.x"@,
        Version::V6_0 => "6.0.x"@,
        Version::V7_0 => "7.0.x"@,
        Version::V8_0 => "8.0.x"@,
        Version::V9_0 => "9.0.x - 10.0.x"@,
        Version::V11_0 => "11.0.x"@,
        Version::V12_0 => "12.0.x - 15.0.x"@,
        Version::V16_0 => "16.0.x"@,
        Version::V17_0 => "17.0.x"@,
        Version::V18_0 => "18.0.x"@,
        Version::V19_0 => "19.0.x"@,
        Version::V20_0 => "20.0.x"@,
        Version::V21_0 => "21.0.x"@,
        Version::V22_0 => "22.0.x"@,
        Version::V23_0 => "23.0.x or later"@,
    }
}

impl Version {
    /// The release number of this line, times ten.
    pub fn rank(&self) -> (r: u32)
        ensures
            r == rank(*self),
    {
        match self {
            Version::V3_5 => 35,
            Version::V3_6 => 36,
            Version::V3_7 => 37,
            Version::V3_8 => 38,
            Version::V3_9 => 39,
            Version::V4_0 => 40,
            Version::V5_0 => 50,
            Version::V6_0 => 60,
            Version::V7_0 => 70,
            Version::V8_0 => 80,
            Version::V9_0 => 90,
            Version::V11_0 => 110,
            Version::V12_0 => 120,
            Version::V16_0 => 160,
            Version::V17_0 => 170,
            Version::V18_0 => 180,
            Version::V19_0 => 190,
            Version::V20_0 => 200,
            Version::V21_0 => 210,
            Version::V22_0 => 220,
            Version::V23_0 => 230,
        }
    }

    /// How this release line is described to people, such as `17.0.x`.
    pub fn label(&self) -> (r: &'static str)
        ensures
            r@ == label_of(*self),
    {
        match self {
            Version::V3_5 => "3.5.x",
            Version::V3_6 => "3.6.x",
            Version::V3_7 => "3.7.x",
            Version::V3_8 => "3.8.x",
            Version::V3_9 => "3.9.x",
            Version::V4_0 => "4.0.x",
            Version::V5_0 => "5.0.x",
            Version::V6_0 => "6.0.x",
            Version::V7_0 => "7.0.x",
            Version::V8_0 => "8.0.x",
            Version::V9_0 => "9.0.x - 10.0.x",
            Version::V11_0 => "11.0.x",
            Version::V12_0 => "12.0.x - 15.0.x",
            Version::V16_0 => "16.0.x",
            Version::V17_0 => "17.0.x",
            Version::V18_0 => "18.0.x",
            Version::V19_0 => "19.0.x",
            Version::V20_0 => "20.0.x",
            Version::V21_0 => "21.0.x",
            Version::V22_0 => "22.0.x",
            Version::V23_0 => "23.0.x or later",
        }
    }
}

/// The release line of a major release number, where the API of several
/// majors did not change between them; none before 4.
pub open spec fn major_release(major: u32) -> Option<Version> {
    if major >= 23 {
        Some(Version::V23_0)
    } else if major == 22 {
        Some(Version::V22_0)
    } else if major == 21 {
        Some(Version::V21_0)
    } else if major == 20 {
        Some(Version::V20_0)
    } else if major == 19 {
        Some(Version::V19_0)
    } else if major == 18 {
        Some(Version::V18_0)
    } else if major == 17 {
        Some(Version::V17_0)
    } else if major == 16 {
        Some(Version::V16_0)
    } else if 12 <= major && major <= 15 {
        Some(Version::V12_0)
    } else if major == 11 {
        Some(Version::V11_0)
    } else if major == 9 || major == 10 {
        Some(Version::V9_0)
    } else if major == 8 {
        Some(Version::V8_0)
    } else if major == 7 {
        Some(Version::V7_0)
    } else if major == 6 {
        Some(Version::V6_0)
    } else if major == 5 {
        Some(Version::V5_0)
    } else if major == 4 {
        Some(Version::V4_0)
    } else {
        None
    }
}

/// Maps a major release number onto its release line.
pub fn release_of_major(major: u32) -> (r: Option<Version>)
    ensures
        r == major_release(major),
{
    if major >= 23 {
        Some(Version::V23_0)
    } else if major == 22 {
        Some(Version::V22_0)
    } else if major == 21 {
        Some(Version::V21_0)
    } else if major == 20 {
        Some(Version::V20_0)
    } else if major == 19 {
        Some(Version::V19_0)
    } else if major == 18 {
        Some(Version::V18_0)
    } else if major == 17 {
        Some(Version::V17_0)
    } else if major == 16 {
        Some(Version::V16_0)
    } else if 12 <= major && major <= 15 {
        Some(Version::V12_0)
    } else if major == 11 {
        Some(Version::V11_0)
    } else if major == 9 || major == 10 {
        Some(Version::V9_0)
    } else if major == 8 {
        Some(Version::V8_0)
    } else if major == 7 {
        Some(Version::V7_0)
    } else if major == 6 {
        Some(Version::V6_0)
    } else if major == 5 {
        Some(Version::V5_0)
    } else if major == 4 {
        Some(Version::V4_0)
    } else {
        None
    }
}

/// The release line that a self-reported version text such as
/// `clang version 17.0.6` gives: the major number before the first `.` of
/// its third word.
pub open spec fn version_from_text(text: Seq<char>) -> Option<Version> {
    let words = ws_tokens(text);
    if words.len() >= 3 {
        match parse_u32(before_first(words[2], '.')) {
            Some(m) => major_release(m),
            None => None,
        }
    } else {
        None
    }
}

/// Reads the release line from the library's self-reported version text.
pub fn version_from_string(text: &str) -> (r: Option<Version>)
    ensures
        r == version_from_text(text@),
{
    let words = split_whitespace(text);
    if words.len() < 3 {
        return None;
    }
    let cs = chars_of(words[2].as_str());
    let n = cs.len();
    assert(cs@.subrange(0, n as int) =~= cs@);
    let k = find_char(&cs, 0, n, '.');
    match parse_u32_in(&cs, 0, k) {
        Some(m) => release_of_major(m),
        None => None,
    }
}

/// The marker symbols, newest first: each is exported from the release line
/// beside it on.
pub open spec fn marker_list() -> Seq<(Seq<char>, Version)> {
    seq![
        ("clang_getFullyQualifiedName"@, Version::V21_0),
        ("clang_getOffsetOfBase"@, Version::V20_0),
        ("clang_Cursor_getBinaryOpcode"@, Version::V19_0),
        ("clang_CXXMethod_isExplicit"@, Version::V17_0),
        ("clang_CXXMethod_isCopyAssignmentOperator"@, Version::V16_0),
        ("clang_Cursor_getVarDeclInitializer"@, Version::V12_0),
        ("clang_Type_getValueType"@, Version::V11_0),
        ("clang_Cursor_isAnonymousRecordDecl"@, Version::V9_0),
        ("clang_Cursor_getObjCPropertyGetterName"@, Version::V8_0),
        ("clang_File_tryGetRealPathName"@, Version::V7_0),
        ("clang_CXIndex_setInvocationEmissionPathOption"@, Version::V6_0),
        ("clang_Cursor_isExternalSymbol"@, Version::V5_0),
        ("clang_EvalResult_getAsLongLong"@, Version::V4_0),
        ("clang_CXXConstructor_isConvertingConstructor"@, Version::V3_9),
        ("clang_CXXField_isMutable"@, Version::V3_8),
        ("clang_Cursor_getOffsetOfField"@, Version::V3_7),
        ("clang_Cursor_getStorageClass"@, Version::V3_6),
        ("clang_Type_getNumTemplateArguments"@, Version::V3_5),
    ]
}

/// The marker symbols, newest first, each with the release line it marks.
pub fn version_markers() -> (r: Vec<(&'static str, Version)>)
    ensures
        r@.len() == marker_list().len(),
        forall|i: int| 0 <= i < r@.len() ==> (#[trigger] r@[i]).0@ == marker_list()[i].0 && r@[i].1 == marker_list()[i].1,
{
    let r = vec![
        ("clang_getFullyQualifiedName", Version::V21_0),
        ("clang_getOffsetOfBase", Version::V20_0),
        ("clang_Cursor_getBinaryOpcode", Version::V19_0),
        ("clang_CXXMethod_isExplicit", Version::V17_0),
        ("clang_CXXMethod_isCopyAssignmentOperator", Version::V16_0),
        ("clang_Cursor_getVarDeclInitializer", Version::V12_0),
        ("clang_Type_getValueType", Version::V11_0),
        ("clang_Cursor_isAnonymousRecordDecl", Version::V9_0),
        ("clang_Cursor_getObjCPropertyGetterName", Version::V8_0),
        ("clang_File_tryGetRealPathName", Version::V7_0),
        ("clang_CXIndex_setInvocationEmissionPathOption", Version::V6_0),
        ("clang_Cursor_isExternalSymbol", Version::V5_0),
        ("clang_EvalResult_getAsLongLong", Version::V4_0),
        ("clang_CXXConstructor_isConvertingConstructor", Version::V3_9),
        ("clang_CXXField_isMutable", Version::V3_8),
        ("clang_Cursor_getOffsetOfField", Version::V3_7),
        ("clang_Cursor_getStorageClass", Version::V3_6),
        ("clang_Type_getNumTemplateArguments", Version::V3_5),
    ];
    r
}

/// Whether a marker's release line is shared by several releases, so that
/// the self-reported version text says more than the marker.
pub open spec fn shared_marker(v: Version) -> bool {
    v == Version::V21_0 || v == Version::V17_0
}

/// The index of the first marker found, if any; `present[i]` tells whether
/// marker `i` is exported, and markers past its end are taken as absent.
pub open spec fn first_present(present: Seq<bool>, from: int) -> Option<int>
    decreases marker_list().len() - from,
{
    if from < 0 || from >= marker_list().len() || from >= present.len() {
        None
    } else if present[from] {
        Some(from)
    } else {
        first_present(present, from + 1)
    }
}

/// The release line of a library that exports the markers `present` and
/// whose version text gives `reported`: the line of the newest marker found;
/// where that line is shared, the reported line instead, unless it is older
/// than the marker's; none where no marker is found.
pub open spec fn classified(present: Seq<bool>, reported: Option<Version>) -> Option<Version> {
    match first_present(present, 0) {
        None => None,
        Some(i) => {
            let floor = marker_list()[i].1;
            match reported {
                Some(v) => if shared_marker(floor) && rank(v) >= rank(floor) {
                    Some(v)
                } else {
                    Some(floor)
                },
                None => Some(floor),
            }
        },
    }
}

/// The classification never gives a line older than that of the newest
/// marker found, and gives a line exactly where a marker is found.
pub proof fn lemma_classification_respects_markers(present: Seq<bool>, reported: Option<Version>)
    ensures
        classified(present, reported) is Some <==> first_present(present, 0) is Some,
        first_present(present, 0) matches Some(i) ==> rank(classified(present, reported)->0) >= rank(
            marker_list()[i].1,
        ),
{
}

/// Whether the self-reported version text is worth reading for the markers
/// `present`: only where the newest marker found marks a shared line.
pub fn needs_version_text(present: &Vec<bool>) -> (r: bool)
    ensures
        r == (first_present(present@, 0) matches Some(i) && shared_marker(marker_list()[i].1)),
{
    let markers = version_markers();
    match first_marker(present, &markers) {
        Some(i) => {
            let v = markers[i].1;
            v == Version::V21_0 || v == Version::V17_0
        },
        None => false,
    }
}

fn first_marker(present: &Vec<bool>, markers: &Vec<(&'static str, Version)>) -> (r: Option<usize>)
    requires
        markers@.len() == marker_list().len(),
        forall|i: int| 0 <= i < markers@.len() ==> (#[trigger] markers@[i]).1 == marker_list()[i].1,
    ensures
        r matches Some(i) ==> first_present(present@, 0) == Some(i as int) && i < markers@.len(),
        r is None ==> first_present(present@, 0) is None,
{
    let mut i: usize = 0;
    while i < markers.len() && i < present.len()
        invariant
            i <= markers@.len() == marker_list().len(),
            first_present(present@, 0) == first_present(present@, i as int),
        decreases markers@.len() - i,
    {
        if present[i] {
            return Some(i);
        }
        i = i + 1;
    }
    None
}

/// Classifies the release line of a library: `present[i]` tells whether the
/// library exports marker `i` of `version_markers`, and `reported` is the
/// line its self-reported version text gives, if it could be read.
pub fn classify_version(present: &Vec<bool>, reported: Option<Version>) -> (r: Option<Version>)
    ensures
        r == classified(present@, reported),
{
    let markers = version_markers();
    match first_marker(present, &markers) {
        None => None,
        Some(i) => {
            let floor = markers[i].1;
            match reported {
                Some(v) => if (floor == Version::V21_0 || floor == Version::V17_0) && v.rank()
                    >= floor.rank() {
                    Some(v)
                } else {
                    Some(floor)
                },
                None => Some(floor),
            }
        },
    }
}

/// How the loaded library's release line is described in messages.
pub open spec fn instance_text(v: Option<Version>) -> Seq<char> {
    match v {
        Some(v) => label_of(v),
        None => "unsupported version"@,
    }
}

/// The message of the fatal error raised where the function `name` is called
/// but the loaded library, of the line `version`, does not export it.
pub open spec fn missing_function_text(name: Seq<char>, version: Option<Version>) -> Seq<char> {
    "\nA `libclang` function was called that is not supported by the loaded `libclang` instance.\n\n    called function = `"@
        + name + "`\n    loaded `libclang` instance = "@ + instance_text(version)
        + "\n\nThe minimum `libclang` requirement for this particular function can be found here:\nhttps://docs.rs/clang-sys/latest/clang_sys/"@
        + name
        + "/index.html\n\nInstructions for installing `libclang` can be found here:\nhttps://rust-lang.github.io/rust-bindgen/requirements.html\n"@
}

/// Writes the message for a call of `name`, which the loaded library does
/// not export.
pub fn missing_function_message(name: &str, version: Option<Version>) -> (r: String)
    ensures
        r@ == missing_function_text(name@, version),
{
    let mut m = "\nA `libclang` function was called that is not supported by the loaded `libclang` instance.\n\n    called function = `".to_owned();
    m.append(name);
    m.append("`\n    loaded `libclang` instance = ");
    match version {
        Some(v) => m.append(v.label()),
        None => m.append("unsupported version"),
    }
    m.append("\n\nThe minimum `libclang` requirement for this particular function can be found here:\nhttps://docs.rs/clang-sys/latest/clang_sys/");
    m.append(name);
    m.append("/index.html\n\nInstructions for installing `libclang` can be found here:\nhttps://rust-lang.github.io/rust-bindgen/requirements.html\n");
    m
}

/// The (name, exported) pairs of a table of function slots.
pub open spec fn slot_views(v: Seq<(String, bool)>) -> Seq<(Seq<char>, bool)> {
    v.map_values(|e: (String, bool)| (e.0@, e.1))
}

/// Whether the slot table `slots` holds the function `name` as exported.
pub open spec fn slot_loaded(slots: Seq<(Seq<char>, bool)>, name: Seq<char>) -> bool {
    exists|i: int| 0 <= i < slots.len() && (#[trigger] slots[i]).0 == name && slots[i].1
}

/// The functions of the catalog, each with whether the opened library
/// exports it; an absent slot means the library's release lacks it.
pub struct FunctionSlots {
    slots: Vec<(String, bool)>,
}

impl View for FunctionSlots {
    type V = Seq<(Seq<char>, bool)>;

    closed spec fn view(&self) -> Seq<(Seq<char>, bool)> {
        slot_views(self.slots@)
    }
}

impl FunctionSlots {
    /// The table filled from symbol lookups: each function name with
    /// whether the lookup found it.
    pub fn load(lookups: Vec<(String, bool)>) -> (r: FunctionSlots)
        ensures
            r@ == slot_views(lookups@),
    {
        FunctionSlots { slots: lookups }
    }

    /// Whether the function `name` is exported by the opened library.
    pub fn is_loaded(&self, name: &str) -> (r: bool)
        ensures
            r == slot_loaded(self@, name@),
    {
        let key = name.to_owned();
        let mut i: usize = 0;
        while i < self.slots.len()
            invariant
                i <= self.slots@.len(),
                key@ == name@,
                forall|k: int| 0 <= k < i ==> !((#[trigger] slot_views(self.slots@)[k]).0 == name@ && slot_views(self.slots@)[k].1),
            decreases self.slots@.len() - i,
        {
            if self.slots[i].1 && self.slots[i].0 == key {
                assert(slot_views(self.slots@)[i as int] == (self.slots@[i as int].0@, true));
                return true;
            }
            assert(slot_views(self.slots@)[i as int] == (self.slots@[i as int].0@, self.slots@[i as int].1));
            i = i + 1;
        }
        false
    }
}

/// Relies on `Arc::clone`: the clone shares the value of the original.
#[verifier::external_body]
fn share<L>(a: &Arc<L>) -> (r: Arc<L>)
    ensures
        r == *a,
{
    Arc::clone(a)
}

/// The value an optional shared handle points to.
pub open spec fn shared_value<L>(o: Option<Arc<L>>) -> Option<L> {
    match o {
        Some(a) => Some(*a),
        None => None,
    }
}

/// The slot of one execution context that holds the loaded library, if any.
pub struct LibraryRegistry<L> {
    slot: Option<Arc<L>>,
}

/// The library held after a load of `library`.
pub open spec fn held_after_load<L>(held: Option<L>, library: L) -> Option<L> {
    Some(library)
}

/// The library held after an unload: none.
pub open spec fn held_after_unload<L>(held: Option<L>) -> Option<L> {
    None
}

/// Whether an unload succeeds: only while a library is held.
pub open spec fn unload_succeeds<L>(held: Option<L>) -> bool {
    held is Some
}

/// The message of a failed unload.
pub open spec fn not_in_use_text() -> Seq<char> {
    "a `libclang` shared library is not in use in the current thread"@
}

/// A load followed by an unload leaves the slot empty, the unload succeeds,
/// and a second unload fails.
pub proof fn lemma_load_unload_round_trip<L>(held: Option<L>, library: L)
    ensures
        held_after_unload(held_after_load(held, library)) is None,
        unload_succeeds(held_after_load(held, library)),
        !unload_succeeds(held_after_unload(held_after_load(held, library))),
{
}

impl<L> LibraryRegistry<L> {
    /// The library held, if any.
    pub closed spec fn held(&self) -> Option<L> {
        shared_value(self.slot)
    }

    /// An empty slot.
    pub fn new() -> (r: LibraryRegistry<L>)
        ensures
            r.held() is None,
    {
        LibraryRegistry { slot: None }
    }

    /// Whether a library is held.
    pub fn is_loaded(&self) -> (r: bool)
        ensures
            r == self.held() is Some,
    {
        self.slot.is_some()
    }

    /// Holds `library` from now on, in place of any library held before.
    pub fn load(&mut self, library: L)
        ensures
            final(self).held() == held_after_load(old(self).held(), library),
    {
        self.slot = Some(Arc::new(library));
    }

    /// Lets go of the library held; fails where none is held.
    pub fn unload(&mut self) -> (r: Result<(), String>)
        ensures
            final(self).held() == held_after_unload(old(self).held()),
            r is Ok <==> unload_succeeds(old(self).held()),
            r matches Err(e) ==> e@ == not_in_use_text(),
    {
        let previous = self.set_library(None);
        if previous.is_some() {
            Ok(())
        } else {
            Err("a `libclang` shared library is not in use in the current thread".to_owned())
        }
    }

    /// A shared handle to the library held, if any, to hand to another
    /// context.
    pub fn get_library(&self) -> (r: Option<Arc<L>>)
        ensures
            r matches Some(a) ==> self.held() == Some(*a),
            r is None <==> self.held() is None,
    {
        match &self.slot {
            Some(a) => Some(share(a)),
            None => None,
        }
    }

    /// Holds the library `library` (or none) and gives back the one held before.
    pub fn set_library(&mut self, library: Option<Arc<L>>) -> (r: Option<Arc<L>>)
        ensures
            final(self).held() == shared_value(library),
            shared_value(r) == old(self).held(),
    {
        let previous = self.slot.take();
        self.slot = library;
        previous
    }
}

} // verus!
