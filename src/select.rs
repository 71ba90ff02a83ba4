//! Choosing one installation among the candidates that a search found.
use vstd::prelude::*;

verus! {

/// A file found by a search, with the version key of its path.
pub struct Candidate {
    pub path: String,
    pub version: Vec<u32>,
}

/// Lexicographic order on version keys, as `Vec<u32>` orders them: a proper
/// prefix comes first.
pub open spec fn key_lt(a: Seq<u32>, b: Seq<u32>) -> bool
    decreases a.len(),
{
    if a.len() == 0 {
        b.len() > 0
    } else if b.len() == 0 {
        false
    } else if a[0] != b[0] {
        a[0] < b[0]
    } else {
        key_lt(a.drop_first(), b.drop_first())
    }
}

/// No key is below itself, and of two keys at most one is below the other.
pub proof fn lemma_key_lt_asymmetric(a: Seq<u32>, b: Seq<u32>)
    ensures
        !(key_lt(a, b) && key_lt(b, a)),
        !key_lt(a, a),
    decreases a.len(),
{
    if a.len() > 0 && b.len() > 0 && a[0] == b[0] {
        lemma_key_lt_asymmetric(a.drop_first(), b.drop_first());
    }
    if a.len() > 0 {
        lemma_key_lt_asymmetric(a.drop_first(), a.drop_first());
    }
}

/// Of two different keys one is below the other.
pub proof fn lemma_key_lt_total(a: Seq<u32>, b: Seq<u32>)
    requires
        a != b,
    ensures
        key_lt(a, b) || key_lt(b, a),
    decreases a.len(),
{
    if a.len() == 0 && b.len() == 0 {
        assert(a =~= b);
    } else if a.len() > 0 && b.len() > 0 && a[0] == b[0] {
        if a.drop_first() =~= b.drop_first() {
            assert(a =~= seq![a[0]] + a.drop_first());
            assert(b =~= seq![b[0]] + b.drop_first());
            assert(a == b);
        } else {
            lemma_key_lt_total(a.drop_first(), b.drop_first());
        }
    }
}

/// The order on keys is transitive.
pub proof fn lemma_key_lt_transitive(a: Seq<u32>, b: Seq<u32>, c: Seq<u32>)
    requires
        key_lt(a, b),
        key_lt(b, c),
    ensures
        key_lt(a, c),
    decreases a.len(),
{
    if a.len() > 0 && b.len() > 0 && c.len() > 0 && a[0] == b[0] && b[0] == c[0] {
        lemma_key_lt_transitive(a.drop_first(), b.drop_first(), c.drop_first());
    }
}

/// The leading component of a key, if it has one.
pub open spec fn leading(k: Seq<u32>) -> Option<u32> {
    if k.len() > 0 {
        Some(k[0])
    } else {
        None
    }
}

/// Candidate `i` has the highest key, and is the first candidate with it.
pub open spec fn is_highest(cands: Seq<Candidate>, i: int) -> bool {
    &&& 0 <= i < cands.len()
    &&& forall|j: int| 0 <= j < cands.len() ==> !key_lt(cands[i].version@, #[trigger] cands[j].version@)
    &&& forall|j: int| 0 <= j < i ==> key_lt(#[trigger] cands[j].version@, cands[i].version@)
}

/// Candidate `i` is the first whose key leads with `target`.
pub open spec fn is_first_match(cands: Seq<Candidate>, target: u32, i: int) -> bool {
    &&& 0 <= i < cands.len()
    &&& leading(cands[i].version@) == Some(target)
    &&& forall|j: int| 0 <= j < i ==> leading(#[trigger] cands[j].version@) != Some(target)
}

/// Whether some candidate's key leads with `target`.
pub open spec fn has_match(cands: Seq<Candidate>, target: u32) -> bool {
    exists|j: int| 0 <= j < cands.len() && leading(#[trigger] cands[j].version@) == Some(target)
}

/// The leading components of the candidates' keys, in order of discovery.
pub open spec fn available_leading(cands: Seq<Candidate>) -> Seq<u32>
    decreases cands.len(),
{
    if cands.len() == 0 {
        Seq::empty()
    } else {
        let prev = available_leading(cands.drop_last());
        match leading(cands.last().version@) {
            Some(v) => prev.push(v),
            None => prev,
        }
    }
}

/// Why no candidate was chosen.
pub enum SelectError {
    /// The search found nothing.
    NoCandidates,
    /// Candidates exist, but none has the required major version; `available`
    /// lists their leading versions in order of discovery.
    VersionMismatch { target: u32, available: Vec<u32> },
}

/// Whether key `a` is below key `b`.
pub fn key_less(a: &Vec<u32>, b: &Vec<u32>) -> (r: bool)
    ensures
        r == key_lt(a@, b@),
{
    let mut i: usize = 0;
    assert(a@.skip(0) =~= a@);
    assert(b@.skip(0) =~= b@);
    while i < a.len() && i < b.len() && a[i] == b[i]
        invariant
            i <= a@.len(),
            i <= b@.len(),
            key_lt(a@, b@) == key_lt(a@.skip(i as int), b@.skip(i as int)),
        decreases a@.len() - i,
    {
        assert(a@.skip(i as int).drop_first() =~= a@.skip(i + 1));
        assert(b@.skip(i as int).drop_first() =~= b@.skip(i + 1));
        i = i + 1;
    }
    if i == a.len() {
        i < b.len()
    } else if i == b.len() {
        false
    } else {
        a[i] < b[i]
    }
}

/// Index of the candidate with the highest key, the first of them on a tie.
fn highest(cands: &Vec<Candidate>) -> (r: usize)
    requires
        cands@.len() > 0,
    ensures
        is_highest(cands@, r as int),
{
    let mut best: usize = 0;
    let mut k: usize = 1;
    proof {
        lemma_key_lt_asymmetric(cands@[0].version@, cands@[0].version@);
    }
    while k < cands.len()
        invariant
            0 <= best < k <= cands@.len(),
            forall|j: int| 0 <= j < k ==> !key_lt(cands@[best as int].version@, #[trigger] cands@[j].version@),
            forall|j: int| 0 <= j < best ==> key_lt(#[trigger] cands@[j].version@, cands@[best as int].version@),
        decreases cands@.len() - k,
    {
        if key_less(&cands[best].version, &cands[k].version) {
            let ghost old_best = best as int;
            assert forall|j: int| 0 <= j < k + 1 implies !key_lt(cands@[k as int].version@, #[trigger] cands@[j].version@) by {
                let (a, b, c) = (cands@[j].version@, cands@[old_best].version@, cands@[k as int].version@);
                if j < k {
                    if key_lt(c, a) {
                        lemma_key_lt_transitive(b, c, a);
                    }
                } else {
                    lemma_key_lt_asymmetric(c, c);
                }
            }
            assert forall|j: int| 0 <= j < k implies key_lt(#[trigger] cands@[j].version@, cands@[k as int].version@) by {
                let (a, b, c) = (cands@[j].version@, cands@[old_best].version@, cands@[k as int].version@);
                if a == b {
                } else {
                    lemma_key_lt_total(a, b);
                    lemma_key_lt_transitive(a, b, c);
                }
            }
            best = k;
        }
        k = k + 1;
    }
    best
}

/// Chooses a candidate. With a target major version, the first candidate (in
/// order of discovery) whose key leads with it, and never another; without
/// one, the candidate with the highest key, the earliest on a tie.
pub fn select_candidate(cands: &Vec<Candidate>, target: Option<u32>) -> (r: Result<usize, SelectError>)
    ensures
        cands@.len() == 0 ==> r matches Err(SelectError::NoCandidates),
        cands@.len() > 0 ==> match target {
            None => r matches Ok(i) && is_highest(cands@, i as int),
            Some(t) => if has_match(cands@, t) {
                r matches Ok(i) && is_first_match(cands@, t, i as int)
            } else {
                r matches Err(SelectError::VersionMismatch { target: tt, available })
                    && tt == t && available@ == available_leading(cands@)
            },
        },
{
    if cands.len() == 0 {
        return Err(SelectError::NoCandidates);
    }
    match target {
        None => Ok(highest(cands)),
        Some(t) => {
            let mut available: Vec<u32> = Vec::new();
            let mut i: usize = 0;
            assert(cands@.take(0) =~= Seq::<Candidate>::empty());
            while i < cands.len()
                invariant
                    i <= cands@.len(),
                    target == Some(t),
                    available@ == available_leading(cands@.take(i as int)),
                    forall|j: int| 0 <= j < i ==> leading(#[trigger] cands@[j].version@) != Some(t),
                decreases cands@.len() - i,
            {
                assert(cands@.take(i + 1).drop_last() =~= cands@.take(i as int));
                assert(cands@.take(i + 1).last() == cands@[i as int]);
                if cands[i].version.len() > 0 {
                    let v = cands[i].version[0];
                    if v == t {
                        assert(leading(cands@[i as int].version@) == Some(t));
                        assert(has_match(cands@, t));
                        return Ok(i);
                    }
                    available.push(v);
                }
                i = i + 1;
            }
            assert(cands@.take(i as int) =~= cands@);
            Err(SelectError::VersionMismatch { target: t, available })
        },
    }
}

/// Whether no two candidates share a key.
pub open spec fn distinct_keys(cands: Seq<Candidate>) -> bool {
    forall|j: int, k: int|
        0 <= j < cands.len() && 0 <= k < cands.len() && j != k ==> #[trigger] cands[j].version@
            != #[trigger] cands[k].version@
}

/// Candidate `i` is the one `select_candidate` chooses for `target`.
pub open spec fn selected(cands: Seq<Candidate>, target: Option<u32>, i: int) -> bool {
    match target {
        None => is_highest(cands, i),
        Some(t) => is_first_match(cands, t, i),
    }
}

/// Among candidates with distinct keys, the choice without a target has a
/// key above that of every other candidate, and the choice with a target
/// leads with that target.
pub proof fn lemma_selection_picks_maximum_or_match(cands: Seq<Candidate>, target: Option<u32>, i: int)
    requires
        distinct_keys(cands),
        selected(cands, target, i),
    ensures
        target is None ==> forall|j: int|
            0 <= j < cands.len() && j != i ==> key_lt(#[trigger] cands[j].version@, cands[i].version@),
        target matches Some(t) ==> leading(cands[i].version@) == Some(t),
{
    if target is None {
        assert forall|j: int| 0 <= j < cands.len() && j != i implies key_lt(
            #[trigger] cands[j].version@,
            cands[i].version@,
        ) by {
            assert(cands[j].version@ != cands[i].version@);
            lemma_key_lt_total(cands[j].version@, cands[i].version@);
        }
    }
}

/// The choice is unique: no two candidates both meet what `select_candidate`
/// promises of its result.
pub proof fn lemma_selection_unique(cands: Seq<Candidate>, target: Option<u32>, i: int, k: int)
    requires
        selected(cands, target, i),
        selected(cands, target, k),
    ensures
        i == k,
{
    if i < k {
        if target is None {
            assert(key_lt(cands[i].version@, cands[k].version@));
        }
    } else if k < i {
        if target is None {
            assert(key_lt(cands[k].version@, cands[i].version@));
        }
    }
}

} // verus!
