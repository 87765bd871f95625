//! [`LabelMatchSet`]: an unordered, duplicate-free collection of patterns,
//! with the matching predicates and the multi-label combinators.

use vstd::prelude::*;

use crate::common::{lemma_push_contains, spec_chunks, spec_split_state, string_push};
use crate::label_match::{lemma_distinct_members_card, spec_lm_matches, LabelMatch};
use crate::parsed_label::{vec_contains_id, LabelId};
use crate::specs::{spec_catalog_ids, spec_catalog_wf, spec_extra_ids, spec_reference_set, Specs};

verus! {

/// The pattern texts of a sequence of patterns.
pub open spec fn spec_pattern_views(ms: Seq<LabelMatch>) -> Seq<Seq<char>> {
    ms.map_values(|m: LabelMatch| m.0@)
}

/// No two elements of `ps` are the same text.
pub open spec fn distinct_seqs(ps: Seq<Seq<char>>) -> bool {
    forall|k1: int, k2: int| 0 <= k1 < k2 < ps.len() ==> ps[k1] != ps[k2]
}

/// A set of [`LabelMatch`] patterns, such as `B1, X*`.  The collection is
/// kept free of duplicate pattern texts; order carries no meaning.
#[derive(Debug)]
pub struct LabelMatchSet(pub Vec<LabelMatch>);

impl LabelMatchSet {
    /// The pattern texts held by this set.
    pub open spec fn patterns(&self) -> Seq<Seq<char>> {
        spec_pattern_views(self.0@)
    }

    /// True when some pattern of this set matches the id.
    pub open spec fn spec_matches(&self, id: LabelId) -> bool {
        exists|k: int| 0 <= k < self.patterns().len() && spec_lm_matches(#[trigger] self.patterns()[k], id)
    }

    /// Builds a pattern set from a comma-separated list such as `B1, X*`:
    /// whitespace is dropped, every comma opens a new pattern, duplicate
    /// texts are kept once.
    pub fn from_str(s: &str) -> (r: Self)
        ensures
            distinct_seqs(r.patterns()),
            forall|p: Seq<char>| r.patterns().contains(p) <==> spec_chunks(s@).contains(p),
    {
        let n = s.unicode_len();
        let mut out: Vec<LabelMatch> = Vec::new();
        let mut current = String::new();
        let mut i: usize = 0;
        while i < n
            invariant
                i <= n,
                n == s@.len(),
                current@ == spec_split_state(s@.take(i as int)).1,
                distinct_seqs(spec_pattern_views(out@)),
                forall|p: Seq<char>|
                    spec_pattern_views(out@).contains(p) <==> spec_split_state(
                        s@.take(i as int),
                    ).0.contains(p),
            decreases n - i,
        {
            let c = s.get_char(i);
            let ghost cur0 = current@;
            let ghost ov0 = spec_pattern_views(out@);
            proof {
                assert(s@.take(i + 1).drop_last() =~= s@.take(i as int));
            }
            if c == ',' {
                push_unique(&mut out, current);
                current = String::new();
                proof {
                    let st0 = spec_split_state(s@.take(i as int));
                    let st1 = spec_split_state(s@.take(i + 1));
                    assert(st1.0 == st0.0.push(cur0));
                    assert forall|p: Seq<char>|
                        spec_pattern_views(out@).contains(p) <==> st1.0.contains(
                        p,
                    ) by {
                        lemma_push_contains(st0.0, cur0, p);
                    }
                }
            } else if crate::common::is_ascii_space(c) {
                // dropped
            } else {
                string_push(&mut current, c);
            }
            i += 1;
        }
        proof {
            assert(s@.take(n as int) =~= s@);
        }
        let ghost cur0 = current@;
        push_unique(&mut out, current);
        proof {
            let st = spec_split_state(s@);
            assert(spec_chunks(s@) == st.0.push(cur0));
            assert forall|p: Seq<char>|
                spec_pattern_views(out@).contains(p) <==> spec_chunks(s@).contains(
                p,
            ) by {
                lemma_push_contains(st.0, cur0, p);
            }
        }
        LabelMatchSet(out)
    }

    /// Wraps a vector of patterns as a set.
    pub fn from_vec(label_matches: Vec<LabelMatch>) -> (r: Self)
        ensures
            r.0@ == label_matches@,
    {
        Self(label_matches)
    }

    /// The patterns held by this set.
    pub fn iter(&self) -> (r: &Vec<LabelMatch>)
        ensures
            r@ == self.0@,
    {
        &self.0
    }

    /// The number of patterns in this set.
    pub fn len(&self) -> (r: usize)
        ensures
            r == self.0@.len(),
    {
        self.0.len()
    }

    /// The candidate ids that satisfy at least one pattern of this set.
    pub open spec fn spec_matched_set(&self, labels: Seq<LabelId>) -> Set<LabelId> {
        labels.to_set().filter(|id: LabelId| self.spec_matches(id))
    }

    /// True when at least one of the candidate ids satisfies a pattern of
    /// this set.
    pub open spec fn spec_some(&self, labels: Seq<LabelId>) -> bool {
        exists|k: int| 0 <= k < labels.len() && self.spec_matches(#[trigger] labels[k])
    }

    /// True when exactly one candidate id satisfies a pattern of this set:
    /// a strict count, not "at least one".
    pub open spec fn spec_one(&self, labels: Seq<LabelId>) -> bool {
        self.spec_matched_set(labels).len() == 1
    }

    /// True when every id of the reference expansion — every id of the
    /// catalog or of the candidates that satisfies a pattern — is present
    /// among the candidates.  With a wildcard this demands all matching
    /// catalog ids, not merely one.
    pub open spec fn spec_all(&self, labels: Seq<LabelId>, specs: &Specs) -> bool {
        forall|id: LabelId|
            spec_catalog_ids(specs).contains(id) && self.spec_matches(id) ==> labels.contains(id)
    }

    /// True when no candidate id appears in the reference expansion of this
    /// pattern set: the complement of [`Self::matches_some`] over the same
    /// expansion (the catalog-aware reading).
    pub fn matches_none(&self, labels: &Vec<LabelId>, specs: &Specs) -> (r: bool)
        requires
            spec_catalog_wf(specs),
        ensures
            r == !self.spec_some(labels@),
    {
        !self.matches_some(labels, specs)
    }

    /// True when at least one candidate id lies in the reference expansion
    /// of this pattern set; since every candidate belongs to the working
    /// universe, this holds exactly when some candidate satisfies a pattern.
    pub fn matches_some(&self, labels: &Vec<LabelId>, specs: &Specs) -> (r: bool)
        requires
            spec_catalog_wf(specs),
        ensures
            r == self.spec_some(labels@),
    {
        let ref_set = specs.generate_reference_set(self, Some(labels));
        let mut k: usize = 0;
        while k < labels.len()
            invariant
                k <= labels@.len(),
                forall|id: LabelId|
                    ref_set@.contains(id) <==> spec_reference_set(
                        specs,
                        self,
                        spec_extra_ids(Some(labels)),
                    ).contains(id),
                forall|m: int| 0 <= m < k ==> !self.spec_matches(#[trigger] labels@[m]),
            decreases labels@.len() - k,
        {
            if vec_contains_id(&ref_set, &labels[k]) {
                proof {
                    assert(self.spec_matches(labels@[k as int]));
                }
                return true;
            }
            proof {
                assert(labels@.contains(labels@[k as int]));
                assert(labels@.to_set().contains(labels@[k as int]));
                if self.spec_matches(labels@[k as int]) {
                    assert(spec_reference_set(
                        specs,
                        self,
                        spec_extra_ids(Some(labels)),
                    ).contains(labels@[k as int]));
                }
            }
            k += 1;
        }
        false
    }

    /// True when exactly one candidate id lies in the reference expansion
    /// of this pattern set — a strict count of the candidates that satisfy
    /// a pattern.  The candidates must be given without duplicates.
    pub fn matches_one(&self, labels: &Vec<LabelId>, specs: &Specs) -> (r: bool)
        requires
            spec_catalog_wf(specs),
            forall|k1: int, k2: int| 0 <= k1 < k2 < labels@.len() ==> labels@[k1] != labels@[k2],
        ensures
            r == self.spec_one(labels@),
    {
        let ref_set = specs.generate_reference_set(self, Some(labels));
        let ghost matched = self.spec_matched_set(labels@);
        let mut hits: Vec<LabelId> = Vec::new();
        let mut k: usize = 0;
        while k < labels.len()
            invariant
                k <= labels@.len(),
                forall|k1: int, k2: int|
                    0 <= k1 < k2 < labels@.len() ==> labels@[k1] != labels@[k2],
                matched == self.spec_matched_set(labels@),
                forall|id: LabelId|
                    ref_set@.contains(id) <==> spec_reference_set(
                        specs,
                        self,
                        spec_extra_ids(Some(labels)),
                    ).contains(id),
                forall|j: int| 0 <= j < hits@.len() ==> matched.contains(#[trigger] hits@[j]),
                forall|j1: int, j2: int| 0 <= j1 < j2 < hits@.len() ==> hits@[j1] != hits@[j2],
                forall|m: int|
                    0 <= m < k && self.spec_matches(#[trigger] labels@[m]) ==> hits@.contains(
                        labels@[m],
                    ),
                forall|j: int|
                    0 <= j < hits@.len() ==> exists|m: int|
                        0 <= m < k && #[trigger] hits@[j] == labels@[m],
            decreases labels@.len() - k,
        {
            let id = labels[k];
            let ghost hits0 = hits@;
            proof {
                assert(labels@.contains(labels@[k as int]));
                assert(labels@.to_set().contains(labels@[k as int]));
            }
            if vec_contains_id(&ref_set, &id) {
                hits.push(id);
                proof {
                    assert(self.spec_matches(id));
                    assert(matched.contains(id));
                    assert(forall|j: int| 0 <= j < hits0.len() ==> hits@[j] == hits0[j]);
                    assert(hits@[hits0.len() as int] == id);
                    assert forall|j1: int, j2: int|
                        0 <= j1 < j2 < hits@.len() implies hits@[j1] != hits@[j2] by {
                        if j2 == hits0.len() {
                            let m = choose|m: int|
                                0 <= m < k && #[trigger] hits0[j1] == labels@[m];
                            assert(labels@[m] != labels@[k as int]);
                        }
                    }
                }
            } else {
                proof {
                    if self.spec_matches(id) {
                        assert(spec_reference_set(
                            specs,
                            self,
                            spec_extra_ids(Some(labels)),
                        ).contains(id));
                    }
                }
            }
            proof {
                assert forall|m: int|
                    0 <= m < k + 1 && self.spec_matches(#[trigger] labels@[m])
                        implies hits@.contains(labels@[m]) by {
                    if m < k {
                        assert(hits0.contains(labels@[m]));
                        let w = choose|w: int|
                            0 <= w < hits0.len() && hits0[w] == labels@[m];
                        assert(hits@[w] == labels@[m]);
                    } else {
                        assert(hits@[hits0.len() as int] == labels@[m]);
                    }
                }
            }
            k += 1;
        }
        proof {
            broadcast use vstd::seq_lib::seq_to_set_is_finite;

            assert(matched.subset_of(labels@.to_set()));
            vstd::set_lib::lemma_set_subset_finite(labels@.to_set(), matched);
            assert forall|id: LabelId| matched.contains(id) implies hits@.contains(id) by {
                assert(labels@.to_set().contains(id));
                assert(labels@.contains(id));
                let m = choose|m: int| 0 <= m < labels@.len() && labels@[m] == id;
                assert(self.spec_matches(labels@[m]));
            }
            lemma_distinct_members_card(hits@, matched);
        }
        hits.len() == 1
    }

    /// True when every id of the reference expansion of this pattern set is
    /// present among the candidates: with catalog `{X1, X2, X3}` and the
    /// pattern `X*`, all three must be present.
    pub fn matches_all(&self, labels: &Vec<LabelId>, specs: &Specs) -> (r: bool)
        requires
            spec_catalog_wf(specs),
        ensures
            r == self.spec_all(labels@, specs),
    {
        let ref_set = specs.generate_reference_set(self, Some(labels));
        let mut k: usize = 0;
        while k < ref_set.len()
            invariant
                k <= ref_set@.len(),
                forall|id: LabelId|
                    ref_set@.contains(id) <==> spec_reference_set(
                        specs,
                        self,
                        spec_extra_ids(Some(labels)),
                    ).contains(id),
                forall|m: int| 0 <= m < k ==> labels@.contains(#[trigger] ref_set@[m]),
            decreases ref_set@.len() - k,
        {
            if !vec_contains_id(labels, &ref_set[k]) {
                proof {
                    assert(ref_set@.contains(ref_set@[k as int]));
                    assert(spec_catalog_ids(specs).contains(ref_set@[k as int])
                        || labels@.to_set().contains(ref_set@[k as int]));
                }
                return false;
            }
            k += 1;
        }
        proof {
            assert forall|id: LabelId|
                spec_catalog_ids(specs).contains(id) && self.spec_matches(id)
                    implies labels@.contains(id) by {
                assert(spec_reference_set(
                    specs,
                    self,
                    spec_extra_ids(Some(labels)),
                ).contains(id));
                assert(ref_set@.contains(id));
                let m = choose|m: int| 0 <= m < ref_set@.len() && ref_set@[m] == id;
            }
        }
        true
    }

    /// Whether the given id matches at least one pattern of the set,
    /// together with the indices of the matching patterns (or `None` when
    /// nothing matches).
    pub fn matches_label(&self, id: &LabelId) -> (r: (bool, Option<Vec<usize>>))
        ensures
            r.0 == self.spec_matches(*id),
            r.1 is Some <==> r.0,
            r.1 matches Some(v) ==> forall|k: int|
                0 <= k < v@.len() ==> (v@[k] < self.patterns().len() && spec_lm_matches(
                    self.patterns()[v@[k] as int],
                    *id,
                )),
            r.1 matches Some(v) ==> forall|m: int|
                0 <= m < self.patterns().len() && spec_lm_matches(
                    #[trigger] self.patterns()[m],
                    *id,
                ) ==> v@.contains(m as usize),
    {
        let mut hits: Vec<usize> = Vec::new();
        let mut k: usize = 0;
        while k < self.0.len()
            invariant
                k <= self.0@.len(),
                forall|j: int|
                    0 <= j < hits@.len() ==> (#[trigger] hits@[j] < self.patterns().len()
                        && spec_lm_matches(self.patterns()[hits@[j] as int], *id)),
                forall|m: int|
                    0 <= m < k && spec_lm_matches(#[trigger] self.patterns()[m], *id)
                        ==> hits@.contains(m as usize),
            decreases self.0@.len() - k,
        {
            if self.0[k].matches(id) {
                let ghost hits0 = hits@;
                hits.push(k);
                proof {
                    assert(forall|j: int| 0 <= j < hits0.len() ==> hits@[j] == hits0[j]);
                    assert(hits@[hits0.len() as int] == k);
                    assert forall|m: int|
                        0 <= m < k + 1 && spec_lm_matches(
                            #[trigger] self.patterns()[m],
                            *id,
                        ) implies hits@.contains(m as usize) by {
                        if m < k {
                            assert(hits0.contains(m as usize));
                            let w = choose|w: int|
                                0 <= w < hits0.len() && hits0[w] == m as usize;
                            assert(hits@[w] == m as usize);
                        } else {
                            assert(hits@[hits0.len() as int] == m as usize);
                        }
                    }
                }
            }
            k += 1;
        }
        let status = hits.len() > 0;
        proof {
            if status {
                assert(hits@[0] < self.patterns().len() && spec_lm_matches(
                    self.patterns()[hits@[0] as int],
                    *id,
                ));
            }
            if self.spec_matches(*id) {
                let m = choose|m: int|
                    0 <= m < self.patterns().len() && spec_lm_matches(
                        #[trigger] self.patterns()[m],
                        *id,
                    );
                assert(hits@.contains(m as usize));
            }
        }
        if status {
            (true, Some(hits))
        } else {
            (false, None)
        }
    }
}

/// Appends a pattern unless its text is already present, keeping the
/// collection free of duplicate texts.
fn push_unique(out: &mut Vec<LabelMatch>, chunk: String)
    requires
        distinct_seqs(spec_pattern_views(old(out)@)),
    ensures
        distinct_seqs(spec_pattern_views(final(out)@)),
        forall|p: Seq<char>|
            #[trigger] spec_pattern_views(final(out)@).contains(p) <==> (spec_pattern_views(
                old(out)@,
            ).contains(p) || p == chunk@),
{
    let ghost ov0 = spec_pattern_views(out@);
    let ghost cv = chunk@;
    if !vec_contains_pattern(out, &chunk) {
        out.push(LabelMatch(chunk));
        proof {
            let ov = spec_pattern_views(out@);
            assert(ov =~= ov0.push(cv)) by {
                assert(forall|k: int| 0 <= k < ov0.len() ==> ov[k] == ov0[k]);
                assert(ov[ov0.len() as int] == cv);
            }
            assert forall|p: Seq<char>| ov.contains(p) <==> (ov0.contains(p) || p == cv) by {
                lemma_push_contains(ov0, cv, p);
            }
            assert forall|k1: int, k2: int|
                0 <= k1 < k2 < ov.len() implies ov[k1] != ov[k2] by {
                if k2 == ov0.len() {
                    assert(ov[k1] == ov0[k1]);
                    assert(ov0.contains(ov0[k1]));
                } else {
                    assert(ov[k1] == ov0[k1] && ov[k2] == ov0[k2]);
                }
            }
            assert(distinct_seqs(ov));
        }
    } else {
        proof {
            let ov = spec_pattern_views(out@);
            assert(forall|p: Seq<char>| ov.contains(p) ==> (ov0.contains(p) || p == cv));
        }
    }
}

/// A single letter wildcard under the all-of combinator demands exactly
/// the catalog ids carrying that letter, whatever else the catalog holds:
/// `all_of X*` holds of a candidate set exactly when every catalog id with
/// letter `X` is present, independent of ids with other letters.
pub proof fn lemma_wildcard_all(
    specs: &Specs,
    set: &LabelMatchSet,
    labels: Seq<LabelId>,
    letter: char,
)
    requires
        set.patterns().len() == 1,
        set.patterns()[0].contains('*'),
        set.patterns()[0][0] == letter,
    ensures
        set.spec_all(labels, specs) <==> (forall|id: LabelId|
            spec_catalog_ids(specs).contains(id) && id.letter == letter ==> labels.contains(id)),
{
    assert forall|id: LabelId| set.spec_matches(id) <==> id.letter == letter by {
        if id.letter == letter {
            assert(spec_lm_matches(set.patterns()[0], id));
        }
    }
}

impl Default for LabelMatchSet {
    /// The stock two-pattern set `{B1, B2}`.
    fn default() -> (r: Self)
        ensures
            r.patterns() =~= seq!["B1"@, "B2"@],
    {
        let mut v: Vec<LabelMatch> = Vec::new();
        v.push(LabelMatch::from("B1"));
        v.push(LabelMatch::from("B2"));
        let r = LabelMatchSet(v);
        proof {
            assert(r.patterns() =~= seq!["B1"@, "B2"@]);
        }
        r
    }
}

/// The combinators read the candidates as a set: two presentations of the
/// same set of ids satisfy the same combinators.
pub proof fn lemma_combinators_depend_on_set(
    set: &LabelMatchSet,
    l1: Seq<LabelId>,
    l2: Seq<LabelId>,
    specs: &Specs,
)
    requires
        l1.to_set() == l2.to_set(),
    ensures
        set.spec_some(l1) == set.spec_some(l2),
        set.spec_one(l1) == set.spec_one(l2),
        set.spec_all(l1, specs) == set.spec_all(l2, specs),
{
    assert(set.spec_some(l1) == set.spec_some(l2)) by {
        if set.spec_some(l1) {
            let k = choose|k: int| 0 <= k < l1.len() && set.spec_matches(#[trigger] l1[k]);
            assert(l1.to_set().contains(l1[k]));
            assert(l2.contains(l1[k]));
            let m = choose|m: int| 0 <= m < l2.len() && l2[m] == l1[k];
        }
        if set.spec_some(l2) {
            let k = choose|k: int| 0 <= k < l2.len() && set.spec_matches(#[trigger] l2[k]);
            assert(l2.to_set().contains(l2[k]));
            assert(l1.contains(l2[k]));
            let m = choose|m: int| 0 <= m < l1.len() && l1[m] == l2[k];
        }
    }
    assert(set.spec_matched_set(l1) == set.spec_matched_set(l2));
    assert(set.spec_all(l1, specs) == set.spec_all(l2, specs)) by {
        assert forall|id: LabelId| #[trigger] l1.contains(id) == l2.contains(id) by {
            if l1.contains(id) {
                assert(l1.to_set().contains(id));
                assert(l2.to_set().contains(id));
            }
            if l2.contains(id) {
                assert(l2.to_set().contains(id));
                assert(l1.to_set().contains(id));
            }
        }
    }
}

/// Linear search for a pattern text in a vector of patterns.
pub(crate) fn vec_contains_pattern(v: &Vec<LabelMatch>, p: &String) -> (r: bool)
    ensures
        r == spec_pattern_views(v@).contains(p@),
{
    let ghost pv = spec_pattern_views(v@);
    let mut k: usize = 0;
    while k < v.len()
        invariant
            k <= v@.len(),
            pv == spec_pattern_views(v@),
            forall|m: int| 0 <= m < k ==> pv[m] != p@,
        decreases v@.len() - k,
    {
        if v[k].0.eq(p) {
            proof {
                assert(pv[k as int] == p@);
            }
            return true;
        }
        k += 1;
    }
    proof {
        if pv.contains(p@) {
            let m = choose|m: int| 0 <= m < pv.len() && pv[m] == p@;
        }
    }
    false
}

} // verus!
