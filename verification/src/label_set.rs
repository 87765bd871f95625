//! [`LabelSet`]: an ordered list of patterns matched directly against
//! explicitly given ids, without any reference-catalog expansion.

use vstd::prelude::*;

use crate::common::spec_chunks;
use crate::label_match::{spec_lm_matches, LabelMatch};
use crate::label_match_set::spec_pattern_views;
use crate::parsed_label::LabelId;

verus! {

/// A plain list of [`LabelMatch`] patterns, in the order given.
#[derive(Debug)]
pub struct LabelSet(pub Vec<LabelMatch>);

impl LabelSet {
    /// The pattern texts held by this list.
    pub open spec fn patterns(&self) -> Seq<Seq<char>> {
        spec_pattern_views(self.0@)
    }

    /// True when some pattern of this list matches the id.
    pub open spec fn spec_matches(&self, id: LabelId) -> bool {
        exists|k: int|
            0 <= k < self.patterns().len() && spec_lm_matches(#[trigger] self.patterns()[k], id)
    }

    /// Whether the given id matches at least one pattern of the list,
    /// together with the indices of the matching patterns (or `None` when
    /// nothing matches).
    pub fn matches(&self, id: &LabelId) -> (r: (bool, Option<Vec<usize>>))
        ensures
            r.0 == self.spec_matches(*id),
            r.1 is Some <==> r.0,
            r.1 matches Some(v) ==> forall|k: int|
                0 <= k < v@.len() ==> (v@[k] < self.patterns().len() && spec_lm_matches(
                    self.patterns()[v@[k] as int],
                    *id,
                )),
    {
        let mut hits: Vec<usize> = Vec::new();
        let mut k: usize = 0;
        while k < self.0.len()
            invariant
                k <= self.0@.len(),
                forall|j: int|
                    0 <= j < hits@.len() ==> (#[trigger] hits@[j] < self.patterns().len()
                        && spec_lm_matches(self.patterns()[hits@[j] as int], *id)),
                hits@.len() > 0 <==> exists|m: int|
                    0 <= m < k && spec_lm_matches(#[trigger] self.patterns()[m], *id),
            decreases self.0@.len() - k,
        {
            proof {
                assert(self.patterns()[k as int] == self.0@[k as int].0@);
            }
            if self.0[k].matches(id) {
                hits.push(k);
            }
            k += 1;
        }
        if hits.len() > 0 {
            (true, Some(hits))
        } else {
            (false, None)
        }
    }

    /// True when at least one of the given ids matches some pattern of the
    /// list.
    pub fn matches_one(&self, ids: &Vec<LabelId>) -> (r: bool)
        ensures
            r == exists|k: int| 0 <= k < ids@.len() && self.spec_matches(#[trigger] ids@[k]),
    {
        let mut k: usize = 0;
        while k < ids.len()
            invariant
                k <= ids@.len(),
                forall|m: int| 0 <= m < k ==> !self.spec_matches(#[trigger] ids@[m]),
            decreases ids@.len() - k,
        {
            let (hit, _) = self.matches(&ids[k]);
            if hit {
                return true;
            }
            k += 1;
        }
        false
    }

    /// True when every one of the given ids matches some pattern of the
    /// list.
    pub fn matches_all(&self, ids: &Vec<LabelId>) -> (r: bool)
        ensures
            r == forall|k: int| 0 <= k < ids@.len() ==> self.spec_matches(#[trigger] ids@[k]),
    {
        let mut k: usize = 0;
        while k < ids.len()
            invariant
                k <= ids@.len(),
                forall|m: int| 0 <= m < k ==> self.spec_matches(#[trigger] ids@[m]),
            decreases ids@.len() - k,
        {
            let (hit, _) = self.matches(&ids[k]);
            if !hit {
                return false;
            }
            k += 1;
        }
        true
    }

    /// The number of patterns in this list.
    pub fn len(&self) -> (r: usize)
        ensures
            r == self.0@.len(),
    {
        self.0.len()
    }

    /// Wraps a vector of patterns as a list.
    pub fn from_vec(label_matches: Vec<LabelMatch>) -> (r: Self)
        ensures
            r.0@ == label_matches@,
    {
        Self(label_matches)
    }

    /// Builds a pattern list from a comma-separated string such as
    /// `A1, B2, C*`: whitespace is dropped, every comma opens a new
    /// pattern, each kept in order.
    pub fn from_str(s: &str) -> (r: Self)
        ensures
            r.patterns() == spec_chunks(s@),
    {
        let n = s.unicode_len();
        let mut out: Vec<LabelMatch> = Vec::new();
        let mut current = String::new();
        let mut i: usize = 0;
        while i < n
            invariant
                i <= n,
                n == s@.len(),
                current@ == crate::common::spec_split_state(s@.take(i as int)).1,
                spec_pattern_views(out@) == crate::common::spec_split_state(s@.take(i as int)).0,
            decreases n - i,
        {
            let c = s.get_char(i);
            let ghost ov0 = spec_pattern_views(out@);
            let ghost cur0 = current@;
            proof {
                assert(s@.take(i + 1).drop_last() =~= s@.take(i as int));
            }
            if c == ',' {
                out.push(LabelMatch(current));
                current = String::new();
                proof {
                    assert(spec_pattern_views(out@) =~= ov0.push(cur0)) by {
                        assert(forall|m: int|
                            0 <= m < ov0.len() ==> spec_pattern_views(out@)[m] == ov0[m]);
                        assert(spec_pattern_views(out@)[ov0.len() as int] == cur0);
                    }
                }
            } else if crate::common::is_ascii_space(c) {
                // dropped
            } else {
                crate::common::string_push(&mut current, c);
            }
            i += 1;
        }
        proof {
            assert(s@.take(n as int) =~= s@);
        }
        let ghost ov0 = spec_pattern_views(out@);
        let ghost cur0 = current@;
        out.push(LabelMatch(current));
        proof {
            assert(spec_pattern_views(out@) =~= ov0.push(cur0)) by {
                assert(forall|m: int|
                    0 <= m < ov0.len() ==> spec_pattern_views(out@)[m] == ov0[m]);
                assert(spec_pattern_views(out@)[ov0.len() as int] == cur0);
            }
        }
        LabelSet(out)
    }
}

impl Default for LabelSet {
    /// The stock two-pattern list `[B1, B2]`.
    fn default() -> (r: Self)
        ensures
            r.patterns() =~= seq!["B1"@, "B2"@],
    {
        let mut v: Vec<LabelMatch> = Vec::new();
        v.push(LabelMatch::from("B1"));
        v.push(LabelMatch::from("B2"));
        let r = LabelSet(v);
        proof {
            assert(r.patterns() =~= seq!["B1"@, "B2"@]);
        }
        r
    }
}

} // verus!
