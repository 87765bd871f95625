//! [`LabelMatch`]: a single pattern over label identifiers, either an exact
//! canonical id or a letter wildcard such as `B*`.

use vstd::prelude::*;

use crate::parsed_label::{spec_canonical, spec_digits, vec_contains_id, LabelId};

verus! {

/// A pattern describing one label id or, with a `*`, every id sharing a
/// letter.  The pattern is kept as its source text; a malformed pattern is
/// legal and simply never matches.
#[derive(Debug)]
pub struct LabelMatch(pub String);

/// What a pattern matches: a pattern containing `*` matches exactly the ids
/// whose letter equals the pattern's first character; any other pattern
/// matches exactly the id whose canonical string is the pattern itself.
pub open spec fn spec_lm_matches(pat: Seq<char>, id: LabelId) -> bool {
    if pat.contains('*') {
        pat[0] == id.letter
    } else {
        pat == spec_canonical(id)
    }
}

impl LabelMatch {
    /// Wraps a pattern string.
    pub fn from(s: &str) -> (r: Self)
        ensures
            r.0@ == s@,
    {
        Self(String::from_str(s))
    }

    /// True when this pattern matches the given label id, as
    /// [`spec_lm_matches`] states.
    pub fn matches(&self, id: &LabelId) -> (r: bool)
        ensures
            r == spec_lm_matches(self.0@, *id),
    {
        let p = self.0.as_str();
        let n = p.unicode_len();
        let mut i: usize = 0;
        let mut star = false;
        while i < n
            invariant
                i <= n,
                n == p@.len(),
                star == exists|m: int| 0 <= m < i && p@[m] == '*',
            decreases n - i,
        {
            if p.get_char(i) == '*' {
                star = true;
            }
            i += 1;
        }
        proof {
            assert(star == p@.contains('*'));
        }
        if star {
            if n == 0 {
                proof {
                    assert(!p@.contains('*'));
                }
                false
            } else {
                p.get_char(0) == id.letter
            }
        } else {
            let canonical = id.to_string();
            self.0.eq(&canonical)
        }
    }

    /// True when exactly one of the given label ids matches this pattern.
    pub fn matches_one(&self, ids: &[LabelId]) -> (r: bool)
        ensures
            r == (Set::new(|id: LabelId| ids@.contains(id) && spec_lm_matches(self.0@, id)).len()
                == 1),
    {
        let mut i: usize = 0;
        let ghost matching = Set::new(
            |id: LabelId| ids@.contains(id) && spec_lm_matches(self.0@, id),
        );
        proof {
            lemma_matching_finite(ids@, self.0@);
        }
        let mut hits: Vec<LabelId> = Vec::new();
        while i < ids.len()
            invariant
                i <= ids@.len(),
                matching == Set::new(
                    |id: LabelId| ids@.contains(id) && spec_lm_matches(self.0@, id),
                ),
                matching.finite(),
                forall|k: int| 0 <= k < hits@.len() ==> matching.contains(#[trigger] hits@[k]),
                forall|k1: int, k2: int|
                    0 <= k1 < k2 < hits@.len() ==> hits@[k1] != hits@[k2],
                forall|id: LabelId|
                    matching.contains(id) && ids@.take(i as int).contains(id) ==> hits@.contains(
                        id,
                    ),
                forall|k: int|
                    0 <= k < hits@.len() ==> ids@.take(i as int).contains(#[trigger] hits@[k]),
            decreases ids@.len() - i,
        {
            let id = ids[i];
            let ghost hits0 = hits@;
            if self.matches(&id) {
                if !vec_contains_id(&hits, &id) {
                    hits.push(id);
                }
            }
            proof {
                assert(forall|m: int| 0 <= m < i + 1 ==> ids@.take(i + 1)[m] == ids@[m]);
                assert(forall|m: int| 0 <= m < i ==> ids@.take(i as int)[m] == ids@[m]);
                assert(ids@.contains(ids@[i as int])) by {
                    assert(ids@[i as int] == ids@[i as int]);
                }
                assert forall|id2: LabelId|
                    matching.contains(id2) && ids@.take(i + 1).contains(id2) implies hits@.contains(
                    id2,
                ) by {
                    if hits0.contains(id2) {
                        let w = choose|w: int| 0 <= w < hits0.len() && hits0[w] == id2;
                        assert(hits@[w] == id2);
                    } else {
                        let m = choose|m: int|
                            0 <= m < i + 1 && #[trigger] ids@.take(i + 1)[m] == id2;
                        if m < i {
                            assert(ids@.take(i as int)[m] == id2);
                            assert(ids@.take(i as int).contains(id2));
                            assert(hits0.contains(id2));
                        } else {
                            assert(id2 == ids@[i as int]);
                            assert(spec_lm_matches(self.0@, id2));
                            assert(hits@ == hits0.push(id2));
                            assert(hits@[hits0.len() as int] == id2);
                        }
                    }
                }
                assert forall|k: int|
                    0 <= k < hits@.len() implies ids@.take(i + 1).contains(#[trigger] hits@[k]) by {
                    if k < hits0.len() {
                        assert(ids@.take(i as int).contains(hits0[k]));
                        let m = choose|m: int|
                            0 <= m < i && #[trigger] ids@.take(i as int)[m] == hits0[k];
                        assert(ids@.take(i + 1)[m] == hits@[k]);
                    } else {
                        assert(hits@[k] == ids@[i as int]);
                        assert(ids@.take(i + 1)[i as int] == ids@[i as int]);
                    }
                }
            }
            i += 1;
        }
        proof {
            assert(ids@.take(ids@.len() as int) =~= ids@);
            lemma_distinct_members_card(hits@, matching);
        }
        hits.len() == 1
    }

    /// True when every one of the given label ids matches this pattern.
    pub fn matches_all(&self, ids: &[LabelId]) -> (r: bool)
        ensures
            r == forall|k: int| 0 <= k < ids@.len() ==> spec_lm_matches(self.0@, #[trigger] ids@[k]),
    {
        let mut i: usize = 0;
        while i < ids.len()
            invariant
                i <= ids@.len(),
                forall|k: int| 0 <= k < i ==> spec_lm_matches(self.0@, #[trigger] ids@[k]),
            decreases ids@.len() - i,
        {
            if !self.matches(&ids[i]) {
                return false;
            }
            i += 1;
        }
        true
    }
}

impl PartialEq for LabelMatch {
    /// Pattern equality is equality of the source texts.
    fn eq(&self, other: &Self) -> (r: bool) {
        self.0.eq(&other.0)
    }
}

impl vstd::std_specs::cmp::PartialEqSpecImpl for LabelMatch {
    open spec fn obeys_eq_spec() -> bool {
        true
    }

    open spec fn eq_spec(&self, other: &Self) -> bool {
        self.0@ == other.0@
    }
}

impl Eq for LabelMatch {

}

/// The set of ids drawn from a sequence and matching a pattern is finite:
/// it is a subset of the set of the sequence's elements.
proof fn lemma_matching_finite(ids: Seq<LabelId>, pat: Seq<char>)
    ensures
        Set::new(|id: LabelId| ids.contains(id) && spec_lm_matches(pat, id)).finite(),
        Set::new(|id: LabelId| ids.contains(id) && spec_lm_matches(pat, id)).len() <= ids.len(),
{
    let m = Set::new(|id: LabelId| ids.contains(id) && spec_lm_matches(pat, id));
    broadcast use vstd::seq_lib::seq_to_set_is_finite;

    let s = ids.to_set();
    ids.lemma_cardinality_of_set();
    assert(m.subset_of(s));
    vstd::set_lib::lemma_set_subset_finite(s, m);
    vstd::set_lib::lemma_len_subset(m, s);
}

/// A duplicate-free vector whose members are exactly the members of a set
/// has the set's cardinality as its length.
pub proof fn lemma_distinct_members_card(v: Seq<LabelId>, s: Set<LabelId>)
    requires
        s.finite(),
        forall|k: int| 0 <= k < v.len() ==> s.contains(#[trigger] v[k]),
        forall|k1: int, k2: int| 0 <= k1 < k2 < v.len() ==> v[k1] != v[k2],
        forall|id: LabelId| s.contains(id) ==> v.contains(id),
    ensures
        v.len() == s.len(),
    decreases v.len(),
{
    if v.len() == 0 {
        assert(s =~= Set::<LabelId>::empty());
    } else {
        let last = v.last();
        let v2 = v.drop_last();
        let s2 = s.remove(last);
        assert(forall|k: int| 0 <= k < v2.len() ==> s2.contains(#[trigger] v2[k])) by {
            assert(forall|k: int| 0 <= k < v2.len() ==> v2[k] == v[k]);
            assert(forall|k: int| 0 <= k < v2.len() ==> v[k] != last);
        }
        assert(forall|id: LabelId| s2.contains(id) ==> v2.contains(id)) by {
            assert forall|id: LabelId| s2.contains(id) implies v2.contains(id) by {
                assert(s.contains(id));
                assert(v.contains(id));
                let k = choose|k: int| 0 <= k < v.len() && v[k] == id;
                assert(id != last);
                assert(k < v.len() - 1);
                assert(v2[k] == id);
            }
        }
        lemma_distinct_members_card(v2, s2);
        assert(s.contains(last));
        assert(s.len() == s2.len() + 1);
    }
}

/// An exact pattern built from a label id's canonical string matches that
/// id and no other.
pub proof fn lemma_exact_pattern_unique(id: LabelId, other: LabelId)
    requires
        'A' <= id.letter && id.letter <= 'Z',
    ensures
        spec_lm_matches(spec_canonical(id), other) <==> other == id,
{
    let c = spec_canonical(id);
    crate::parsed_label::lemma_digits_ascii(id.number as int);
    assert(!c.contains('*')) by {
        assert(forall|i: int| 0 <= i < c.len() ==> c[i] != '*');
    }
    if spec_lm_matches(c, other) {
        lemma_canonical_injective(id, other);
    }
}

/// Canonical strings are injective: equal strings mean equal ids.
proof fn lemma_canonical_injective(id: LabelId, other: LabelId)
    requires
        spec_canonical(other) == spec_canonical(id),
    ensures
        other == id,
{
    let d1 = spec_digits(id.number as int);
    let d2 = spec_digits(other.number as int);
    assert(spec_canonical(id)[0] == id.letter);
    assert(spec_canonical(other)[0] == other.letter);
    assert(spec_canonical(id).skip(1) =~= d1);
    assert(spec_canonical(other).skip(1) =~= d2);
    assert(d1 == d2);
    crate::parsed_label::lemma_digits_value_identity(id.number as int);
    crate::parsed_label::lemma_digits_value_identity(other.number as int);
}

} // verus!
