//! [`LabelIdSet`]: building a set of label ids from a comma-separated string.

use vstd::prelude::*;

use crate::common::spec_chunks;
use crate::parsed_label::{spec_parse_label_id, vec_contains_id, LabelId};

verus! {

/// A convenience builder turning a comma-separated string such as
/// `B1, B2` into a duplicate-free vector of [`LabelId`].
pub struct LabelIdSet;

impl LabelIdSet {
    /// Parses every comma-separated chunk of `s` into a label id, keeping
    /// each id once.  Every chunk must be a valid label string.
    pub fn from_str(s: &str) -> (r: Vec<LabelId>)
        requires
            forall|k: int|
                0 <= k < spec_chunks(s@).len() ==> spec_parse_label_id(
                    #[trigger] spec_chunks(s@)[k],
                ) is Some,
        ensures
            forall|k1: int, k2: int| 0 <= k1 < k2 < r@.len() ==> r@[k1] != r@[k2],
            forall|id: LabelId|
                r@.contains(id) <==> exists|k: int|
                    0 <= k < spec_chunks(s@).len() && spec_parse_label_id(
                        #[trigger] spec_chunks(s@)[k],
                    ) == Some(id),
    {
        let chunks = crate::label_match_set::LabelMatchSet::from_str(s);
        let ghost cs = spec_chunks(s@);
        let mut out: Vec<LabelId> = Vec::new();
        let mut i: usize = 0;
        while i < chunks.0.len()
            invariant
                i <= chunks.0@.len(),
                crate::label_match_set::distinct_seqs(chunks.patterns()),
                forall|p: Seq<char>| chunks.patterns().contains(p) <==> cs.contains(p),
                cs == spec_chunks(s@),
                forall|k: int| 0 <= k < cs.len() ==> spec_parse_label_id(#[trigger] cs[k]) is Some,
                forall|k1: int, k2: int| 0 <= k1 < k2 < out@.len() ==> out@[k1] != out@[k2],
                forall|id: LabelId|
                    out@.contains(id) <==> exists|k: int|
                        0 <= k < i && spec_parse_label_id(#[trigger] chunks.patterns()[k])
                            == Some(id),
            decreases chunks.0@.len() - i,
        {
            proof {
                assert(chunks.patterns()[i as int] == chunks.0@[i as int].0@);
                assert(chunks.patterns().contains(chunks.patterns()[i as int]));
                assert(cs.contains(chunks.patterns()[i as int]));
                let k = choose|k: int| 0 <= k < cs.len() && #[trigger] cs[k] == chunks.patterns()[i as int];
                assert(spec_parse_label_id(cs[k]) is Some);
            }
            let id = LabelId::from(chunks.0[i].0.as_str());
            let ghost out0 = out@;
            if !vec_contains_id(&out, &id) {
                out.push(id);
            }
            proof {
                assert forall|id2: LabelId|
                    out@.contains(id2) <==> exists|k: int|
                        0 <= k < i + 1 && spec_parse_label_id(#[trigger] chunks.patterns()[k])
                            == Some(id2) by {
                    if out@.contains(id2) {
                        if out0.contains(id2) {
                            let k = choose|k: int|
                                0 <= k < i && spec_parse_label_id(
                                    #[trigger] chunks.patterns()[k],
                                ) == Some(id2);
                            assert(spec_parse_label_id(chunks.patterns()[k]) == Some(id2));
                        } else {
                            let w = choose|w: int|
                                0 <= w < out@.len() && #[trigger] out@[w] == id2;
                            assert(id2 == id);
                            assert(spec_parse_label_id(chunks.patterns()[i as int]) == Some(
                                id2,
                            ));
                        }
                    }
                    if exists|k: int|
                        0 <= k < i + 1 && spec_parse_label_id(#[trigger] chunks.patterns()[k])
                            == Some(id2) {
                        let k = choose|k: int|
                            0 <= k < i + 1 && spec_parse_label_id(
                                #[trigger] chunks.patterns()[k],
                            ) == Some(id2);
                        if k < i {
                            assert(out0.contains(id2));
                            let w = choose|w: int|
                                0 <= w < out0.len() && #[trigger] out0[w] == id2;
                            assert(out@[w] == id2);
                        } else {
                            assert(id2 == id);
                            if out0.contains(id2) {
                                let w = choose|w: int|
                                    0 <= w < out0.len() && #[trigger] out0[w] == id2;
                                assert(out@[w] == id2);
                            } else {
                                assert(out@[out0.len() as int] == id2);
                            }
                        }
                    }
                }
            }
            i += 1;
        }
        proof {
            assert forall|id: LabelId|
                out@.contains(id) <==> exists|k: int|
                    0 <= k < cs.len() && spec_parse_label_id(#[trigger] cs[k]) == Some(id) by {
                if out@.contains(id) {
                    let k = choose|k: int|
                        0 <= k < chunks.patterns().len() && spec_parse_label_id(
                            #[trigger] chunks.patterns()[k],
                        ) == Some(id);
                    assert(chunks.patterns().contains(chunks.patterns()[k]));
                    assert(cs.contains(chunks.patterns()[k]));
                    let m = choose|m: int|
                        0 <= m < cs.len() && #[trigger] cs[m] == chunks.patterns()[k];
                    assert(spec_parse_label_id(cs[m]) == Some(id));
                }
                if exists|k: int|
                    0 <= k < cs.len() && spec_parse_label_id(#[trigger] cs[k]) == Some(id) {
                    let k = choose|k: int|
                        0 <= k < cs.len() && spec_parse_label_id(#[trigger] cs[k]) == Some(id);
                    assert(cs.contains(cs[k]));
                    assert(chunks.patterns().contains(cs[k]));
                    let m = choose|m: int|
                        0 <= m < chunks.patterns().len() && #[trigger] chunks.patterns()[m]
                            == cs[k];
                    assert(spec_parse_label_id(chunks.patterns()[m]) == Some(id));
                }
            }
        }
        out
    }
}

} // verus!
