//! [`Specs`]: the reference catalog and the rule list, with reference-set
//! expansion, the rule-set evaluator and fault localization.

use vstd::prelude::*;

use crate::label_match_set::LabelMatchSet;
use crate::parsed_label::{spec_parse_label_id, vec_contains_id, LabelId};
use crate::rule::{spec_check, Rule};

verus! {

/// A catalog entry, as declared by the user: only `name` carries a label
/// identifier.
#[derive(Debug)]
pub struct Label {
    pub name: String,
    pub description: String,
    pub color: String,
}

/// The loaded specification: meta information, the label catalog and the
/// rules.  Loaded once and read-only afterwards.
#[derive(Debug)]
pub struct Specs {
    pub name: String,
    pub description: String,
    pub version: String,
    pub labels: Vec<Label>,
    pub rules: Vec<Rule>,
}

/// Every catalog entry's name parses into a label identifier.
pub open spec fn spec_catalog_wf(specs: &Specs) -> bool {
    forall|j: int|
        0 <= j < specs.labels@.len() ==> spec_parse_label_id(
            #[trigger] specs.labels@[j].name@,
        ) is Some
}

/// `id` is declared by one of the first `i` catalog entries.
pub open spec fn spec_declared_upto(specs: &Specs, i: int, id: LabelId) -> bool {
    exists|j: int|
        0 <= j < i && spec_parse_label_id(#[trigger] specs.labels@[j].name@) == Some(id)
}

/// Taking one more catalog entry into account declares exactly the id that
/// the entry's name parses to, beyond those already declared.
proof fn lemma_declared_upto_step(specs: &Specs, i: int, id: LabelId)
    requires
        0 <= i < specs.labels@.len(),
    ensures
        spec_declared_upto(specs, i + 1, id) <==> (spec_declared_upto(specs, i, id)
            || spec_parse_label_id(specs.labels@[i].name@) == Some(id)),
{
    if spec_declared_upto(specs, i + 1, id) {
        let j = choose|j: int|
            0 <= j < i + 1 && spec_parse_label_id(#[trigger] specs.labels@[j].name@) == Some(id);
        if j < i {
            assert(spec_declared_upto(specs, i, id));
        }
    }
    if spec_declared_upto(specs, i, id) {
        let j = choose|j: int|
            0 <= j < i && spec_parse_label_id(#[trigger] specs.labels@[j].name@) == Some(id);
        assert(0 <= j < i + 1 && spec_parse_label_id(specs.labels@[j].name@) == Some(id));
    }
}

/// The identifiers declared by the catalog.
pub open spec fn spec_catalog_ids(specs: &Specs) -> Set<LabelId> {
    Set::new(|id: LabelId| spec_declared_upto(specs, specs.labels@.len() as int, id))
}

/// The reference set of a pattern set: the identifiers of the working
/// universe (catalog plus the extra ids) that satisfy at least one pattern.
pub open spec fn spec_reference_set(
    specs: &Specs,
    set: &LabelMatchSet,
    extra: Set<LabelId>,
) -> Set<LabelId> {
    Set::new(
        |id: LabelId|
            (spec_catalog_ids(specs).contains(id) || extra.contains(id)) && set.spec_matches(id),
    )
}

/// The extra ids handed to an expansion, as a set.
pub open spec fn spec_extra_ids(extra: Option<&Vec<LabelId>>) -> Set<LabelId> {
    match extra {
        Some(ids) => ids@.to_set(),
        None => Set::<LabelId>::empty(),
    }
}

/// The aggregate of a result vector: pass exactly when no entry failed;
/// skipped entries do not count against it, and a vector of skips only
/// aggregates to pass.
pub open spec fn spec_aggregate(res: Seq<Option<bool>>) -> bool {
    forall|i: int| 0 <= i < res.len() ==> res[i] != Some(false)
}

/// The indices of the failing entries of a result vector, in order.
pub open spec fn spec_faulty_indices(res: Seq<Option<bool>>) -> Seq<int>
    decreases res.len(),
{
    if res.len() == 0 {
        Seq::<int>::empty()
    } else if res.last() == Some(false) {
        spec_faulty_indices(res.drop_last()).push(res.len() - 1)
    } else {
        spec_faulty_indices(res.drop_last())
    }
}

/// The result vector of evaluating a sequence of rules in order: one entry
/// per evaluated rule; a disabled rule is evaluated only when `run_skipped`
/// is set, and is left out of the vector otherwise.
pub open spec fn spec_run_checks(
    rules: Seq<Rule>,
    labels: Seq<LabelId>,
    specs: &Specs,
    run_skipped: bool,
) -> Seq<Option<bool>>
    decreases rules.len(),
{
    if rules.len() == 0 {
        Seq::<Option<bool>>::empty()
    } else {
        let rest = spec_run_checks(rules.drop_last(), labels, specs, run_skipped);
        if !rules.last().disabled || run_skipped {
            rest.push(spec_check(rules.last(), labels, specs))
        } else {
            rest
        }
    }
}

/// When every rule is evaluated, the result vector has exactly one entry
/// per rule, in rule order — the invariant fault localization relies on.
pub proof fn lemma_run_checks_parallel(
    rules: Seq<Rule>,
    labels: Seq<LabelId>,
    specs: &Specs,
)
    ensures
        spec_run_checks(rules, labels, specs, true).len() == rules.len(),
        forall|i: int|
            0 <= i < rules.len() ==> spec_run_checks(rules, labels, specs, true)[i]
                == spec_check(#[trigger] rules[i], labels, specs),
    decreases rules.len(),
{
    if rules.len() > 0 {
        lemma_run_checks_parallel(rules.drop_last(), labels, specs);
        assert(forall|i: int|
            0 <= i < rules.len() - 1 ==> rules.drop_last()[i] == #[trigger] rules[i]);
    }
}

/// The rule-set evaluator reads the candidates as a set: two presentations
/// of the same set of ids yield the same result vector.
pub proof fn lemma_run_checks_depends_on_set(
    rules: Seq<Rule>,
    l1: Seq<LabelId>,
    l2: Seq<LabelId>,
    specs: &Specs,
    run_skipped: bool,
)
    requires
        l1.to_set() == l2.to_set(),
    ensures
        spec_run_checks(rules, l1, specs, run_skipped) == spec_run_checks(
            rules,
            l2,
            specs,
            run_skipped,
        ),
    decreases rules.len(),
{
    if rules.len() > 0 {
        lemma_run_checks_depends_on_set(rules.drop_last(), l1, l2, specs, run_skipped);
        crate::rule::lemma_check_depends_on_set(rules.last(), l1, l2, specs);
    }
}

/// A result vector of skips only aggregates to pass: the conjunction over
/// no entries is vacuously true.
pub proof fn lemma_aggregate_all_skip(res: Seq<Option<bool>>)
    requires
        forall|i: int| 0 <= i < res.len() ==> res[i] is None,
    ensures
        spec_aggregate(res),
{
}

/// Folds a result vector into the check-level aggregate: the conjunction
/// over all non-skipped entries, vacuously true when every entry is a skip.
pub fn aggregate_results(res: &Vec<Option<bool>>) -> (r: bool)
    ensures
        r == spec_aggregate(res@),
{
    let mut i: usize = 0;
    while i < res.len()
        invariant
            i <= res@.len(),
            forall|m: int| 0 <= m < i ==> res@[m] != Some(false),
        decreases res@.len() - i,
    {
        match res[i] {
            Some(v) => {
                if !v {
                    return false;
                }
            },
            None => {},
        }
        i += 1;
    }
    true
}

impl Specs {
    /// Expands a pattern set against the working universe — the catalog's
    /// identifiers together with the `extra` ids — and keeps the
    /// identifiers satisfying at least one pattern, each once.
    pub fn generate_reference_set(
        &self,
        set: &LabelMatchSet,
        extra: Option<&Vec<LabelId>>,
    ) -> (r: Vec<LabelId>)
        requires
            spec_catalog_wf(self),
        ensures
            forall|k1: int, k2: int| 0 <= k1 < k2 < r@.len() ==> r@[k1] != r@[k2],
            forall|id: LabelId|
                r@.contains(id) <==> spec_reference_set(self, set, spec_extra_ids(extra)).contains(
                    id,
                ),
    {
        let mut out: Vec<LabelId> = Vec::new();
        let mut i: usize = 0;
        while i < self.labels.len()
            invariant
                i <= self.labels@.len(),
                spec_catalog_wf(self),
                forall|k1: int, k2: int| 0 <= k1 < k2 < out@.len() ==> out@[k1] != out@[k2],
                forall|id: LabelId|
                    #[trigger] out@.contains(id) <==> spec_declared_upto(self, i as int, id)
                        && set.spec_matches(id),
            decreases self.labels@.len() - i,
        {
            let id = LabelId::from(self.labels[i].name.as_str());
            let ghost out0 = out@;
            let (hit, _) = set.matches_label(&id);
            let mut pushed = false;
            if hit {
                if !vec_contains_id(&out, &id) {
                    out.push(id);
                    pushed = true;
                }
            }
            proof {
                if pushed {
                    assert(out@ == out0.push(id));
                }
                assert forall|id2: LabelId|
                    #[trigger] out@.contains(id2) <==> spec_declared_upto(self, i + 1, id2)
                        && set.spec_matches(id2) by {
                    if pushed {
                        crate::common::lemma_push_contains(out0, id, id2);
                    }
                    lemma_declared_upto_step(self, i as int, id2);
                    assert(out0.contains(id2) <==> spec_declared_upto(self, i as int, id2)
                        && set.spec_matches(id2));
                    assert(spec_parse_label_id(self.labels@[i as int].name@) == Some(id));
                }
            }
            i += 1;
        }
        proof {
            assert forall|id: LabelId|
                #[trigger] out@.contains(id) <==> (spec_catalog_ids(self).contains(id)
                    && set.spec_matches(id)) by {
                assert(spec_catalog_ids(self).contains(id) == spec_declared_upto(
                    self,
                    self.labels@.len() as int,
                    id,
                ));
            }
        }
        if let Some(ids) = extra {
            let mut m: usize = 0;
            while m < ids.len()
                invariant
                    m <= ids@.len(),
                    forall|k1: int, k2: int| 0 <= k1 < k2 < out@.len() ==> out@[k1] != out@[k2],
                    forall|id: LabelId|
                        #[trigger] out@.contains(id) <==> (spec_catalog_ids(self).contains(id)
                            || ids@.take(m as int).contains(id)) && set.spec_matches(id),
                decreases ids@.len() - m,
            {
                proof {
                    assert(ids@.take(m as int).len() == m);
                }
                let id = ids[m];
                let ghost out0 = out@;
                let (hit, _) = set.matches_label(&id);
                let mut pushed = false;
                if hit {
                    if !vec_contains_id(&out, &id) {
                        out.push(id);
                        pushed = true;
                    }
                }
                proof {
                    if pushed {
                        assert(out@ == out0.push(id));
                    }
                    assert(ids@.take(m + 1) =~= ids@.take(m as int).push(ids@[m as int]));
                    assert forall|id2: LabelId|
                        #[trigger] out@.contains(id2) <==> (spec_catalog_ids(self).contains(id2)
                            || ids@.take(m + 1).contains(id2)) && set.spec_matches(id2) by {
                        if pushed {
                            crate::common::lemma_push_contains(out0, id, id2);
                        }
                        crate::common::lemma_push_contains(
                            ids@.take(m as int),
                            ids@[m as int],
                            id2,
                        );
                        assert(out0.contains(id2) <==> (spec_catalog_ids(self).contains(id2)
                            || ids@.take(m as int).contains(id2)) && set.spec_matches(id2));
                        assert(ids@.take(m + 1).contains(id2) <==> (ids@.take(
                            m as int,
                        ).contains(id2) || id2 == id));
                    }
                }
                m += 1;
            }
            proof {
                assert(ids@.take(ids@.len() as int) =~= ids@);
                assert forall|id: LabelId|
                    out@.contains(id) <==> spec_reference_set(
                        self,
                        set,
                        spec_extra_ids(extra),
                    ).contains(id) by {
                    assert(spec_extra_ids(extra) == ids@.to_set());
                    assert(ids@.to_set().contains(id) <==> ids@.contains(id));
                }
            }
            out
        } else {
            proof {
                assert forall|id: LabelId|
                    out@.contains(id) <==> spec_reference_set(
                        self,
                        set,
                        spec_extra_ids(extra),
                    ).contains(id) by {
                    assert(!spec_extra_ids(extra).contains(id));
                }
            }
            out
        }
    }

    /// Evaluates every rule on the candidate label set, in rule order,
    /// collecting the three-valued outcomes; a disabled rule is evaluated
    /// only when `run_skipped` is set, and skipped over otherwise.
    pub fn run_checks(&self, labels: &Vec<LabelId>, run_skipped: bool) -> (r: Vec<Option<bool>>)
        requires
            spec_catalog_wf(self),
            forall|k1: int, k2: int| 0 <= k1 < k2 < labels@.len() ==> labels@[k1] != labels@[k2],
        ensures
            r@ == spec_run_checks(self.rules@, labels@, self, run_skipped),
    {
        let mut out: Vec<Option<bool>> = Vec::new();
        let mut i: usize = 0;
        while i < self.rules.len()
            invariant
                i <= self.rules@.len(),
                spec_catalog_wf(self),
                forall|k1: int, k2: int|
                    0 <= k1 < k2 < labels@.len() ==> labels@[k1] != labels@[k2],
                out@ == spec_run_checks(
                    self.rules@.take(i as int),
                    labels@,
                    self,
                    run_skipped,
                ),
            decreases self.rules@.len() - i,
        {
            proof {
                assert(self.rules@.take(i + 1).drop_last() =~= self.rules@.take(i as int));
                assert(self.rules@.take(i + 1).last() == self.rules@[i as int]);
            }
            if !self.rules[i].disabled || run_skipped {
                let res = self.rules[i].check(labels, self);
                out.push(res);
            }
            i += 1;
        }
        proof {
            assert(self.rules@.take(self.rules@.len() as int) =~= self.rules@);
        }
        out
    }

    /// Picks out the rules whose entry in the parallel result vector is a
    /// failure, in their original order; skipped and passing entries are
    /// dropped.  The vector must have exactly one entry per rule.
    pub fn find_faulty(&self, res: Vec<Option<bool>>) -> (r: Vec<&Rule>)
        requires
            res@.len() == self.rules@.len(),
        ensures
            r@.len() == spec_faulty_indices(res@).len(),
            forall|k: int|
                0 <= k < r@.len() ==> (0 <= #[trigger] spec_faulty_indices(res@)[k]
                    < self.rules@.len() && r@[k] == self.rules@[spec_faulty_indices(res@)[k]]),
    {
        let mut out: Vec<&Rule> = Vec::new();
        let mut i: usize = 0;
        while i < res.len()
            invariant
                i <= res@.len(),
                res@.len() == self.rules@.len(),
                out@.len() == spec_faulty_indices(res@.take(i as int)).len(),
                forall|k: int|
                    0 <= k < out@.len() ==> (0 <= #[trigger] spec_faulty_indices(
                        res@.take(i as int),
                    )[k] < self.rules@.len() && out@[k] == self.rules@[spec_faulty_indices(
                        res@.take(i as int),
                    )[k]]),
            decreases res@.len() - i,
        {
            let ghost fi0 = spec_faulty_indices(res@.take(i as int));
            let failed = match res[i] {
                Some(v) => !v,
                None => false,
            };
            if failed {
                out.push(&self.rules[i]);
            }
            proof {
                assert(res@.take(i + 1).drop_last() =~= res@.take(i as int));
                assert(res@.take(i + 1).last() == res@[i as int]);
                let fi1 = spec_faulty_indices(res@.take(i + 1));
                if failed {
                    assert(fi1 == fi0.push(i as int));
                } else {
                    assert(fi1 == fi0);
                }
            }
            i += 1;
        }
        proof {
            assert(res@.take(res@.len() as int) =~= res@);
        }
        out
    }
}

} // verus!
