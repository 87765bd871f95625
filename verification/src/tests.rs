//! [`Tests`], [`TestSpecs`] and [`TestSpec`]: fixtures with expected
//! outcomes, and the harness that drives the rule-set evaluator over them.

use vstd::prelude::*;

use crate::parsed_label::{spec_parse_label_id, vec_contains_id, LabelId};
use crate::rule_filter::RuleFilter;
use crate::specs::{
    lemma_run_checks_depends_on_set, spec_aggregate, spec_catalog_wf, spec_run_checks, Specs,
};

verus! {

/// A named collection of test fixtures, together with the path of the
/// specification file they are written against.
#[derive(Debug)]
pub struct Tests {
    pub name: String,
    pub spec_file: String,
    pub specs: TestSpecs,
}

/// The fixtures of a test file.
#[derive(Debug)]
pub struct TestSpecs {
    pub specs: Vec<TestSpec>,
}

/// One fixture: literal label strings, the expected aggregate outcome and
/// the optional selection flags.
#[derive(Debug)]
pub struct TestSpec {
    pub name: String,
    pub description: Option<String>,
    pub labels: Vec<String>,
    pub skip: Option<bool>,
    pub filter: Option<RuleFilter>,
    pub only: Option<bool>,
    pub expected: bool,
}

/// Whether a fixture survives the selection pipeline: in `only` mode just
/// the fixtures flagged `only`, otherwise all but those flagged `skip`
/// unless `all` mode keeps them too; `name_ok` says whether the caller's
/// name filter accepts the fixture.
pub open spec fn spec_selected(fx: TestSpec, only: bool, all: bool, name_ok: bool) -> bool {
    (if only {
        fx.only == Some(true)
    } else {
        true
    }) && (all || !(fx.skip == Some(true))) && name_ok
}

/// Whether the caller's name filter accepts the fixture at index `i`: an
/// absent filter lets every fixture through.
pub open spec fn spec_name_ok(filter: Option<&Vec<bool>>, i: int) -> bool {
    match filter {
        Some(v) => v@[i],
        None => true,
    }
}

/// The label ids a fixture's strings parse to, in order (meaningful when
/// every string parses).
pub open spec fn spec_parsed_ids(labels: Seq<String>) -> Seq<LabelId> {
    labels.map_values(|s: String| spec_parse_label_id(s@)->0)
}

/// Whether a fixture passes: the aggregate of evaluating every rule on the
/// fixture's labels equals the expected outcome.
pub open spec fn spec_fixture_pass(fx: TestSpec, specs: &Specs) -> bool {
    spec_aggregate(spec_run_checks(specs.rules@, spec_parsed_ids(fx.labels@), specs, true))
        == fx.expected
}

/// Parses every label string into an id, keeping each id once.
fn parse_label_strings(labels: &Vec<String>) -> (r: Vec<LabelId>)
    requires
        forall|j: int|
            0 <= j < labels@.len() ==> spec_parse_label_id(#[trigger] labels@[j]@) is Some,
    ensures
        forall|k1: int, k2: int| 0 <= k1 < k2 < r@.len() ==> r@[k1] != r@[k2],
        r@.to_set() == spec_parsed_ids(labels@).to_set(),
{
    let mut out: Vec<LabelId> = Vec::new();
    let mut j: usize = 0;
    while j < labels.len()
        invariant
            j <= labels@.len(),
            forall|m: int|
                0 <= m < labels@.len() ==> spec_parse_label_id(#[trigger] labels@[m]@) is Some,
            forall|k1: int, k2: int| 0 <= k1 < k2 < out@.len() ==> out@[k1] != out@[k2],
            forall|id: LabelId|
                #[trigger] out@.contains(id) <==> exists|m: int|
                    0 <= m < j && spec_parse_label_id(#[trigger] labels@[m]@) == Some(id),
        decreases labels@.len() - j,
    {
        let id = LabelId::from(labels[j].as_str());
        let ghost out0 = out@;
        let mut pushed = false;
        if !vec_contains_id(&out, &id) {
            out.push(id);
            pushed = true;
        }
        proof {
            assert forall|id2: LabelId|
                #[trigger] out@.contains(id2) <==> exists|m: int|
                    0 <= m < j + 1 && spec_parse_label_id(#[trigger] labels@[m]@) == Some(
                        id2,
                    ) by {
                if pushed {
                    crate::common::lemma_push_contains(out0, id, id2);
                }
                if out@.contains(id2) {
                    if out0.contains(id2) {
                        let m = choose|m: int|
                            0 <= m < j && spec_parse_label_id(#[trigger] labels@[m]@) == Some(
                                id2,
                            );
                        assert(0 <= m < j + 1 && spec_parse_label_id(labels@[m]@) == Some(id2));
                    } else {
                        assert(id2 == id);
                        assert(spec_parse_label_id(labels@[j as int]@) == Some(id2));
                    }
                }
                if exists|m: int|
                    0 <= m < j + 1 && spec_parse_label_id(#[trigger] labels@[m]@) == Some(id2) {
                    let m = choose|m: int|
                        0 <= m < j + 1 && spec_parse_label_id(#[trigger] labels@[m]@) == Some(
                            id2,
                        );
                    if m < j {
                        assert(out0.contains(id2));
                    } else {
                        assert(id2 == id);
                        if !out0.contains(id2) {
                            assert(pushed);
                        }
                    }
                    assert(out@.contains(id2));
                }
            }
        }
        j += 1;
    }
    proof {
        let parsed = spec_parsed_ids(labels@);
        assert forall|id: LabelId| out@.to_set().contains(id) == parsed.to_set().contains(
            id,
        ) by {
            if out@.to_set().contains(id) {
                let m = choose|m: int|
                    0 <= m < labels@.len() && spec_parse_label_id(#[trigger] labels@[m]@)
                        == Some(id);
                assert(parsed[m] == id);
                assert(parsed.contains(id));
            }
            if parsed.to_set().contains(id) {
                let m = choose|m: int| 0 <= m < parsed.len() && parsed[m] == id;
                assert(spec_parse_label_id(labels@[m]@) == Some(id));
                assert(out@.contains(id));
            }
        }
        assert(out@.to_set() =~= parsed.to_set());
    }
    out
}

impl Tests {
    /// Runs every selected fixture against the given specification: the
    /// fixture's labels are parsed, every rule is evaluated, the aggregate
    /// is compared with the fixture's expected outcome.  Returns one entry
    /// per fixture — the comparison for a selected fixture, skip for a
    /// deselected one — and the overall outcome: whether every selected
    /// fixture met its expectation.
    pub fn run(&self, specs: &Specs, only: bool, all: bool, filter: Option<&Vec<bool>>) -> (r: (
        Vec<Option<bool>>,
        bool,
    ))
        requires
            spec_catalog_wf(specs),
            filter matches Some(v) ==> v@.len() == self.specs.specs@.len(),
            forall|i: int, j: int|
                0 <= i < self.specs.specs@.len() && spec_selected(
                    #[trigger] self.specs.specs@[i],
                    only,
                    all,
                    spec_name_ok(filter, i),
                ) && 0 <= j < self.specs.specs@[i].labels@.len() ==> spec_parse_label_id(
                    #[trigger] self.specs.specs@[i].labels@[j]@,
                ) is Some,
        ensures
            r.0@.len() == self.specs.specs@.len(),
            forall|i: int|
                0 <= i < r.0@.len() ==> r.0@[i] == (if spec_selected(
                    #[trigger] self.specs.specs@[i],
                    only,
                    all,
                    spec_name_ok(filter, i),
                ) {
                    Some(spec_fixture_pass(self.specs.specs@[i], specs))
                } else {
                    None::<bool>
                }),
            r.1 == (forall|i: int|
                0 <= i < self.specs.specs@.len() && spec_selected(
                    #[trigger] self.specs.specs@[i],
                    only,
                    all,
                    spec_name_ok(filter, i),
                ) ==> spec_fixture_pass(self.specs.specs@[i], specs)),
    {
        let mut out: Vec<Option<bool>> = Vec::new();
        let mut overall = true;
        let mut i: usize = 0;
        let n = self.specs.specs.len();
        while i < n
            invariant
                i <= n,
                n == self.specs.specs@.len(),
                spec_catalog_wf(specs),
                filter matches Some(v) ==> v@.len() == self.specs.specs@.len(),
                forall|i2: int, j: int|
                    0 <= i2 < self.specs.specs@.len() && spec_selected(
                        #[trigger] self.specs.specs@[i2],
                        only,
                        all,
                        spec_name_ok(filter, i2),
                    ) && 0 <= j < self.specs.specs@[i2].labels@.len() ==> spec_parse_label_id(
                        #[trigger] self.specs.specs@[i2].labels@[j]@,
                    ) is Some,
                out@.len() == i,
                forall|i2: int|
                    0 <= i2 < i ==> out@[i2] == (if spec_selected(
                        #[trigger] self.specs.specs@[i2],
                        only,
                        all,
                        spec_name_ok(filter, i2),
                    ) {
                        Some(spec_fixture_pass(self.specs.specs@[i2], specs))
                    } else {
                        None::<bool>
                    }),
                overall == (forall|i2: int|
                    0 <= i2 < i && spec_selected(
                        #[trigger] self.specs.specs@[i2],
                        only,
                        all,
                        spec_name_ok(filter, i2),
                    ) ==> spec_fixture_pass(self.specs.specs@[i2], specs)),
            decreases n - i,
        {
            let fx = &self.specs.specs[i];
            let name_ok = match filter {
                Some(v) => v[i],
                None => true,
            };
            let sel_only = if only {
                match fx.only {
                    Some(o) => o,
                    None => false,
                }
            } else {
                true
            };
            let sel_skip = all || !(match fx.skip {
                Some(sk) => sk,
                None => false,
            });
            let selected = sel_only && sel_skip && name_ok;
            proof {
                assert(selected == spec_selected(
                    self.specs.specs@[i as int],
                    only,
                    all,
                    spec_name_ok(filter, i as int),
                ));
            }
            if selected {
                let ids = parse_label_strings(&fx.labels);
                let results = specs.run_checks(&ids, true);
                let agg = crate::specs::aggregate_results(&results);
                let passed = agg == fx.expected;
                proof {
                    lemma_run_checks_depends_on_set(
                        specs.rules@,
                        ids@,
                        spec_parsed_ids(fx.labels@),
                        specs,
                        true,
                    );
                    assert(passed == spec_fixture_pass(self.specs.specs@[i as int], specs));
                }
                out.push(Some(passed));
                if !passed {
                    overall = false;
                }
            } else {
                out.push(None);
            }
            i += 1;
        }
        (out, overall)
    }
}

} // verus!
