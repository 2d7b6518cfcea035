//! The scanner core: folding one namespace's probe outcomes into its
//! statistics and merging them into the shared scan aggregate, in a single
//! burst per namespace, so that no partial namespace result is ever
//! visible.

use crate::config::Config;
use crate::pool::ProbeDispatcher;
use crate::probe::{spec_is_match, spec_sentinel, ProbeOutcome};
use crate::types::{
    lemma_sum_jdk_le_total, lemma_sums_nonneg, NamespaceStats, ScanResult, spec_rows_count,
    spec_sum_jdk, spec_sum_total,
};
use vstd::prelude::*;

verus! {

/// The fleet scanner: it owns the configuration of one scan.
#[derive(Debug)]
pub struct Scanner {
    config: Config,
}

impl Scanner {
    /// The configuration the scanner was created with.
    pub closed spec fn spec_config(&self) -> Config {
        self.config
    }

    pub fn new(config: Config) -> (s: Self)
        ensures
            s.spec_config() == config,
    {
        Scanner { config }
    }

    pub fn config(&self) -> (c: &Config)
        ensures
            *c == self.spec_config(),
    {
        &self.config
    }
}

/// How many outcomes of a run are matches, that is, carry a version other
/// than the sentinel.
pub open spec fn spec_matched_count(s: Seq<ProbeOutcome>) -> int
    decreases s.len(),
{
    if s.len() == 0 {
        0
    } else {
        spec_matched_count(s.drop_last()) + if spec_is_match(s.last()) {
            1int
        } else {
            0int
        }
    }
}

/// The (pod name, version) rows of the matched outcomes, in outcome order;
/// an unmatched outcome leaves no row.
pub open spec fn spec_version_rows(s: Seq<ProbeOutcome>) -> Seq<(Seq<char>, Seq<char>)>
    decreases s.len(),
{
    if s.len() == 0 {
        Seq::empty()
    } else {
        spec_version_rows(s.drop_last()) + if spec_is_match(s.last()) {
            seq![(s.last().pod_name@, s.last().version@)]
        } else {
            Seq::empty()
        }
    }
}

/// The views of an executable row list.
pub open spec fn spec_rows_view(s: Seq<(String, String)>) -> Seq<(Seq<char>, Seq<char>)> {
    s.map_values(|p: (String, String)| (p.0@, p.1@))
}

/// No run matches more outcomes than it has.
pub proof fn lemma_matched_count_bounds(s: Seq<ProbeOutcome>)
    ensures
        0 <= spec_matched_count(s) <= s.len(),
    decreases s.len(),
{
    if s.len() > 0 {
        lemma_matched_count_bounds(s.drop_last());
    }
}

/// A run leaves exactly one row per matched outcome.
pub proof fn lemma_rows_len_is_matched_count(s: Seq<ProbeOutcome>)
    ensures
        spec_version_rows(s).len() == spec_matched_count(s),
    decreases s.len(),
{
    if s.len() > 0 {
        lemma_rows_len_is_matched_count(s.drop_last());
    }
}

/// No row of any run carries the sentinel: an outcome whose probe revealed
/// nothing — timed out, failed, or unreadable — never appears in a
/// namespace's pod-to-version mapping.
pub proof fn lemma_rows_have_no_sentinel(s: Seq<ProbeOutcome>)
    ensures
        forall|k: int|
            0 <= k < spec_version_rows(s).len() ==> (#[trigger] spec_version_rows(s)[k]).1
                != spec_sentinel(),
    decreases s.len(),
{
    if s.len() > 0 {
        lemma_rows_have_no_sentinel(s.drop_last());
        let rows = spec_version_rows(s);
        let prev = spec_version_rows(s.drop_last());
        assert forall|k: int|
            0 <= k < rows.len() implies (#[trigger] rows[k]).1 != spec_sentinel() by {
            if k < prev.len() {
                assert(rows[k] == prev[k]);
            }
        }
    }
}

/// Folds one finished namespace run into the shared aggregate, as the one
/// mutation burst that namespace gets: the namespace's statistics are
/// published (total = every pod dispatched after filtering, matched =
/// outcomes with a non-sentinel version), the global counters grow by the
/// same amounts, and, when at least one pod matched, the namespace's
/// pod-to-version rows are appended, holding exactly the matched outcomes
/// in order. A namespace with no matched pod leaves no row entry at all.
pub fn record_namespace(result: &mut ScanResult, namespace: String, probes: ProbeDispatcher)
    requires
        old(result).wf(),
        probes.wf(),
        probes.spec_pending().len() == 0,
        probes.spec_in_flight() == 0,
        !old(result).spec_has_namespace(namespace@),
        old(result).total_pods + probes.spec_total() <= usize::MAX,
    ensures
        final(result).wf(),
        final(result).total_pods == old(result).total_pods + probes.spec_outcomes().len(),
        final(result).jdk_pods == old(result).jdk_pods + spec_matched_count(
            probes.spec_outcomes(),
        ),
        final(result).namespace_stats@.len() == old(result).namespace_stats@.len() + 1,
        final(result).namespace_stats@.subrange(
            0,
            old(result).namespace_stats@.len() as int,
        ) == old(result).namespace_stats@,
        final(result).namespace_stats@.last().0@ == namespace@,
        final(result).namespace_stats@.last().1.total_pods == probes.spec_total(),
        final(result).namespace_stats@.last().1.jdk_pods == spec_matched_count(
            probes.spec_outcomes(),
        ),
        final(result).spec_has_namespace(namespace@),
        spec_matched_count(probes.spec_outcomes()) == 0 ==> final(result).pod_versions@ == old(
            result,
        ).pod_versions@,
        spec_matched_count(probes.spec_outcomes()) > 0 ==> {
            &&& final(result).pod_versions@.len() == old(result).pod_versions@.len() + 1
            &&& final(result).pod_versions@.subrange(
                0,
                old(result).pod_versions@.len() as int,
            ) == old(result).pod_versions@
            &&& final(result).pod_versions@.last().0@ == namespace@
            &&& spec_rows_view(final(result).pod_versions@.last().1@) == spec_version_rows(
                probes.spec_outcomes(),
            )
        },
{
    let ghost outs = probes.spec_outcomes();
    let ghost old_stats = result.namespace_stats@;
    let ghost old_pv = result.pod_versions@;
    let outcomes = probes.into_outcomes();
    let total = outcomes.len();
    let sentinel = String::from_str("Unknown");
    let mut matched: usize = 0;
    let mut rows: Vec<(String, String)> = Vec::new();
    let mut i: usize = 0;
    while i < outcomes.len()
        invariant
            outcomes@ == outs,
            i <= outs.len(),
            sentinel@ == spec_sentinel(),
            matched <= i,
            matched == spec_matched_count(outs.subrange(0, i as int)),
            rows@.len() == matched,
            spec_rows_view(rows@) == spec_version_rows(outs.subrange(0, i as int)),
            forall|k: int| 0 <= k < rows@.len() ==> (#[trigger] rows@[k]).1@ != spec_sentinel(),
        decreases outs.len() - i,
    {
        let o = &outcomes[i];
        let ghost prev_rows = rows@;
        if o.version != sentinel {
            matched = matched + 1;
            rows.push((o.pod_name.clone(), o.version.clone()));
        }
        proof {
            let pre = outs.subrange(0, i as int);
            let post = outs.subrange(0, i + 1);
            assert(post.drop_last() =~= pre);
            assert(post.last() == outs[i as int]);
            if spec_is_match(outs[i as int]) {
                assert(spec_rows_view(rows@) =~= spec_rows_view(prev_rows).push(
                    (outs[i as int].pod_name@, outs[i as int].version@),
                ));
                assert(spec_version_rows(post) =~= spec_version_rows(pre).push(
                    (outs[i as int].pod_name@, outs[i as int].version@),
                ));
            } else {
                assert(spec_version_rows(post) =~= spec_version_rows(pre));
            }
        }
        i = i + 1;
    }
    proof {
        assert(outs.subrange(0, outs.len() as int) =~= outs);
        lemma_sums_nonneg(old_stats);
        lemma_sum_jdk_le_total(old_stats);
    }
    result.total_pods = result.total_pods + total;
    result.jdk_pods = result.jdk_pods + matched;
    let stats = NamespaceStats { total_pods: total, jdk_pods: matched };
    let ns_key = namespace.clone();
    result.namespace_stats.push((ns_key, stats));
    let pushed_rows = rows.len() > 0;
    if pushed_rows {
        result.pod_versions.push((namespace, rows));
    }
    proof {
        let new_stats = result.namespace_stats@;
        let new_pv = result.pod_versions@;
        assert(new_stats.drop_last() =~= old_stats);
        assert(new_stats.subrange(0, old_stats.len() as int) =~= old_stats);
        assert(new_stats.last() == new_stats[old_stats.len() as int]);
        // the fresh namespace differs from every already recorded key
        assert forall|k: int| 0 <= k < old_stats.len() implies (#[trigger] old_stats[k]).0@
            != namespace@ by {
            if old_stats[k].0@ == namespace@ {
                assert(old(result).spec_has_namespace(namespace@));
            }
        }
        assert forall|k: int| 0 <= k < old_pv.len() implies (#[trigger] old_pv[k]).0@
            != namespace@ by {
            assert(old(result).spec_has_namespace(old_pv[k].0@));
            let j = choose|j: int|
                0 <= j < old_stats.len() && (#[trigger] old_stats[j]).0@ == old_pv[k].0@;
            assert(old_stats[j].0@ != namespace@);
        }
        if pushed_rows {
            assert(new_pv.drop_last() =~= old_pv);
            assert(new_pv.subrange(0, old_pv.len() as int) =~= old_pv);
        } else {
            assert(new_pv =~= old_pv);
        }
        // every old namespace keeps its statistics entry
        assert forall|k: int| 0 <= k < new_pv.len() implies final(result).spec_has_namespace(
            (#[trigger] new_pv[k]).0@,
        ) by {
            if k < old_pv.len() {
                assert(old(result).spec_has_namespace(old_pv[k].0@));
                let j = choose|j: int|
                    0 <= j < old_stats.len() && (#[trigger] old_stats[j]).0@ == old_pv[k].0@;
                assert(new_stats[j].0@ == new_pv[k].0@);
            } else {
                assert(new_stats[old_stats.len() as int].0@ == new_pv[k].0@);
            }
        }
        assert(final(result).spec_has_namespace(namespace@)) by {
            assert(new_stats[old_stats.len() as int].0@ == namespace@);
        }
    }
}

} // verus!
