//! The data model of a fleet scan: pods with their ownership metadata, the
//! per-namespace statistics, and the aggregate result of a whole scan.

use vstd::prelude::*;

verus! {

/// An ownership reference attached to a pod, carrying the owner's kind tag.
#[derive(Debug)]
pub struct OwnerReference {
    pub kind: String,
}

/// The identity of a pod: its name and the namespace it lives in.
#[derive(Debug)]
pub struct PodMetadata {
    pub name: String,
    pub namespace: String,
}

/// A workload pod, immutable once fetched: identity plus ownership
/// references.
#[derive(Debug)]
pub struct Pod {
    pub metadata: PodMetadata,
    pub owner_references: Vec<OwnerReference>,
}

/// The pod list of one namespace, as the enumeration returns it.
#[derive(Debug)]
pub struct PodList {
    pub items: Vec<Pod>,
}

impl Pod {
    /// A pod is DaemonSet-owned when any of its ownership references has
    /// kind exactly "DaemonSet".
    pub open spec fn spec_is_daemonset(self) -> bool {
        exists|i: int|
            0 <= i < self.owner_references@.len() && (#[trigger] self.owner_references@[i]).kind@
                == "DaemonSet"@
    }

    pub fn is_daemonset(&self) -> (r: bool)
        ensures
            r == self.spec_is_daemonset(),
    {
        let needle = String::from_str("DaemonSet");
        let mut i: usize = 0;
        while i < self.owner_references.len()
            invariant
                i <= self.owner_references@.len(),
                needle@ == "DaemonSet"@,
                forall|k: int|
                    0 <= k < i ==> (#[trigger] self.owner_references@[k]).kind@ != "DaemonSet"@,
            decreases self.owner_references@.len() - i,
        {
            if self.owner_references[i].kind == needle {
                return true;
            }
            i += 1;
        }
        false
    }
}

/// The pods that remain to be probed once DaemonSet filtering is applied:
/// with the skip flag set, every DaemonSet-owned pod is dropped; without
/// it, every pod is kept. Order is preserved either way.
pub open spec fn spec_filter_pods(pods: Seq<Pod>, skip_daemonset: bool) -> Seq<Pod>
    decreases pods.len(),
{
    if pods.len() == 0 {
        Seq::empty()
    } else {
        let rest = spec_filter_pods(pods.drop_first(), skip_daemonset);
        if skip_daemonset && pods.first().spec_is_daemonset() {
            rest
        } else {
            seq![pods.first()] + rest
        }
    }
}

/// Applies DaemonSet filtering to a namespace's pod list. A skipped pod is
/// out of the scan entirely: it is neither probed nor counted.
pub fn filter_pods(pods: Vec<Pod>, skip_daemonset: bool) -> (r: Vec<Pod>)
    ensures
        r@ == spec_filter_pods(pods@, skip_daemonset),
{
    let ghost orig = pods@;
    let mut pods = pods;
    let mut r: Vec<Pod> = Vec::new();
    while pods.len() > 0
        invariant
            spec_filter_pods(orig, skip_daemonset) == r@ + spec_filter_pods(
                pods@,
                skip_daemonset,
            ),
        decreases pods@.len(),
    {
        let ghost prev_r = r@;
        let ghost prev = pods@;
        let p = pods.remove(0);
        proof {
            assert(prev.drop_first() =~= pods@);
            assert(prev.first() == p);
        }
        if skip_daemonset && p.is_daemonset() {
        } else {
            r.push(p);
            proof {
                assert(prev_r.push(p) + spec_filter_pods(pods@, skip_daemonset) =~= prev_r + (
                seq![p] + spec_filter_pods(pods@, skip_daemonset)));
            }
        }
    }
    proof {
        assert(r@ + spec_filter_pods(pods@, skip_daemonset) =~= r@);
    }
    r
}

/// With DaemonSet filtering disabled, every pod stays in the scan.
pub proof fn lemma_filter_disabled_keeps_all(pods: Seq<Pod>)
    ensures
        spec_filter_pods(pods, false) == pods,
    decreases pods.len(),
{
    if pods.len() == 0 {
        assert(spec_filter_pods(pods, false) =~= pods);
    } else {
        lemma_filter_disabled_keeps_all(pods.drop_first());
        assert(spec_filter_pods(pods, false) =~= pods);
    }
}

/// With DaemonSet filtering enabled, no DaemonSet-owned pod survives it.
pub proof fn lemma_filter_excludes_daemonsets(pods: Seq<Pod>)
    ensures
        forall|k: int|
            0 <= k < spec_filter_pods(pods, true).len() ==> !(#[trigger] spec_filter_pods(
                pods,
                true,
            )[k]).spec_is_daemonset(),
    decreases pods.len(),
{
    if pods.len() > 0 {
        lemma_filter_excludes_daemonsets(pods.drop_first());
        let rest = spec_filter_pods(pods.drop_first(), true);
        let filtered = spec_filter_pods(pods, true);
        if !pods.first().spec_is_daemonset() {
            assert forall|k: int|
                0 <= k < filtered.len() implies !(#[trigger] filtered[k]).spec_is_daemonset() by {
                if k == 0 {
                    assert(filtered[0] == pods.first());
                } else {
                    assert(filtered[k] == rest[k - 1]);
                }
            }
        }
    }
}

/// Filtering never drops a pod that is not DaemonSet-owned, whether or not
/// the skip flag is set.
pub proof fn lemma_filter_keeps_non_daemonsets(pods: Seq<Pod>, skip_daemonset: bool, i: int)
    requires
        0 <= i < pods.len(),
        !pods[i].spec_is_daemonset(),
    ensures
        spec_filter_pods(pods, skip_daemonset).contains(pods[i]),
    decreases pods.len(),
{
    let filtered = spec_filter_pods(pods, skip_daemonset);
    let rest = spec_filter_pods(pods.drop_first(), skip_daemonset);
    if i == 0 {
        assert(filtered[0] == pods[0]);
    } else {
        lemma_filter_keeps_non_daemonsets(pods.drop_first(), skip_daemonset, i - 1);
        let k = choose|k: int| 0 <= k < rest.len() && rest[k] == pods.drop_first()[i - 1];
        if skip_daemonset && pods.first().spec_is_daemonset() {
            assert(filtered[k] == pods[i]);
        } else {
            assert(filtered[k + 1] == pods[i]);
        }
    }
}

/// The statistics of one namespace: how many pods were probed, and how many
/// of them answered with an identifiable runtime version.
#[derive(Debug, Clone, Copy)]
pub struct NamespaceStats {
    pub total_pods: usize,
    pub jdk_pods: usize,
}

/// The aggregate of a whole fleet scan: global counters, the per-namespace
/// statistics, and for each namespace with at least one identified pod the
/// pod name to version mapping.
#[derive(Debug)]
pub struct ScanResult {
    pub total_pods: usize,
    pub jdk_pods: usize,
    pub pod_versions: Vec<(String, Vec<(String, String)>)>,
    pub namespace_stats: Vec<(String, NamespaceStats)>,
}

/// The sum of the per-namespace probed-pod counts.
pub open spec fn spec_sum_total(s: Seq<(String, NamespaceStats)>) -> int
    decreases s.len(),
{
    if s.len() == 0 {
        0
    } else {
        spec_sum_total(s.drop_last()) + s.last().1.total_pods
    }
}

/// The sum of the per-namespace identified-pod counts.
pub open spec fn spec_sum_jdk(s: Seq<(String, NamespaceStats)>) -> int
    decreases s.len(),
{
    if s.len() == 0 {
        0
    } else {
        spec_sum_jdk(s.drop_last()) + s.last().1.jdk_pods
    }
}

/// The number of pod rows over all namespaces of a version mapping.
pub open spec fn spec_rows_count(pv: Seq<(String, Vec<(String, String)>)>) -> int
    decreases pv.len(),
{
    if pv.len() == 0 {
        0
    } else {
        spec_rows_count(pv.drop_last()) + pv.last().1@.len()
    }
}

/// Both sums are sums of counts, so neither is ever negative.
pub proof fn lemma_sums_nonneg(s: Seq<(String, NamespaceStats)>)
    ensures
        spec_sum_total(s) >= 0,
        spec_sum_jdk(s) >= 0,
    decreases s.len(),
{
    if s.len() > 0 {
        lemma_sums_nonneg(s.drop_last());
    }
}

/// When no namespace reports more matched pods than probed pods, the
/// matched sum stays below the probed sum.
pub proof fn lemma_sum_jdk_le_total(s: Seq<(String, NamespaceStats)>)
    requires
        forall|i: int|
            0 <= i < s.len() ==> (#[trigger] s[i]).1.jdk_pods <= s[i].1.total_pods,
    ensures
        spec_sum_jdk(s) <= spec_sum_total(s),
    decreases s.len(),
{
    if s.len() > 0 {
        assert forall|i: int|
            0 <= i < s.drop_last().len() implies (#[trigger] s.drop_last()[i]).1.jdk_pods
            <= s.drop_last()[i].1.total_pods by {
            assert(s.drop_last()[i] == s[i]);
        }
        lemma_sum_jdk_le_total(s.drop_last());
        assert(s.last() == s[s.len() - 1]);
    }
}

impl ScanResult {
    /// Whether a namespace already has a published statistics entry.
    pub open spec fn spec_has_namespace(self, ns: Seq<char>) -> bool {
        exists|i: int|
            0 <= i < self.namespace_stats@.len() && (#[trigger] self.namespace_stats@[i]).0@ == ns
    }

    /// The invariant of a scan aggregate: the global counters are the sums
    /// of the per-namespace statistics, namespaces are recorded at most
    /// once, and the version mapping holds exactly the identified pods:
    /// one nonempty entry per namespace that is also recorded in the
    /// statistics, no sentinel version anywhere in it, and as many rows in
    /// all as the global identified-pod counter.
    pub open spec fn wf(self) -> bool {
        &&& self.total_pods == spec_sum_total(self.namespace_stats@)
        &&& self.jdk_pods == spec_sum_jdk(self.namespace_stats@)
        &&& forall|i: int|
            0 <= i < self.namespace_stats@.len() ==> (#[trigger] self.namespace_stats@[i]).1.jdk_pods
                <= self.namespace_stats@[i].1.total_pods
        &&& forall|i: int, j: int|
            0 <= i < j < self.namespace_stats@.len() ==> (#[trigger] self.namespace_stats@[i]).0@
                != (#[trigger] self.namespace_stats@[j]).0@
        &&& forall|i: int, j: int|
            0 <= i < j < self.pod_versions@.len() ==> (#[trigger] self.pod_versions@[i]).0@
                != (#[trigger] self.pod_versions@[j]).0@
        &&& forall|i: int|
            0 <= i < self.pod_versions@.len() ==> (#[trigger] self.pod_versions@[i]).1@.len() >= 1
        &&& forall|i: int, k: int|
            0 <= i < self.pod_versions@.len() && 0 <= k < self.pod_versions@[i].1@.len() ==> (
            #[trigger] self.pod_versions@[i].1@[k]).1@ != "Unknown"@
        &&& forall|i: int|
            0 <= i < self.pod_versions@.len() ==> self.spec_has_namespace(
                (#[trigger] self.pod_versions@[i]).0@,
            )
        &&& spec_rows_count(self.pod_versions@) == self.jdk_pods
    }

    /// An empty aggregate: all counters zero, no namespace recorded.
    pub fn new() -> (r: Self)
        ensures
            r.wf(),
            r.total_pods == 0,
            r.jdk_pods == 0,
            r.namespace_stats@.len() == 0,
            r.pod_versions@.len() == 0,
    {
        ScanResult {
            total_pods: 0,
            jdk_pods: 0,
            pod_versions: Vec::new(),
            namespace_stats: Vec::new(),
        }
    }

    pub fn has_namespace(&self, ns: &str) -> (r: bool)
        ensures
            r == self.spec_has_namespace(ns@),
    {
        let needle = String::from_str(ns);
        let mut i: usize = 0;
        while i < self.namespace_stats.len()
            invariant
                i <= self.namespace_stats@.len(),
                needle@ == ns@,
                forall|k: int|
                    0 <= k < i ==> (#[trigger] self.namespace_stats@[k]).0@ != ns@,
            decreases self.namespace_stats@.len() - i,
        {
            if self.namespace_stats[i].0 == needle {
                return true;
            }
            i += 1;
        }
        false
    }
}

impl Default for ScanResult {
    fn default() -> (r: Self)
        ensures
            r.wf(),
            r.total_pods == 0,
            r.jdk_pods == 0,
            r.namespace_stats@.len() == 0,
            r.pod_versions@.len() == 0,
    {
        ScanResult::new()
    }
}

/// The global counters of a well-formed aggregate are exactly the sums of
/// the per-namespace statistics: the probed-pod counter is the sum of the
/// namespace totals, and the identified-pod counter is the sum of the
/// namespace matched counts.
pub proof fn lemma_totals_are_sums(r: ScanResult)
    requires
        r.wf(),
    ensures
        r.total_pods == spec_sum_total(r.namespace_stats@),
        r.jdk_pods == spec_sum_jdk(r.namespace_stats@),
{
}

} // verus!
