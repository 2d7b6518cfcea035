use jvs::config::Config;
use jvs::pool::{ProbeDispatcher, WorkPool};
use jvs::probe::{version_from_probe, CommandOutput, ProbeError, ProbeOutcome};
use jvs::scanner::{record_namespace, Scanner};
use jvs::types::{filter_pods, OwnerReference, Pod, PodMetadata, ScanResult};

fn mk_pod(name: &str, namespace: &str, owner_kinds: &[&str]) -> Pod {
    Pod {
        metadata: PodMetadata {
            name: String::from(name),
            namespace: String::from(namespace),
        },
        owner_references: owner_kinds
            .iter()
            .map(|k| OwnerReference {
                kind: String::from(*k),
            })
            .collect(),
    }
}

#[test]
fn daemonset_detection_looks_at_every_reference() {
    assert!(mk_pod("a", "ns", &["DaemonSet"]).is_daemonset());
    assert!(mk_pod("b", "ns", &["ReplicaSet", "DaemonSet"]).is_daemonset());
    assert!(!mk_pod("c", "ns", &["ReplicaSet"]).is_daemonset());
    assert!(!mk_pod("d", "ns", &[]).is_daemonset());
    assert!(!mk_pod("e", "ns", &["daemonset"]).is_daemonset());
}

#[test]
fn filtering_skips_daemonsets_only_when_enabled() {
    let pods = vec![
        mk_pod("app-1", "ns", &["ReplicaSet"]),
        mk_pod("agent-1", "ns", &["DaemonSet"]),
        mk_pod("app-2", "ns", &[]),
    ];
    let kept = filter_pods(pods, true);
    assert_eq!(kept.len(), 2);
    assert_eq!(kept[0].metadata.name, "app-1");
    assert_eq!(kept[1].metadata.name, "app-2");

    let pods = vec![
        mk_pod("app-1", "ns", &["ReplicaSet"]),
        mk_pod("agent-1", "ns", &["DaemonSet"]),
        mk_pod("app-2", "ns", &[]),
    ];
    let kept = filter_pods(pods, false);
    assert_eq!(kept.len(), 3);
    assert_eq!(kept[1].metadata.name, "agent-1");
}

#[test]
fn work_pool_never_passes_its_limit() {
    let mut pool = WorkPool::new(3);
    let mut peak = 0;
    let mut held = 0;
    for _ in 0..10 {
        if pool.try_acquire() {
            held += 1;
        }
        if pool.active_count() > peak {
            peak = pool.active_count();
        }
    }
    assert_eq!(held, 3);
    assert_eq!(peak, 3);
    assert_eq!(pool.limit(), 3);
    pool.release();
    assert_eq!(pool.active_count(), 2);
    assert!(pool.try_acquire());
    assert_eq!(pool.active_count(), 3);
}

#[test]
fn dispatcher_bounds_in_flight_probes() {
    let pods = vec![
        mk_pod("p1", "ns", &[]),
        mk_pod("p2", "ns", &[]),
        mk_pod("p3", "ns", &[]),
        mk_pod("p4", "ns", &[]),
        mk_pod("p5", "ns", &[]),
    ];
    let mut d = ProbeDispatcher::new(pods, true, 2);
    let mut peak = 0;
    let mut done = Vec::new();
    while !d.is_done() {
        while d.can_dispatch() {
            let pod = d.dispatch();
            if d.in_flight_count() > peak {
                peak = d.in_flight_count();
            }
            done.push(pod.metadata.name);
        }
        let name = done.remove(0);
        d.complete(ProbeOutcome {
            pod_name: name,
            version: String::from("Unknown"),
        });
    }
    assert_eq!(peak, 2);
}

#[test]
fn dispatcher_accounts_for_every_filtered_pod() {
    let pods = vec![
        mk_pod("app-1", "ns", &[]),
        mk_pod("agent-1", "ns", &["DaemonSet"]),
        mk_pod("app-2", "ns", &[]),
    ];
    let mut d = ProbeDispatcher::new(pods, true, 4);
    let mut names = Vec::new();
    while d.can_dispatch() {
        names.push(d.dispatch().metadata.name);
    }
    assert_eq!(names, vec![String::from("app-1"), String::from("app-2")]);
    for name in names {
        d.complete(ProbeOutcome {
            pod_name: name,
            version: String::from("11.0.16"),
        });
    }
    assert!(d.is_done());
}

#[test]
fn record_namespace_counts_totals_and_matches() {
    let mut result = ScanResult::new();
    let pods = vec![
        mk_pod("a", "ns-one", &[]),
        mk_pod("b", "ns-one", &[]),
        mk_pod("c", "ns-one", &[]),
    ];
    let mut d = ProbeDispatcher::new(pods, true, 3);
    let mut names = Vec::new();
    while d.can_dispatch() {
        names.push(d.dispatch().metadata.name);
    }
    let versions = ["11.0.16", "Unknown", "17.0.2"];
    for (name, ver) in names.into_iter().zip(versions.iter()) {
        d.complete(ProbeOutcome {
            pod_name: name,
            version: String::from(*ver),
        });
    }
    record_namespace(&mut result, String::from("ns-one"), d);
    assert_eq!(result.total_pods, 3);
    assert_eq!(result.jdk_pods, 2);
    assert_eq!(result.namespace_stats.len(), 1);
    assert_eq!(result.namespace_stats[0].0, "ns-one");
    assert_eq!(result.namespace_stats[0].1.total_pods, 3);
    assert_eq!(result.namespace_stats[0].1.jdk_pods, 2);
    assert!(result.has_namespace("ns-one"));
    assert!(!result.has_namespace("ns-two"));
    let rows = &result.pod_versions[0].1;
    assert_eq!(rows.len(), 2);
    assert_eq!(rows[0], (String::from("a"), String::from("11.0.16")));
    assert_eq!(rows[1], (String::from("c"), String::from("17.0.2")));
}

#[test]
fn timed_out_probe_is_counted_but_not_mapped() {
    let mut result = ScanResult::new();
    let pods = vec![mk_pod("slow", "ns", &[]), mk_pod("fast", "ns", &[])];
    let mut d = ProbeDispatcher::new(pods, true, 2);
    let slow = d.dispatch();
    let fast = d.dispatch();
    let timed_out: Result<CommandOutput, ProbeError> = Err(ProbeError::Timeout);
    d.complete(ProbeOutcome {
        pod_name: slow.metadata.name,
        version: version_from_probe(&timed_out),
    });
    let ok: Result<CommandOutput, ProbeError> = Ok(CommandOutput {
        stdout: String::new(),
        stderr: String::from(r#"openjdk version "21" 2023-09-19"#),
    });
    d.complete(ProbeOutcome {
        pod_name: fast.metadata.name,
        version: version_from_probe(&ok),
    });
    record_namespace(&mut result, String::from("ns"), d);
    assert_eq!(result.total_pods, 2);
    assert_eq!(result.jdk_pods, 1);
    assert_eq!(result.namespace_stats[0].1.total_pods, 2);
    let rows = &result.pod_versions[0].1;
    assert_eq!(rows.len(), 1);
    assert_eq!(rows[0], (String::from("fast"), String::from("21")));
}

#[test]
fn namespace_with_no_match_leaves_no_version_entry() {
    let mut result = ScanResult::new();
    let pods = vec![mk_pod("a", "ns", &[])];
    let mut d = ProbeDispatcher::new(pods, true, 1);
    let pod = d.dispatch();
    d.complete(ProbeOutcome {
        pod_name: pod.metadata.name,
        version: String::from("Unknown"),
    });
    record_namespace(&mut result, String::from("ns"), d);
    assert_eq!(result.total_pods, 1);
    assert_eq!(result.jdk_pods, 0);
    assert_eq!(result.namespace_stats.len(), 1);
    assert!(result.pod_versions.is_empty());
}

#[test]
fn global_counters_are_sums_over_namespaces() {
    let mut result = ScanResult::new();
    for (ns, matched, missed) in [("ns-a", 2, 1), ("ns-b", 0, 3), ("ns-c", 1, 0)] {
        let mut pods = Vec::new();
        for i in 0..(matched + missed) {
            pods.push(mk_pod(&format!("pod-{i}"), ns, &[]));
        }
        let mut d = ProbeDispatcher::new(pods, true, 5);
        let mut names = Vec::new();
        while d.can_dispatch() {
            names.push(d.dispatch().metadata.name);
        }
        for (i, name) in names.into_iter().enumerate() {
            let version = if i < matched { "11.0.16" } else { "Unknown" };
            d.complete(ProbeOutcome {
                pod_name: name,
                version: String::from(version),
            });
        }
        record_namespace(&mut result, String::from(ns), d);
    }
    assert_eq!(result.total_pods, 7);
    assert_eq!(result.jdk_pods, 3);
    let total: usize = result.namespace_stats.iter().map(|e| e.1.total_pods).sum();
    let jdk: usize = result.namespace_stats.iter().map(|e| e.1.jdk_pods).sum();
    assert_eq!(result.total_pods, total);
    assert_eq!(result.jdk_pods, jdk);
}

#[test]
fn scan_result_starts_empty() {
    let r = ScanResult::new();
    assert_eq!(r.total_pods, 0);
    assert_eq!(r.jdk_pods, 0);
    assert!(r.namespace_stats.is_empty());
    assert!(r.pod_versions.is_empty());
    let d = ScanResult::default();
    assert_eq!(d.total_pods, 0);
    assert_eq!(d.jdk_pods, 0);
}

#[test]
fn scanner_keeps_its_configuration() {
    let config = Config {
        namespaces: vec![String::from("prod"), String::from("staging")],
        max_concurrent: 20,
        timeout: 30,
        skip_daemonset: true,
        verbose: false,
        output: None,
    };
    let scanner = Scanner::new(config);
    assert_eq!(scanner.config().namespaces.len(), 2);
    assert_eq!(scanner.config().max_concurrent, 20);
    assert!(scanner.config().skip_daemonset);
}

#[test]
fn timeout_duration_is_whole_seconds() {
    let config = Config {
        namespaces: vec![String::from("default")],
        max_concurrent: 20,
        timeout: 30,
        skip_daemonset: true,
        verbose: false,
        output: None,
    };
    assert_eq!(config.timeout_duration(), std::time::Duration::from_secs(30));
}
