use jvs::pool::ProbeDispatcher;
use jvs::probe::{version_from_probe, CommandOutput, ProbeError, ProbeOutcome};
use jvs::report::{
    pad_right, ratio_permille, ratio_string, render_csv, render_results, sort_by_namespace,
    str_le, u64_to_string, usize_to_string,
};
use jvs::scanner::record_namespace;
use jvs::types::{NamespaceStats, OwnerReference, Pod, PodMetadata, ScanResult};

fn plain_pod(name: &str, namespace: &str) -> Pod {
    Pod {
        metadata: PodMetadata {
            name: String::from(name),
            namespace: String::from(namespace),
        },
        owner_references: Vec::new(),
    }
}

fn daemonset_pod(name: &str, namespace: &str) -> Pod {
    Pod {
        metadata: PodMetadata {
            name: String::from(name),
            namespace: String::from(namespace),
        },
        owner_references: vec![OwnerReference {
            kind: String::from("DaemonSet"),
        }],
    }
}

#[test]
fn decimal_rendering_is_exact() {
    assert_eq!(usize_to_string(0), "0");
    assert_eq!(usize_to_string(7), "7");
    assert_eq!(usize_to_string(10), "10");
    assert_eq!(usize_to_string(90210), "90210");
    assert_eq!(u64_to_string(1000000), "1000000");
}

#[test]
fn padding_fills_to_width_and_never_truncates() {
    assert_eq!(pad_right("ab", 5), "ab   ");
    assert_eq!(pad_right("abcdef", 3), "abcdef");
    assert_eq!(pad_right("", 2), "  ");
}

#[test]
fn ratio_has_one_decimal_place() {
    assert_eq!(ratio_permille(0, 0), 0);
    assert_eq!(ratio_permille(1, 2), 500);
    assert_eq!(ratio_permille(1, 3), 333);
    assert_eq!(ratio_permille(2, 3), 667);
    assert_eq!(ratio_permille(3, 3), 1000);
    assert_eq!(ratio_string(1, 2), "50.0%");
    assert_eq!(ratio_string(2, 3), "66.7%");
    assert_eq!(ratio_string(0, 5), "0.0%");
    assert_eq!(ratio_string(5, 5), "100.0%");
    assert_eq!(ratio_string(0, 0), "0.0%");
}

#[test]
fn namespaces_sort_lexicographically() {
    assert!(str_le("abc", "abd"));
    assert!(str_le("ab", "abc"));
    assert!(!str_le("abc", "ab"));
    assert!(str_le("ns-a", "ns-a"));
    let stats = |n: usize| NamespaceStats {
        total_pods: n,
        jdk_pods: 0,
    };
    let v = vec![
        (String::from("staging"), stats(1)),
        (String::from("dev"), stats(2)),
        (String::from("prod"), stats(3)),
    ];
    let sorted = sort_by_namespace(v);
    let names: Vec<&str> = sorted.iter().map(|e| e.0.as_str()).collect();
    assert_eq!(names, vec!["dev", "prod", "staging"]);
    assert_eq!(sorted[0].1.total_pods, 2);
}

#[test]
fn csv_export_is_exact() {
    let mut result = ScanResult::new();
    let mut d = ProbeDispatcher::new(vec![plain_pod("api-1", "ns-b")], true, 1);
    let pod = d.dispatch();
    let ok: Result<CommandOutput, ProbeError> = Ok(CommandOutput {
        stdout: String::new(),
        stderr: String::from(r#"openjdk version "17.0.2" 2022-01-18"#),
    });
    d.complete(ProbeOutcome {
        pod_name: pod.metadata.name,
        version: version_from_probe(&ok),
    });
    record_namespace(&mut result, String::from("ns-b"), d);
    let csv = render_csv(&result, 65);
    let expected = "INDEX,NAMESPACE,POD,JAVA_VERSION\n\
                    1,ns-b,api-1,17.0.2\n\
                    \n\
                    # Scan Summary\n\
                    # Total pods scanned: 1\n\
                    # Pods using JDK: 1\n\
                    # Time taken: 1m 5s\n";
    assert_eq!(csv, expected);
}

#[test]
fn fleet_scan_scenario_counts_and_exports() {
    // ns-a: three pods, two DaemonSet-owned, skipping enabled; the one
    // probed pod times out. ns-b: one pod whose probe reports 17.0.2.
    let mut result = ScanResult::new();

    let ns_a_pods = vec![
        plain_pod("app-1", "ns-a"),
        daemonset_pod("agent-1", "ns-a"),
        daemonset_pod("agent-2", "ns-a"),
    ];
    let mut d = ProbeDispatcher::new(ns_a_pods, true, 20);
    let pod = d.dispatch();
    assert_eq!(pod.metadata.name, "app-1");
    assert!(!d.can_dispatch());
    let timed_out: Result<CommandOutput, ProbeError> = Err(ProbeError::Timeout);
    d.complete(ProbeOutcome {
        pod_name: pod.metadata.name,
        version: version_from_probe(&timed_out),
    });
    assert!(d.is_done());
    record_namespace(&mut result, String::from("ns-a"), d);

    let ns_b_pods = vec![plain_pod("api-1", "ns-b")];
    let mut d = ProbeDispatcher::new(ns_b_pods, true, 20);
    let pod = d.dispatch();
    let ok: Result<CommandOutput, ProbeError> = Ok(CommandOutput {
        stdout: String::new(),
        stderr: String::from(r#"openjdk version "17.0.2" 2022-01-18"#),
    });
    d.complete(ProbeOutcome {
        pod_name: pod.metadata.name,
        version: version_from_probe(&ok),
    });
    record_namespace(&mut result, String::from("ns-b"), d);

    assert_eq!(result.total_pods, 2);
    assert_eq!(result.jdk_pods, 1);
    assert_eq!(result.namespace_stats.len(), 2);
    assert_eq!(result.namespace_stats[0].1.total_pods, 1);
    assert_eq!(result.namespace_stats[0].1.jdk_pods, 0);
    assert_eq!(result.namespace_stats[1].1.total_pods, 1);
    assert_eq!(result.namespace_stats[1].1.jdk_pods, 1);

    let csv = render_csv(&result, 9);
    let data_section = csv
        .split("\n\n")
        .next()
        .expect("the export starts with the data section");
    let data_rows: Vec<&str> = data_section.lines().skip(1).collect();
    assert_eq!(data_rows, vec!["1,ns-b,api-1,17.0.2"]);
}

#[test]
fn rendered_report_is_exact_on_a_small_scan() {
    let mut result = ScanResult::new();
    let mut d = ProbeDispatcher::new(
        vec![plain_pod("pod-a", "ns"), plain_pod("pod-b", "ns")],
        true,
        2,
    );
    let a = d.dispatch();
    let b = d.dispatch();
    d.complete(ProbeOutcome {
        pod_name: a.metadata.name,
        version: String::from("11.0.16"),
    });
    d.complete(ProbeOutcome {
        pod_name: b.metadata.name,
        version: String::from("Unknown"),
    });
    record_namespace(&mut result, String::from("ns"), d);

    let report = render_results(&result, 5);
    let expected = "\n\
                    INDEX  NAMESPACE  POD    JAVA_VERSION  \n\
                    1      ns         pod-a  11.0.16       \n\
                    \n\
                    NAMESPACE  TOTAL PODS  JDK PODS  RATIO   TIME\n\
                    ns         2           1         50.0%   0m 5s\n";
    assert_eq!(report, expected);
}

#[test]
fn rendered_report_sorts_namespaces() {
    let mut result = ScanResult::new();
    for ns in ["zeta", "alpha", "mid"] {
        let mut d = ProbeDispatcher::new(vec![plain_pod("p", ns)], true, 1);
        let pod = d.dispatch();
        d.complete(ProbeOutcome {
            pod_name: pod.metadata.name,
            version: String::from("Unknown"),
        });
        record_namespace(&mut result, String::from(ns), d);
    }
    let report = render_results(&result, 0);
    let alpha = report.find("alpha").expect("alpha is in the summary");
    let mid = report.find("mid").expect("mid is in the summary");
    let zeta = report.find("zeta").expect("zeta is in the summary");
    assert!(alpha < mid && mid < zeta);
}
