use kube_workload::error::Error;
use kube_workload::labels::build_label_selector;
use kube_workload::last_modified_key;
use kube_workload::patch::build_scale_patch;
use kube_workload::pods::{resolve_pod_ips, PodPhase, PodRecord};
use kube_workload::strmap::StringMap;
use kube_workload::timestamp::Timestamp;
use kube_workload::workload::{object_from_record, objects_from_records, WorkloadRecord};

fn record(
    namespace: &str,
    name: &str,
    replicas: Option<u32>,
    labels: Option<Vec<(&str, &str)>>,
    annotations: Vec<(&str, &str)>,
) -> WorkloadRecord {
    WorkloadRecord {
        namespace: namespace.to_string(),
        name: name.to_string(),
        replicas,
        template_labels: labels.map(|pairs| {
            pairs.into_iter().map(|(k, v)| (k.to_string(), v.to_string())).collect()
        }),
        annotations: annotations
            .into_iter()
            .map(|(k, v)| (k.to_string(), v.to_string()))
            .collect(),
    }
}

fn pod(name: &str, phase: PodPhase, ip: Option<&str>) -> PodRecord {
    PodRecord { name: name.to_string(), phase, ip: ip.map(|s| s.to_string()) }
}

#[test]
fn empty_map_yields_empty_selector() {
    let m = StringMap::new();
    assert_eq!(build_label_selector(&m), "");
}

#[test]
fn selector_joins_sorted_pairs() {
    let mut m = StringMap::new();
    m.insert("app".to_string(), "foo".to_string());
    m.insert("tier".to_string(), "web".to_string());
    assert_eq!(build_label_selector(&m), "app=foo,tier=web");
}

#[test]
fn selector_is_insertion_order_independent() {
    let mut a = StringMap::new();
    a.insert("tier".to_string(), "web".to_string());
    a.insert("app".to_string(), "foo".to_string());
    a.insert("zone".to_string(), "eu".to_string());
    let mut b = StringMap::new();
    b.insert("zone".to_string(), "eu".to_string());
    b.insert("app".to_string(), "foo".to_string());
    b.insert("tier".to_string(), "web".to_string());
    assert_eq!(build_label_selector(&a), build_label_selector(&b));
    assert_eq!(build_label_selector(&a), "app=foo,tier=web,zone=eu");
}

#[test]
fn insert_replaces_earlier_binding() {
    let mut m = StringMap::new();
    m.insert("app".to_string(), "old".to_string());
    m.insert("app".to_string(), "new".to_string());
    assert_eq!(build_label_selector(&m), "app=new");
    assert_eq!(m.pair_count(), 1);
}

#[test]
fn from_pairs_later_pair_wins() {
    let pairs = vec![
        ("app".to_string(), "first".to_string()),
        ("app".to_string(), "second".to_string()),
    ];
    let m = StringMap::from_pairs(&pairs);
    assert_eq!(m.get("app").map(|s| s.as_str()), Some("second"));
    assert_eq!(m.pair_count(), 1);
}

#[test]
fn get_absent_key_is_none() {
    let mut m = StringMap::new();
    m.insert("app".to_string(), "foo".to_string());
    assert!(m.get("missing").is_none());
}

#[test]
fn keys_iterate_in_sorted_order() {
    let mut m = StringMap::new();
    m.insert("m".to_string(), "3".to_string());
    m.insert("a".to_string(), "1".to_string());
    m.insert("b".to_string(), "2".to_string());
    assert_eq!(m.pair_count(), 3);
    assert_eq!(m.key_at(0).as_str(), "a");
    assert_eq!(m.key_at(1).as_str(), "b");
    assert_eq!(m.key_at(2).as_str(), "m");
    assert_eq!(m.value_at(2).as_str(), "3");
}

#[test]
fn replicas_reads_declared_count() {
    let obj = object_from_record(&record("prod", "db-0", Some(3), None, vec![]));
    assert_eq!(obj.replicas(), Ok(3));
}

#[test]
fn replicas_missing_spec_field() {
    let obj = object_from_record(&record("prod", "db-0", None, None, vec![]));
    assert_eq!(obj.replicas(), Err(Error::SpecFieldMissing));
}

#[test]
fn identity_is_namespace_and_name() {
    let obj = object_from_record(&record("prod", "db-0", Some(1), None, vec![]));
    let (namespace, name) = obj.identity();
    assert_eq!(namespace, "prod");
    assert_eq!(name, "db-0");
}

#[test]
fn last_modified_absent_is_none() {
    let obj = object_from_record(&record("prod", "db-0", Some(1), None, vec![]));
    assert_eq!(obj.last_modified(), Ok(None));
}

#[test]
fn last_modified_parses_utc_timestamp() {
    let obj = object_from_record(&record(
        "prod",
        "db-0",
        Some(1),
        None,
        vec![(last_modified_key(), "2020-01-01T00:00:00Z")],
    ));
    let stamp = obj.last_modified().unwrap().unwrap();
    assert_eq!(stamp.secs, 1577836800);
    assert_eq!(stamp.nanos, 0);
}

#[test]
fn last_modified_normalizes_offsets() {
    let obj = object_from_record(&record(
        "prod",
        "db-0",
        Some(1),
        None,
        vec![(last_modified_key(), "2020-01-01T01:00:00+01:00")],
    ));
    let stamp = obj.last_modified().unwrap().unwrap();
    assert_eq!(stamp.secs, 1577836800);
}

#[test]
fn last_modified_malformed_annotation() {
    let obj = object_from_record(&record(
        "prod",
        "db-0",
        Some(1),
        None,
        vec![(last_modified_key(), "not-a-timestamp")],
    ));
    assert_eq!(obj.last_modified(), Err(Error::AnnotationMalformed));
}

#[test]
fn patch_body_exact_shape() {
    let body = build_scale_patch("2020-01-01T00:00:00Z", 5);
    let expected = "{\"metadata\":{\"annotations\":{\"workload-autoscaler/last_modified\":\"2020-01-01T00:00:00Z\"}},\"spec\":{\"replicas\":5}}";
    assert_eq!(body, expected);
}

#[test]
fn patch_body_escapes_stamp_text() {
    let body = build_scale_patch("a\"b\\c", 1);
    assert!(body.contains("\"a\\\"b\\\\c\""));
}

#[test]
fn patch_body_escapes_control_characters() {
    let body = build_scale_patch("a\u{1}b\u{1f}c", 1);
    assert!(body.contains("\"a\\u0001b\\u001fc\""));
}

#[test]
fn patch_body_replica_extremes() {
    assert!(build_scale_patch("T", 0).contains("\"replicas\":0}}"));
    assert!(build_scale_patch("T", u32::MAX).contains("\"replicas\":4294967295}}"));
}

#[test]
fn scale_patch_carries_target_and_fresh_stamp() {
    let obj = object_from_record(&record("prod", "db-0", Some(1), None, vec![]));
    let patch = obj.scale_patch(5).unwrap();
    assert!(patch.body.contains("\"spec\":{\"replicas\":5}"));
    assert!(patch.body.contains("workload-autoscaler/last_modified"));
    assert!(patch.body.contains(patch.stamp_text.as_str()));
}

#[test]
fn scale_then_fresh_read_yields_target() {
    let obj = object_from_record(&record("prod", "db-0", Some(1), None, vec![]));
    let patch = obj.scale_patch(5).unwrap();
    let rescaled = obj.with_scale_applied(5, patch.stamp_text.as_str());
    assert_eq!(rescaled.replicas(), Ok(5));
    assert_eq!(rescaled.last_modified(), Ok(Some(patch.stamp)));
}

#[test]
fn successive_scales_keep_time_order() {
    let obj = object_from_record(&record("prod", "db-0", Some(1), None, vec![]));
    let first = obj.scale_patch(2).unwrap();
    let once = obj.with_scale_applied(2, first.stamp_text.as_str());
    let t1 = once.last_modified().unwrap().unwrap();
    let second = once.scale_patch(3).unwrap();
    let twice = once.with_scale_applied(3, second.stamp_text.as_str());
    let t2 = twice.last_modified().unwrap().unwrap();
    assert!(t1.le(&t2));
}

#[test]
fn fixed_stamps_keep_time_order() {
    let obj = object_from_record(&record("prod", "db-0", Some(1), None, vec![]));
    let once = obj.with_scale_applied(2, "2023-05-01T10:00:00Z");
    let twice = once.with_scale_applied(3, "2023-05-01T10:00:01Z");
    let t1 = once.last_modified().unwrap().unwrap();
    let t2 = twice.last_modified().unwrap().unwrap();
    assert!(t1.le(&t2));
    assert!(!t2.le(&t1));
}

#[test]
fn timestamp_order_compares_nanos_within_second() {
    let a = Timestamp { secs: 10, nanos: 1 };
    let b = Timestamp { secs: 10, nanos: 2 };
    assert!(a.le(&b));
    assert!(!b.le(&a));
    assert!(a.le(&a));
}

#[test]
fn pod_ips_keep_running_pods_with_addresses() {
    let pods = vec![
        pod("db-0", PodPhase::Running, Some("10.0.0.1")),
        pod("db-1", PodPhase::Running, Some("10.0.0.2")),
        pod("db-2", PodPhase::Pending, None),
    ];
    let ips = resolve_pod_ips(&pods);
    assert_eq!(ips, vec!["10.0.0.1".to_string(), "10.0.0.2".to_string()]);
}

#[test]
fn pod_ips_drop_other_phases_and_missing_addresses() {
    let pods = vec![
        pod("a", PodPhase::Succeeded, Some("10.0.0.3")),
        pod("b", PodPhase::Failed, Some("10.0.0.4")),
        pod("c", PodPhase::Unknown, Some("10.0.0.5")),
        pod("d", PodPhase::Running, Some("")),
        pod("e", PodPhase::Running, None),
        pod("f", PodPhase::Running, Some("10.0.0.6")),
    ];
    let ips = resolve_pod_ips(&pods);
    assert_eq!(ips, vec!["10.0.0.6".to_string()]);
}

#[test]
fn empty_listing_yields_empty_sequence() {
    let records: Vec<WorkloadRecord> = Vec::new();
    let objects = objects_from_records(&records);
    assert!(objects.is_empty());
}

#[test]
fn listing_canonicalizes_template_labels() {
    let records = vec![record(
        "prod",
        "db-0",
        Some(2),
        Some(vec![("tier", "web"), ("app", "foo")]),
        vec![],
    )];
    let objects = objects_from_records(&records);
    assert_eq!(objects.len(), 1);
    assert_eq!(objects[0].pod_selector(), Ok("app=foo,tier=web".to_string()));
}

#[test]
fn pod_selector_missing_template_labels() {
    let obj = object_from_record(&record("prod", "db-0", Some(2), None, vec![]));
    assert_eq!(obj.pod_selector(), Err(Error::SpecFieldMissing));
}

#[test]
fn error_messages_name_the_failure() {
    assert_eq!(Error::TransportError.message(), "transport failure");
    assert_eq!(Error::SpecFieldMissing.message(), "required spec field is missing");
    assert_eq!(Error::AnnotationMalformed.message(), "last-modified annotation is malformed");
    assert_eq!(Error::SerializationError.message(), "patch body could not be encoded");
}
