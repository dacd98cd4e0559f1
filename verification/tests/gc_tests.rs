use podci::gc::plan_prune_volumes_at;
use podci::gc::select_prune_candidates_at;
use podci::gc::PrunePolicy;
use podci::gc::Resource;
use podci::gc::VolumeMeta;

const DAY_MS: i64 = 86_400_000;

#[test]
fn keeps_newest_n() {
    let now: i64 = 1_760_000_000_000;
    let res: Vec<Resource> = (0..5)
        .map(|i| Resource {
            name: format!("r{i}"),
            created: now - (i as i64) * DAY_MS,
        })
        .collect();
    let pol = PrunePolicy { keep: 2, older_than_days: None };
    let c = select_prune_candidates_at(res, &pol, now);
    assert_eq!(c.len(), 3);
}

#[test]
fn selection_ignores_input_order() {
    let now: i64 = 1_760_000_000_000;
    let mut res: Vec<Resource> = (0..5)
        .map(|i| Resource {
            name: format!("r{i}"),
            created: now - (i as i64) * DAY_MS,
        })
        .collect();
    res.reverse();
    let pol = PrunePolicy { keep: 2, older_than_days: None };
    let c = select_prune_candidates_at(res, &pol, now);
    let names: Vec<String> = c.iter().map(|r| r.name.clone()).collect();
    assert_eq!(names, vec!["r2".to_string(), "r3".to_string(), "r4".to_string()]);
}

#[test]
fn age_cutoff_spares_recent_resources() {
    let now: i64 = 1_760_000_000_000;
    let res: Vec<Resource> = (0..5)
        .map(|i| Resource {
            name: format!("r{i}"),
            created: now - (i as i64) * DAY_MS,
        })
        .collect();
    let pol = PrunePolicy { keep: 0, older_than_days: Some(2) };
    let c = select_prune_candidates_at(res, &pol, now);
    let names: Vec<String> = c.iter().map(|r| r.name.clone()).collect();
    assert_eq!(names, vec!["r3".to_string(), "r4".to_string()]);
}

#[test]
fn prune_plan_uses_keep_policy_and_groups_by_namespace() {
    let jan: i64 = 1_767_225_600_000;
    let feb: i64 = jan + 31 * DAY_MS;
    let vols = vec![
        VolumeMeta {
            name: "podci_ns1_cargo_registry".to_string(),
            namespace: "podci_ns1".to_string(),
            created: Some(jan),
        },
        VolumeMeta {
            name: "podci_ns1_target".to_string(),
            namespace: "podci_ns1".to_string(),
            created: Some(jan),
        },
        VolumeMeta {
            name: "podci_ns2_cargo_registry".to_string(),
            namespace: "podci_ns2".to_string(),
            created: Some(feb),
        },
    ];

    let (_candidates, to_delete) = plan_prune_volumes_at(&vols, 1, None, feb + DAY_MS);
    assert_eq!(to_delete.len(), 2);
    assert!(to_delete.iter().any(|v| v == "podci_ns1_cargo_registry"));
    assert!(to_delete.iter().any(|v| v == "podci_ns1_target"));
}

#[test]
fn prune_plan_stamps_unknown_creation_with_now() {
    let now: i64 = 1_760_000_000_000;
    let vols = vec![
        VolumeMeta {
            name: "podci_old_target".to_string(),
            namespace: "podci_old".to_string(),
            created: Some(now - 10 * DAY_MS),
        },
        VolumeMeta {
            name: "podci_new_target".to_string(),
            namespace: "podci_new".to_string(),
            created: None,
        },
    ];
    let (candidates, to_delete) = plan_prune_volumes_at(&vols, 1, None, now);
    assert_eq!(candidates.len(), 1);
    assert_eq!(candidates[0].name, "podci_old");
    assert_eq!(to_delete, vec!["podci_old_target".to_string()]);
}
