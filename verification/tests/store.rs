use im_bridge::db::{ClusterStore, Group, StoreError, IM};

fn ids(targets: &[Group]) -> Vec<String> {
    let mut v: Vec<String> = targets.iter().map(|g| g.id.clone()).collect();
    v.sort();
    v
}

#[test]
fn from_qq_renders_the_code_in_decimal() {
    let g = Group::from_qq(123);
    assert!(matches!(g.im, IM::QQ));
    assert_eq!(g.id, "123");
    assert_eq!(Group::from_qq(0).id, "0");
    assert_eq!(Group::from_qq(-5).id, "-5");
}

#[test]
fn group_equality_is_by_network_and_id() {
    assert!(Group::from_qq(1) == Group::from_qq(1));
    assert!(Group::from_qq(1) != Group::from_qq(2));
}

#[test]
fn duplicate_cluster_name_is_refused() {
    let mut store = ClusterStore::default();
    assert!(store.insert_cluster("alpha".to_string()).is_ok());
    assert_eq!(
        store.insert_cluster("alpha".to_string()),
        Err(StoreError::DuplicateName)
    );
}

#[test]
fn new_cluster_appears_in_the_listing() {
    let mut store = ClusterStore::default();
    let name = store.new_cluster().expect("an empty store accepts a fresh name");
    let names = store.list_names();
    assert!(names.contains(&name));
}

#[test]
fn list_names_has_each_cluster_once() {
    let mut store = ClusterStore::default();
    store.insert_cluster("alpha".to_string()).unwrap();
    store.insert_cluster("beta".to_string()).unwrap();
    let mut names = store.list_names();
    names.sort();
    assert_eq!(names, vec!["alpha".to_string(), "beta".to_string()]);
}

#[test]
fn pair_in_one_cluster_see_each_other() {
    let mut store = ClusterStore::default();
    store.insert_cluster("c".to_string()).unwrap();
    let g1 = Group::from_qq(11);
    let g2 = Group::from_qq(22);
    store.join(&"c".to_string(), &g1).unwrap();
    store.join(&"c".to_string(), &g2).unwrap();
    assert_eq!(ids(&store.forward_targets(&g1)), vec!["22".to_string()]);
    assert_eq!(ids(&store.forward_targets(&g2)), vec!["11".to_string()]);
}

#[test]
fn join_twice_changes_nothing_more() {
    let mut store = ClusterStore::default();
    store.insert_cluster("c".to_string()).unwrap();
    let g1 = Group::from_qq(11);
    let g2 = Group::from_qq(22);
    store.join(&"c".to_string(), &g1).unwrap();
    store.join(&"c".to_string(), &g2).unwrap();
    assert!(store.join(&"c".to_string(), &g1).is_ok());
    assert_eq!(ids(&store.forward_targets(&g2)), vec!["11".to_string()]);
    assert_eq!(ids(&store.forward_targets(&g1)), vec!["22".to_string()]);
}

#[test]
fn joining_a_nonexistent_cluster_fails_and_changes_nothing() {
    let mut store = ClusterStore::default();
    store.insert_cluster("c".to_string()).unwrap();
    let g1 = Group::from_qq(11);
    store.join(&"c".to_string(), &g1).unwrap();
    assert_eq!(
        store.join(&"nonexistent".to_string(), &Group::from_qq(99)),
        Err(StoreError::NoSuchCluster)
    );
    let mut names = store.list_names();
    names.sort();
    assert_eq!(names, vec!["c".to_string()]);
    assert!(store.forward_targets(&Group::from_qq(99)).is_empty());
    assert!(store.forward_targets(&g1).is_empty());
}

#[test]
fn targets_union_over_clusters_and_dedup() {
    let mut store = ClusterStore::default();
    store.insert_cluster("one".to_string()).unwrap();
    store.insert_cluster("two".to_string()).unwrap();
    let g1 = Group::from_qq(1);
    let g2 = Group::from_qq(2);
    let g3 = Group::from_qq(3);
    let g4 = Group::from_qq(4);
    for g in [&g1, &g2, &g3] {
        store.join(&"one".to_string(), g).unwrap();
    }
    for g in [&g1, &g3, &g4] {
        store.join(&"two".to_string(), g).unwrap();
    }
    assert_eq!(
        ids(&store.forward_targets(&g1)),
        vec!["2".to_string(), "3".to_string(), "4".to_string()]
    );
    assert_eq!(ids(&store.forward_targets(&g4)), vec!["1".to_string(), "3".to_string()]);
}

#[test]
fn a_group_in_no_cluster_has_no_targets() {
    let mut store = ClusterStore::default();
    store.insert_cluster("c".to_string()).unwrap();
    store.join(&"c".to_string(), &Group::from_qq(1)).unwrap();
    assert!(store.forward_targets(&Group::from_qq(77)).is_empty());
}

#[test]
fn a_lone_member_has_no_targets() {
    let mut store = ClusterStore::default();
    store.insert_cluster("c".to_string()).unwrap();
    let g = Group::from_qq(5);
    store.join(&"c".to_string(), &g).unwrap();
    assert!(store.forward_targets(&g).is_empty());
}

#[test]
fn from_qq_handles_the_extreme_codes() {
    assert_eq!(Group::from_qq(i64::MAX).id, "9223372036854775807");
    assert_eq!(Group::from_qq(i64::MIN).id, "-9223372036854775808");
}
