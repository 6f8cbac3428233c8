use std::cmp::Ordering;

use mega::node::Model;

fn model(id: i64, node_type: &str, full_path: &str, size: i32) -> Model {
    Model {
        id,
        node_id: id,
        git_id: format!("id{}", id),
        node_type: node_type.to_string(),
        name: Some(format!("Name{}", id)),
        mode: vec![],
        content_sha: None,
        size,
        repo_path: "path".to_string(),
        full_path: full_path.to_string(),
        created_at: chrono::Utc::now().naive_utc(),
        updated_at: chrono::Utc::now().naive_utc(),
        last_commit: "no commit".to_string(),
    }
}

#[test]
fn test_nodes_sort() {
    let model1 = Model {
        id: 1,
        node_id: 1,
        git_id: "id1".to_string(),
        node_type: "blob".to_string(),
        name: Some("Name1".to_string()),
        mode: vec![],
        content_sha: None,
        size: 10,
        repo_path: "path1".to_string(),
        full_path: "fullpath1".to_string(),
        created_at: chrono::Utc::now().naive_utc(),
        updated_at: chrono::Utc::now().naive_utc(),
        last_commit: "no commit".to_string(),
    };

    let model2 = Model {
        id: 2,
        node_id: 2,
        git_id: "id2".to_string(),
        node_type: "tree".to_string(),
        name: Some("Name2".to_string()),
        mode: vec![],
        content_sha: None,
        size: 20,
        repo_path: "path2".to_string(),
        full_path: "fullpath2".to_string(),
        created_at: chrono::Utc::now().naive_utc(),
        updated_at: chrono::Utc::now().naive_utc(),
        last_commit: "no commit".to_string(),
    };
    let model3 = Model {
        id: 3,
        node_id: 3,
        git_id: "id2".to_string(),
        node_type: "tree".to_string(),
        name: Some("Name2".to_string()),
        mode: vec![],
        content_sha: None,
        size: 30,
        repo_path: "path2".to_string(),
        full_path: "fullpath1".to_string(),
        created_at: chrono::Utc::now().naive_utc(),
        updated_at: chrono::Utc::now().naive_utc(),
        last_commit: "no commit".to_string(),
    };
    let model4 = Model {
        id: 4,
        node_id: 4,
        git_id: "id2".to_string(),
        node_type: "tree".to_string(),
        name: Some("Name2".to_string()),
        mode: vec![],
        content_sha: None,
        size: 40,
        repo_path: "path2".to_string(),
        full_path: "fullpath2".to_string(),
        created_at: chrono::Utc::now().naive_utc(),
        updated_at: chrono::Utc::now().naive_utc(),
        last_commit: "no commit".to_string(),
    };

    let mut nodes = vec![model1, model2, model3, model4];
    nodes.sort_by(|a, b| a.cmp(b));
    println!("{:?}", nodes);
}

#[test]
fn sorted_nodes_follow_type_path_size() {
    let mut nodes = vec![
        model(1, "blob", "fullpath1", 10),
        model(2, "tree", "fullpath2", 20),
        model(3, "tree", "fullpath1", 30),
        model(4, "tree", "fullpath2", 40),
    ];
    nodes.sort_by(|a, b| a.cmp(b));
    let ids: Vec<i64> = nodes.iter().map(|n| n.id).collect();
    assert_eq!(ids, vec![3, 2, 4, 1]);
}

#[test]
fn type_order_is_commit_tree_blob_tag() {
    let kinds = ["commit", "tree", "blob", "tag"];
    for (i, a) in kinds.iter().enumerate() {
        for (j, b) in kinds.iter().enumerate() {
            let x = model(1, a, "same", 1);
            let y = model(2, b, "same", 1);
            assert_eq!(x.cmp(&y), i.cmp(&j), "{} vs {}", a, b);
        }
    }
}

#[test]
fn unknown_type_on_the_right_sorts_between_blob_and_tag() {
    let other = model(9, "weird", "p", 1);
    assert_eq!(model(1, "commit", "p", 1).cmp(&other), Ordering::Less);
    assert_eq!(model(1, "tree", "p", 1).cmp(&other), Ordering::Less);
    assert_eq!(model(1, "blob", "p", 1).cmp(&other), Ordering::Less);
    assert_eq!(model(1, "tag", "p", 1).cmp(&other), Ordering::Greater);
}

#[test]
fn same_type_orders_by_path_then_size() {
    assert_eq!(model(1, "blob", "a/b", 5).cmp(&model(2, "blob", "a/c", 1)), Ordering::Less);
    assert_eq!(model(1, "blob", "a", 5).cmp(&model(2, "blob", "a/c", 1)), Ordering::Less);
    assert_eq!(model(1, "blob", "b", 5).cmp(&model(2, "blob", "a/c", 1)), Ordering::Greater);
    assert_eq!(model(1, "blob", "a", -3).cmp(&model(2, "blob", "a", 2)), Ordering::Less);
    assert_eq!(model(1, "blob", "a", 2).cmp(&model(2, "blob", "a", 2)), Ordering::Equal);
    assert_eq!(model(1, "blob", "é", 2).cmp(&model(2, "blob", "z", 2)), "é".cmp("z"));
}

#[test]
fn order_is_antisymmetric_and_reflexive() {
    let a = model(1, "tree", "x", 3);
    let b = model(2, "tag", "a", 1);
    assert_eq!(a.cmp(&b), b.cmp(&a).reverse());
    assert_eq!(a.cmp(&a), Ordering::Equal);
    assert_eq!(a.partial_cmp(&b), Some(Ordering::Less));
}

#[test]
fn order_is_transitive_on_samples() {
    let a = model(1, "commit", "z", 9);
    let b = model(2, "tree", "a", 1);
    let c = model(3, "tree", "b", 0);
    assert_eq!(a.cmp(&b), Ordering::Less);
    assert_eq!(b.cmp(&c), Ordering::Less);
    assert_eq!(a.cmp(&c), Ordering::Less);
}
