use dcompose_watch::cli::{compose_down_args, compose_up_args};
use dcompose_watch::model::{create_relationship, delete_relationship, ServiceRelationship};

#[test]
fn compose_arguments() {
    assert_eq!(compose_up_args("shop", None), vec!["--project-name", "shop", "up", "-d"]);
    assert_eq!(
        compose_up_args("shop", Some("web")),
        vec!["--project-name", "shop", "up", "-d", "web"]
    );
    assert_eq!(compose_down_args(None), vec!["down"]);
    assert_eq!(compose_down_args(Some("db")), vec!["down", "db"]);
}

fn pairs(v: &[ServiceRelationship]) -> Vec<(String, String)> {
    v.iter().map(|r| (r.source.clone(), r.target.clone())).collect()
}

#[test]
fn relationships_add_and_delete() {
    let mut v: Vec<ServiceRelationship> = Vec::new();
    create_relationship(&mut v, "web", "db");
    create_relationship(&mut v, "web", "mq");
    create_relationship(&mut v, "web", "db");
    let v = delete_relationship(v, "web", "db");
    assert_eq!(pairs(&v), vec![("web".to_string(), "mq".to_string())]);
    let v = delete_relationship(v, "db", "web");
    assert_eq!(v.len(), 1);
}
