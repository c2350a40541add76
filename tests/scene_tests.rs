use dcompose_watch::compose::{
    add_dependency, create_service, delete_service, get_service, include_path, remove_dependency,
    set_depends_on_condition, update_service, DockerComposeDependsOn,
    DockerComposeFile, DockerComposeIncludeEnum, DockerComposeIncludeObject,
    DockerComposeIncludeStringOrList, DockerComposeLabels, DockerComposeService, ManifestError,
};
use dcompose_watch::model::{to_service, DependsOn};
use dcompose_watch::scenes::{
    detach_scene, get_included_scenes, get_scene_service_ids, get_scene_services, import_scene,
    included_scene_name,
    SceneError,
};
use serde_yaml::Mapping;

fn service() -> DockerComposeService {
    DockerComposeService { labels: None, depends_on: None, extra: Mapping::new() }
}

fn manifest(ids: &[&str], includes: &[&str]) -> DockerComposeFile {
    DockerComposeFile {
        services: ids.iter().map(|id| (id.to_string(), service())).collect(),
        includes: if includes.is_empty() {
            None
        } else {
            Some(
                includes
                    .iter()
                    .map(|p| DockerComposeIncludeEnum::String(p.to_string()))
                    .collect(),
            )
        },
        extra: Mapping::new(),
    }
}

fn catalog(entries: Vec<(&str, DockerComposeFile)>) -> Vec<(String, DockerComposeFile)> {
    entries.into_iter().map(|(n, f)| (n.to_string(), f)).collect()
}

#[test]
fn scene_ids_include_other_scene() {
    let cat = catalog(vec![
        ("shop", manifest(&["web", "db"], &["../auth/docker-compose.yml"])),
        ("auth", manifest(&["keycloak"], &[])),
    ]);
    assert_eq!(
        get_scene_service_ids("shop", &cat).ok(),
        Some(vec!["web".to_string(), "db".to_string(), "keycloak".to_string()])
    );
}

#[test]
fn scene_ids_two_levels_without_duplicates() {
    let cat = catalog(vec![
        ("a", manifest(&["x", "y"], &["../b/docker-compose.yml", "../c/docker-compose.yml"])),
        ("b", manifest(&["z"], &["../c/docker-compose.yml"])),
        ("c", manifest(&["w", "x"], &[])),
    ]);
    assert_eq!(
        get_scene_service_ids("a", &cat).ok(),
        Some(vec!["x".to_string(), "y".to_string(), "z".to_string(), "w".to_string()])
    );
}

#[test]
fn scene_ids_cycle_is_refused() {
    let cat = catalog(vec![
        ("a", manifest(&["x"], &["../b/docker-compose.yml"])),
        ("b", manifest(&["y"], &["../a/docker-compose.yml"])),
    ]);
    match get_scene_service_ids("a", &cat) {
        Err(SceneError::CyclicInclude(n)) => assert_eq!(n, "a"),
        _ => panic!("expected a cycle"),
    }
    let cat = catalog(vec![("a", manifest(&["x"], &["docker-compose.yml"]))]);
    assert!(matches!(get_scene_service_ids("a", &cat), Err(SceneError::CyclicInclude(_))));
}

#[test]
fn scene_ids_missing_scene() {
    let cat = catalog(vec![("a", manifest(&["x"], &["../ghost/docker-compose.yml"]))]);
    match get_scene_service_ids("a", &cat) {
        Err(SceneError::SceneNotFound(n)) => assert_eq!(n, "ghost"),
        _ => panic!("expected a missing scene"),
    }
    assert!(matches!(get_scene_service_ids("nope", &cat), Err(SceneError::SceneNotFound(_))));
}

#[test]
fn include_object_paths() {
    let obj = DockerComposeIncludeEnum::Object(DockerComposeIncludeObject {
        path: Some(DockerComposeIncludeStringOrList::List(vec![
            "../b/docker-compose.yml".to_string(),
            "../c/docker-compose.yml".to_string(),
        ])),
        ..Default::default()
    });
    assert_eq!(include_path(&obj), Some("../b/docker-compose.yml".to_string()));
    let empty = DockerComposeIncludeEnum::Object(DockerComposeIncludeObject::default());
    assert_eq!(include_path(&empty), None);
}

#[test]
fn include_path_shapes() {
    assert_eq!(included_scene_name("a", "../b/docker-compose.yml"), Some("b".to_string()));
    assert_eq!(included_scene_name("a", "other.yml"), Some("a".to_string()));
    assert_eq!(included_scene_name("a", "../../x/docker-compose.yml"), None);
    assert_eq!(included_scene_name("a", "../b/"), None);
    assert_eq!(included_scene_name("a", "../b/c/d.yml"), None);
    assert_eq!(included_scene_name("a", "sub/d.yml"), None);
}

#[test]
fn included_scenes_listed_in_order() {
    let f = manifest(&["x"], &["../b/docker-compose.yml", "../c/docker-compose.yml"]);
    let names: Vec<String> = get_included_scenes("a", &f)
        .ok()
        .expect("scenes")
        .into_iter()
        .map(|s| s.name)
        .collect();
    assert_eq!(names, vec!["b".to_string(), "c".to_string()]);
    let bad = manifest(&["x"], &["sub/d.yml"]);
    assert!(matches!(get_included_scenes("a", &bad), Err(SceneError::UnsupportedInclude(_))));
}

#[test]
fn detach_drops_only_that_scene() {
    let mut f = manifest(&["x"], &["../b/docker-compose.yml", "../c/docker-compose.yml"]);
    assert!(detach_scene("a", "b", &mut f).is_ok());
    let left: Vec<Option<String>> = f.includes.as_ref().unwrap().iter().map(include_path).collect();
    assert_eq!(left, vec![Some("../c/docker-compose.yml".to_string())]);
    let mut g = manifest(&["x"], &[]);
    assert!(detach_scene("a", "b", &mut g).is_ok());
    assert!(g.includes.is_none());
}

#[test]
fn import_adds_include_entry() {
    let cat = catalog(vec![("a", manifest(&["x"], &[])), ("b", manifest(&["y"], &[]))]);
    let mut f = manifest(&["x"], &[]);
    assert!(import_scene("a", "b", &cat, &mut f).is_ok());
    let items = f.includes.as_ref().unwrap();
    assert_eq!(items.len(), 1);
    assert_eq!(include_path(&items[0]), Some("../b/docker-compose.yml".to_string()));
}

#[test]
fn import_refuses_overlapping_services() {
    let cat = catalog(vec![("a", manifest(&["x", "y"], &[])), ("b", manifest(&["y", "x", "z"], &[]))]);
    let mut f = manifest(&["x", "y"], &[]);
    match import_scene("a", "b", &cat, &mut f) {
        Err(SceneError::OverlappingServices(ids)) => {
            assert_eq!(ids, vec!["x".to_string(), "y".to_string()])
        }
        _ => panic!("expected overlap"),
    }
    assert!(f.includes.is_none());
}

fn dep(cond: &str) -> DockerComposeDependsOn {
    DockerComposeDependsOn { condition: cond.to_string(), extra: Mapping::new() }
}

fn deps_of(f: &DockerComposeFile, id: &str) -> Option<Vec<(String, String)>> {
    let s = &f.services.iter().find(|(k, _)| k == id).unwrap().1;
    s.depends_on
        .as_ref()
        .map(|v| v.iter().map(|(k, d)| (k.clone(), d.condition.clone())).collect())
}

#[test]
fn add_dependency_creates_and_replaces() {
    let mut f = manifest(&["web", "db"], &[]);
    assert_eq!(add_dependency(&mut f, "web", "db"), Ok(()));
    assert_eq!(deps_of(&f, "web"), Some(vec![("db".to_string(), "service_started".to_string())]));
    assert_eq!(set_depends_on_condition(&mut f, "web", "db", "service_healthy"), Ok(()));
    assert_eq!(deps_of(&f, "web"), Some(vec![("db".to_string(), "service_healthy".to_string())]));
    assert_eq!(add_dependency(&mut f, "web", "db"), Ok(()));
    assert_eq!(deps_of(&f, "web"), Some(vec![("db".to_string(), "service_started".to_string())]));
    assert_eq!(deps_of(&f, "db"), None);
    assert_eq!(add_dependency(&mut f, "cache", "db"), Err(ManifestError::ServiceNotFound));
}

#[test]
fn remove_dependency_reports_change() {
    let mut f = manifest(&["web"], &[]);
    f.services[0].1.depends_on = Some(vec![("db".to_string(), dep("a")), ("mq".to_string(), dep("b"))]);
    assert_eq!(remove_dependency(&mut f, "web", "db"), Ok(true));
    assert_eq!(deps_of(&f, "web"), Some(vec![("mq".to_string(), "b".to_string())]));
    assert_eq!(remove_dependency(&mut f, "web", "db"), Ok(false));
    assert_eq!(remove_dependency(&mut f, "nope", "db"), Err(ManifestError::ServiceNotFound));
}

#[test]
fn set_condition_errors() {
    let mut f = manifest(&["web"], &[]);
    assert_eq!(
        set_depends_on_condition(&mut f, "web", "db", "x"),
        Err(ManifestError::NoDependencies)
    );
    f.services[0].1.depends_on = Some(vec![("mq".to_string(), dep("b"))]);
    assert_eq!(
        set_depends_on_condition(&mut f, "web", "db", "x"),
        Err(ManifestError::DependencyNotFound)
    );
    assert_eq!(
        set_depends_on_condition(&mut f, "api", "db", "x"),
        Err(ManifestError::ServiceNotFound)
    );
}

#[test]
fn service_display_form() {
    let mut d = service();
    d.labels = Some(DockerComposeLabels { service_type: Some("database".to_string()), extra: Mapping::new() });
    d.depends_on = Some(vec![("cache".to_string(), dep("service_healthy"))]);
    let s = to_service("shop", &"db".to_string(), &d);
    assert_eq!(s.id, "db");
    assert_eq!(s.scene_name, "shop");
    assert_eq!(s.service_type.as_deref(), Some("database"));
    assert_eq!(s.depends_on.len(), 1);
    assert_eq!(s.depends_on[0].0, "cache");
    assert_eq!(s.depends_on[0].1.condition, "service_healthy");
    let from: DependsOn = DependsOn::from(dep("c"));
    assert_eq!(from.condition, "c");
}

#[test]
fn scene_services_scene_by_scene() {
    let cat = catalog(vec![
        ("shop", manifest(&["web", "db"], &["../auth/docker-compose.yml"])),
        ("auth", manifest(&["keycloak"], &[])),
    ]);
    let v = get_scene_services("shop", &cat).ok().expect("services");
    let got: Vec<(String, String)> = v.into_iter().map(|s| (s.scene_name, s.id)).collect();
    assert_eq!(
        got,
        vec![
            ("shop".to_string(), "web".to_string()),
            ("shop".to_string(), "db".to_string()),
            ("auth".to_string(), "keycloak".to_string()),
        ]
    );
    assert!(matches!(get_scene_services("ghost", &cat), Err(SceneError::SceneNotFound(_))));
}

#[test]
fn service_create_update_delete() {
    let mut f = manifest(&["web"], &[]);
    assert_eq!(create_service(&mut f, "web", service()), Err(ManifestError::ServiceExists));
    assert_eq!(create_service(&mut f, "db", service()), Ok(()));
    assert!(get_service(&f, "db").is_some());
    assert_eq!(update_service(&mut f, "api", "nope", service()), Err(ManifestError::ServiceNotFound));
    assert_eq!(update_service(&mut f, "db", "web", service()), Err(ManifestError::ServiceExists));
    assert_eq!(update_service(&mut f, "web", "web", service()), Ok(()));
    assert_eq!(update_service(&mut f, "api", "web", service()), Ok(()));
    let ids: Vec<&str> = f.services.iter().map(|(k, _)| k.as_str()).collect();
    assert_eq!(ids, vec!["db", "api"]);
    assert!(get_service(&f, "web").is_none());
    assert!(delete_service(&mut f, "db").is_some());
    assert!(delete_service(&mut f, "db").is_none());
    assert_eq!(f.services.len(), 1);
}
