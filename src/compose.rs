//! The compose manifest of a scene as the application reads it: services
//! with their labels and dependencies, and includes of other manifests.
//! Keys the application does not interpret are carried along untouched.
use vstd::prelude::*;

verus! {

#[verifier::external_type_specification]
#[verifier::external_body]
pub struct ExMapping(serde_yaml::Mapping);

/// Relies on `serde_yaml::Mapping::new`, which makes an empty mapping; it is
/// only carried, so nothing is stated of it.
pub assume_specification[ serde_yaml::Mapping::new ]() -> serde_yaml::Mapping;

/// Labels of a service; `service_type` is the workbench's own label.
pub struct DockerComposeLabels {
    pub service_type: Option<String>,
    pub extra: serde_yaml::Mapping,
}

/// One dependency of a service: the condition to wait for.
pub struct DockerComposeDependsOn {
    pub condition: String,
    pub extra: serde_yaml::Mapping,
}

/// One service of a manifest.
pub struct DockerComposeService {
    pub labels: Option<DockerComposeLabels>,
    /// The services this one depends on, by name, each name at most once.
    pub depends_on: Option<Vec<(String, DockerComposeDependsOn)>>,
    pub extra: serde_yaml::Mapping,
}

/// A scene's manifest: its services by id, each id at most once, and the
/// manifests it includes.
pub struct DockerComposeFile {
    pub services: Vec<(String, DockerComposeService)>,
    pub includes: Option<Vec<DockerComposeIncludeEnum>>,
    pub extra: serde_yaml::Mapping,
}

/// An include entry: a path, or an object whose `path` names the manifest.
pub enum DockerComposeIncludeEnum {
    String(String),
    Object(DockerComposeIncludeObject),
}

#[derive(Default)]
pub struct DockerComposeIncludeObject {
    pub path: Option<DockerComposeIncludeStringOrList>,
    pub env_file: Option<DockerComposeIncludeStringOrList>,
    pub project_directory: Option<String>,
}

pub enum DockerComposeIncludeStringOrList {
    String(String),
    List(Vec<String>),
}

/// Why a manifest edit was refused.
#[derive(Clone, Copy, Debug, PartialEq, Eq, Structural)]
pub enum ManifestError {
    /// No service has the given id.
    ServiceNotFound,
    /// The service declares no dependencies.
    NoDependencies,
    /// The service does not depend on the given service.
    DependencyNotFound,
    /// A service with the given id already exists.
    ServiceExists,
}

/// The condition a new dependency waits for.
pub open spec fn default_condition() -> Seq<char> {
    "service_started"@
}

/// A dependency waiting for the service to have started.
pub fn default_depends_on() -> (r: DockerComposeDependsOn)
    ensures
        r.condition@ == default_condition(),
{
    DockerComposeDependsOn {
        condition: String::from_str("service_started"),
        extra: serde_yaml::Mapping::new(),
    }
}

/// The path of the manifest an include entry names: the entry itself, its
/// object's path, or the first of its object's paths.
pub open spec fn include_path_of(item: DockerComposeIncludeEnum) -> Option<Seq<char>> {
    match item {
        DockerComposeIncludeEnum::String(p) => Some(p@),
        DockerComposeIncludeEnum::Object(o) => match o.path {
            Some(DockerComposeIncludeStringOrList::String(p)) => Some(p@),
            Some(DockerComposeIncludeStringOrList::List(ps)) => if ps@.len() > 0 {
                Some(ps@[0]@)
            } else {
                None
            },
            None => None,
        },
    }
}

/// The path of the manifest an include entry names, where it names one.
pub fn include_path(item: &DockerComposeIncludeEnum) -> (r: Option<String>)
    ensures
        match (r, include_path_of(*item)) {
            (Some(a), Some(b)) => a@ == b,
            (None, None) => true,
            _ => false,
        },
{
    match item {
        DockerComposeIncludeEnum::String(p) => Some(p.clone()),
        DockerComposeIncludeEnum::Object(o) => match &o.path {
            Some(DockerComposeIncludeStringOrList::String(p)) => Some(p.clone()),
            Some(DockerComposeIncludeStringOrList::List(ps)) => {
                if ps.len() > 0 {
                    Some(ps[0].clone())
                } else {
                    None
                }
            },
            None => None,
        },
    }
}

/// `i` is the first position of key `k` in `s`.
pub open spec fn first_key_at<V>(s: Seq<(String, V)>, k: Seq<char>, i: int) -> bool {
    &&& 0 <= i < s.len()
    &&& s[i].0@ == k
    &&& forall|j: int| 0 <= j < i ==> (#[trigger] s[j]).0@ != k
}

pub open spec fn has_key<V>(s: Seq<(String, V)>, k: Seq<char>) -> bool {
    exists|i: int| 0 <= i < s.len() && (#[trigger] s[i]).0@ == k
}

/// The first position of key `k` in `s`.
pub fn find_key<V>(s: &Vec<(String, V)>, k: &str) -> (r: Option<usize>)
    ensures
        match r {
            Some(i) => first_key_at(s@, k@, i as int),
            None => !has_key(s@, k@),
        },
{
    let key = String::from_str(k);
    let mut i: usize = 0;
    while i < s.len()
        invariant
            i <= s@.len(),
            key@ == k@,
            forall|j: int| 0 <= j < i ==> (#[trigger] s@[j]).0@ != k@,
        decreases s@.len() - i,
    {
        if s[i].0 == key {
            return Some(i);
        }
        i = i + 1;
    }
    None
}

/// `after` is `before` with the entry of key `k` set to a value whose
/// condition is `cond`: in place where `k` was present, appended otherwise.
pub open spec fn dependency_set(
    before: Seq<(String, DockerComposeDependsOn)>,
    after: Seq<(String, DockerComposeDependsOn)>,
    k: Seq<char>,
    cond: Seq<char>,
) -> bool {
    if has_key(before, k) {
        forall|i: int|
            first_key_at(before, k, i) ==> {
                &&& after.len() == before.len()
                &&& forall|j: int| 0 <= j < before.len() && j != i ==> after[j] == before[j]
                &&& after[i].0@ == k
                &&& after[i].1.condition@ == cond
            }
    } else {
        &&& after.len() == before.len() + 1
        &&& forall|j: int| 0 <= j < before.len() ==> after[j] == before[j]
        &&& after[before.len() as int].0@ == k
        &&& after[before.len() as int].1.condition@ == cond
    }
}

pub open spec fn dependencies_of(s: DockerComposeService) -> Seq<(String, DockerComposeDependsOn)> {
    match s.depends_on {
        Some(v) => v@,
        None => Seq::empty(),
    }
}

/// `after` is `before` with only the service at position `i` changed, and
/// in it only its dependencies.
pub open spec fn only_dependencies_changed(before: DockerComposeFile, after: DockerComposeFile, i: int) -> bool {
    &&& after.includes == before.includes
    &&& after.extra == before.extra
    &&& after.services@.len() == before.services@.len()
    &&& forall|j: int|
        0 <= j < before.services@.len() && j != i ==> after.services@[j] == before.services@[j]
    &&& after.services@[i].0 == before.services@[i].0
    &&& after.services@[i].1.labels == before.services@[i].1.labels
    &&& after.services@[i].1.extra == before.services@[i].1.extra
}

/// Makes service `service_id` depend on `depends_on`, waiting for it to
/// have started; an existing dependency on it is replaced.
pub fn add_dependency(file: &mut DockerComposeFile, service_id: &str, depends_on: &str) -> (r: Result<(), ManifestError>)
    ensures
        r is Ok <==> has_key(old(file).services@, service_id@),
        r is Err ==> r == Err::<(), _>(ManifestError::ServiceNotFound) && *final(file) == *old(file),
        forall|i: int|
            first_key_at(old(file).services@, service_id@, i) ==> {
                &&& only_dependencies_changed(*old(file), *final(file), i)
                &&& final(file).services@[i].1.depends_on is Some
                &&& dependency_set(
                    dependencies_of(old(file).services@[i].1),
                    dependencies_of(final(file).services@[i].1),
                    depends_on@,
                    default_condition(),
                )
            },
{
    match find_key(&file.services, service_id) {
        None => Err(ManifestError::ServiceNotFound),
        Some(i) => {
            let ghost before = *file;
            let (name, mut service) = file.services.remove(i);
            let mut deps = match service.depends_on {
                Some(d) => d,
                None => Vec::new(),
            };
            let ghost deps_before = deps@;
            assert(deps_before == dependencies_of(before.services@[i as int].1));
            match find_key(&deps, depends_on) {
                Some(j) => {
                    let (dep_name, _) = deps.remove(j);
                    deps.insert(j, (dep_name, default_depends_on()));
                    assert forall|x: int| 0 <= x < deps_before.len() && x != j implies deps@[x]
                        == deps_before[x] by {}
                },
                None => {
                    deps.push((String::from_str(depends_on), default_depends_on()));
                },
            }
            service.depends_on = Some(deps);
            file.services.insert(i, (name, service));
            assert forall|x: int|
                0 <= x < before.services@.len() && x != i implies file.services@[x]
                == before.services@[x] by {}
            proof {
                assert forall|x: int| first_key_at(before.services@, service_id@, x) implies x == i by {
                    if x < i {
                        assert(before.services@[x].0@ != service_id@);
                    } else if x > i {
                        assert(before.services@[i as int].0@ != service_id@);
                    }
                }
            }
            Ok(())
        },
    }
}

/// Drops the dependency of service `service_id` on `depends_on`. `Ok(true)`
/// where there was one to drop, `Ok(false)` (the manifest unchanged) where
/// there was none.
pub fn remove_dependency(file: &mut DockerComposeFile, service_id: &str, depends_on: &str) -> (r: Result<bool, ManifestError>)
    ensures
        r is Ok <==> has_key(old(file).services@, service_id@),
        r is Err ==> r == Err::<bool, _>(ManifestError::ServiceNotFound),
        !(r == Ok::<bool, ManifestError>(true)) ==> *final(file) == *old(file),
        forall|i: int|
            first_key_at(old(file).services@, service_id@, i) ==> {
                let before = dependencies_of(old(file).services@[i].1);
                &&& r == Ok::<bool, ManifestError>(has_key(before, depends_on@))
                &&& has_key(before, depends_on@) ==> {
                    &&& only_dependencies_changed(*old(file), *final(file), i)
                    &&& final(file).services@[i].1.depends_on is Some
                    &&& forall|k: int|
                        first_key_at(before, depends_on@, k) ==> dependencies_of(
                            final(file).services@[i].1,
                        ) == before.remove(k)
                }
            },
{
    let i = match find_key(&file.services, service_id) {
        None => {
            return Err(ManifestError::ServiceNotFound);
        },
        Some(i) => i,
    };
    proof {
        assert forall|x: int| first_key_at(file.services@, service_id@, x) implies x == i by {
            if x < i {
                assert(file.services@[x].0@ != service_id@);
            } else if x > i {
                assert(file.services@[i as int].0@ != service_id@);
            }
        }
    }
    let k = match &file.services[i].1.depends_on {
        None => {
            return Ok(false);
        },
        Some(d) => match find_key(d, depends_on) {
            None => {
                return Ok(false);
            },
            Some(k) => k,
        },
    };
    let ghost before = *file;
    let ghost deps_before = dependencies_of(before.services@[i as int].1);
    proof {
        assert forall|x: int| first_key_at(deps_before, depends_on@, x) implies x == k by {
            if x < k {
                assert(deps_before[x].0@ != depends_on@);
            } else if x > k {
                assert(deps_before[k as int].0@ != depends_on@);
            }
        }
    }
    let (name, mut service) = file.services.remove(i);
    let mut deps = match service.depends_on {
        Some(d) => d,
        None => Vec::new(),
    };
    deps.remove(k);
    service.depends_on = Some(deps);
    file.services.insert(i, (name, service));
    assert forall|x: int|
        0 <= x < before.services@.len() && x != i implies file.services@[x]
        == before.services@[x] by {}
    Ok(true)
}

/// Sets the condition that service `service_id` waits for on `depends_on`.
pub fn set_depends_on_condition(
    file: &mut DockerComposeFile,
    service_id: &str,
    depends_on: &str,
    condition: &str,
) -> (r: Result<(), ManifestError>)
    ensures
        !has_key(old(file).services@, service_id@) ==> r == Err::<(), _>(
            ManifestError::ServiceNotFound,
        ),
        r is Err ==> *final(file) == *old(file),
        forall|i: int|
            first_key_at(old(file).services@, service_id@, i) ==> {
                let svc = old(file).services@[i].1;
                let before = dependencies_of(svc);
                &&& svc.depends_on is None ==> r == Err::<(), _>(ManifestError::NoDependencies)
                &&& svc.depends_on is Some && !has_key(before, depends_on@) ==> r == Err::<(), _>(
                    ManifestError::DependencyNotFound,
                )
                &&& svc.depends_on is Some && has_key(before, depends_on@) ==> r is Ok
                &&& r is Ok ==> {
                    &&& only_dependencies_changed(*old(file), *final(file), i)
                    &&& final(file).services@[i].1.depends_on is Some
                    &&& forall|k: int|
                        first_key_at(before, depends_on@, k) ==> {
                            let after = dependencies_of(final(file).services@[i].1);
                            &&& after.len() == before.len()
                            &&& forall|j: int| 0 <= j < before.len() && j != k ==> after[j] == before[j]
                            &&& after[k].0 == before[k].0
                            &&& after[k].1.extra == before[k].1.extra
                            &&& after[k].1.condition@ == condition@
                        }
                }
            },
{
    let i = match find_key(&file.services, service_id) {
        None => {
            return Err(ManifestError::ServiceNotFound);
        },
        Some(i) => i,
    };
    proof {
        assert forall|x: int| first_key_at(file.services@, service_id@, x) implies x == i by {
            if x < i {
                assert(file.services@[x].0@ != service_id@);
            } else if x > i {
                assert(file.services@[i as int].0@ != service_id@);
            }
        }
    }
    let k = match &file.services[i].1.depends_on {
        None => {
            return Err(ManifestError::NoDependencies);
        },
        Some(d) => match find_key(d, depends_on) {
            None => {
                return Err(ManifestError::DependencyNotFound);
            },
            Some(k) => k,
        },
    };
    let ghost before = *file;
    let ghost deps_before = dependencies_of(before.services@[i as int].1);
    proof {
        assert forall|x: int| first_key_at(deps_before, depends_on@, x) implies x == k by {
            if x < k {
                assert(deps_before[x].0@ != depends_on@);
            } else if x > k {
                assert(deps_before[k as int].0@ != depends_on@);
            }
        }
    }
    let (name, mut service) = file.services.remove(i);
    let mut deps = match service.depends_on {
        Some(d) => d,
        None => Vec::new(),
    };
    let (dep_name, mut dep) = deps.remove(k);
    dep.condition = String::from_str(condition);
    deps.insert(k, (dep_name, dep));
    assert forall|x: int| 0 <= x < deps_before.len() && x != k implies deps@[x] == deps_before[x] by {}
    service.depends_on = Some(deps);
    file.services.insert(i, (name, service));
    assert forall|x: int|
        0 <= x < before.services@.len() && x != i implies file.services@[x]
        == before.services@[x] by {}
    Ok(())
}

/// The service of id `service_id`.
pub fn get_service<'a>(file: &'a DockerComposeFile, service_id: &str) -> (r: Option<&'a DockerComposeService>)
    ensures
        r is None <==> !has_key(file.services@, service_id@),
        forall|i: int|
            first_key_at(file.services@, service_id@, i) ==> r == Some(&file.services@[i].1),
{
    match find_key(&file.services, service_id) {
        None => None,
        Some(i) => {
            proof {
                assert forall|x: int| first_key_at(file.services@, service_id@, x) implies x == i by {
                    if x < i {
                        assert(file.services@[x].0@ != service_id@);
                    } else if x > i {
                        assert(file.services@[i as int].0@ != service_id@);
                    }
                }
            }
            Some(&file.services[i].1)
        },
    }
}

/// Adds service `service_id`, unless a service of that id exists.
pub fn create_service(file: &mut DockerComposeFile, service_id: &str, service: DockerComposeService) -> (r: Result<(), ManifestError>)
    ensures
        r is Err <==> has_key(old(file).services@, service_id@),
        r is Err ==> r == Err::<(), _>(ManifestError::ServiceExists) && *final(file) == *old(file),
        r is Ok ==> final(file).services@.len() == old(file).services@.len() + 1
            && final(file).services@.drop_last() == old(file).services@
            && final(file).services@.last().0@ == service_id@
            && final(file).services@.last().1 == service
            && final(file).includes == old(file).includes
            && final(file).extra == old(file).extra,
{
    match find_key(&file.services, service_id) {
        Some(_) => Err(ManifestError::ServiceExists),
        None => {
            let ghost before = file.services@;
            file.services.push((String::from_str(service_id), service));
            assert(file.services@.drop_last() =~= before);
            Ok(())
        },
    }
}

/// Removes service `service_id`, where there is one, and hands it back.
pub fn delete_service(file: &mut DockerComposeFile, service_id: &str) -> (r: Option<DockerComposeService>)
    ensures
        r is None <==> !has_key(old(file).services@, service_id@),
        r is None ==> *final(file) == *old(file),
        final(file).includes == old(file).includes,
        final(file).extra == old(file).extra,
        forall|i: int|
            first_key_at(old(file).services@, service_id@, i) ==> final(file).services@ == old(
                file,
            ).services@.remove(i) && r == Some(old(file).services@[i].1),
{
    match find_key(&file.services, service_id) {
        None => None,
        Some(i) => {
            proof {
                assert forall|x: int| first_key_at(file.services@, service_id@, x) implies x == i by {
                    if x < i {
                        assert(file.services@[x].0@ != service_id@);
                    } else if x > i {
                        assert(file.services@[i as int].0@ != service_id@);
                    }
                }
            }
            let (_, s) = file.services.remove(i);
            Some(s)
        },
    }
}

/// Replaces service `previous_service_id` by `service` under the id
/// `service_id`, which no other service may have. On error the manifest is
/// left as it was.
pub fn update_service(
    file: &mut DockerComposeFile,
    service_id: &str,
    previous_service_id: &str,
    service: DockerComposeService,
) -> (r: Result<(), ManifestError>)
    ensures
        !has_key(old(file).services@, previous_service_id@) ==> r == Err::<(), _>(
            ManifestError::ServiceNotFound,
        ),
        r is Err ==> *final(file) == *old(file),
        forall|i: int|
            first_key_at(old(file).services@, previous_service_id@, i) ==> {
                let rest = old(file).services@.remove(i);
                &&& has_key(rest, service_id@) ==> r == Err::<(), _>(ManifestError::ServiceExists)
                &&& !has_key(rest, service_id@) ==> {
                    &&& r is Ok
                    &&& final(file).services@.drop_last() == rest
                    &&& final(file).services@.len() == rest.len() + 1
                    &&& final(file).services@.last().0@ == service_id@
                    &&& final(file).services@.last().1 == service
                    &&& final(file).includes == old(file).includes
                    &&& final(file).extra == old(file).extra
                }
            },
{
    let i = match find_key(&file.services, previous_service_id) {
        None => {
            return Err(ManifestError::ServiceNotFound);
        },
        Some(i) => i,
    };
    proof {
        assert forall|x: int| first_key_at(file.services@, previous_service_id@, x) implies x == i by {
            if x < i {
                assert(file.services@[x].0@ != previous_service_id@);
            } else if x > i {
                assert(file.services@[i as int].0@ != previous_service_id@);
            }
        }
    }
    let ghost rest = file.services@.remove(i as int);
    let key = String::from_str(service_id);
    let mut j: usize = 0;
    while j < file.services.len()
        invariant
            j <= file.services@.len(),
            i < file.services@.len(),
            *file == *old(file),
            key@ == service_id@,
            first_key_at(old(file).services@, previous_service_id@, i as int),
            forall|x: int| first_key_at(old(file).services@, previous_service_id@, x) ==> x == i,
            rest == file.services@.remove(i as int),
            forall|x: int| 0 <= x < j && x != i ==> (#[trigger] file.services@[x]).0@ != service_id@,
        decreases file.services@.len() - j,
    {
        if j != i && file.services[j].0 == key {
            proof {
                let y = if j < i { j as int } else { j - 1 };
                assert(rest[y] == file.services@[j as int]);
            }
            return Err(ManifestError::ServiceExists);
        }
        j = j + 1;
    }
    assert(!has_key(rest, service_id@)) by {
        if has_key(rest, service_id@) {
            let y = choose|y: int| 0 <= y < rest.len() && (#[trigger] rest[y]).0@ == service_id@;
            let x = if y < i { y } else { y + 1 };
            assert(file.services@[x] == rest[y]);
        }
    }
    let ghost before = file.services@;
    file.services.remove(i);
    file.services.push((String::from_str(service_id), service));
    assert(file.services@.drop_last() =~= rest);
    Ok(())
}

} // verus!
