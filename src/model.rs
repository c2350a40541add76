//! What the user interface is shown of scenes and services.
use vstd::prelude::*;

use crate::compose::{DockerComposeDependsOn, DockerComposeService};

verus! {

/// A scene, by name.
pub struct Scene {
    pub name: String,
}

/// One dependency of a service, as shown: the condition it waits for.
pub struct DependsOn {
    pub condition: String,
}

impl From<DockerComposeDependsOn> for DependsOn {
    fn from(value: DockerComposeDependsOn) -> (r: DependsOn) {
        DependsOn { condition: value.condition }
    }
}

impl vstd::std_specs::convert::FromSpecImpl<DockerComposeDependsOn> for DependsOn {
    open spec fn obeys_from_spec() -> bool {
        true
    }

    open spec fn from_spec(v: DockerComposeDependsOn) -> DependsOn {
        DependsOn { condition: v.condition }
    }
}

/// A service as shown: its id, its workbench type label, its dependencies
/// by service name, and the scene it belongs to.
pub struct Service {
    pub id: String,
    pub service_type: Option<String>,
    pub depends_on: Vec<(String, DependsOn)>,
    pub scene_name: String,
}

/// A drawn link between two services.
pub struct ServiceRelationship {
    pub source: String,
    pub target: String,
}

/// The asset tree of a service: a file, or a directory of named entries.
pub enum ServiceAssets {
    Leaf,
    Node(Vec<(String, ServiceAssets)>),
}

/// `s` is the display form of service `id` of scene `scene`.
pub open spec fn shows_service(s: Service, scene: Seq<char>, id: Seq<char>, d: DockerComposeService) -> bool {
    &&& s.id@ == id
    &&& s.scene_name@ == scene
    &&& match (s.service_type, d.labels) {
        (None, None) => true,
        (None, Some(l)) => l.service_type is None,
        (Some(t), Some(l)) => l.service_type matches Some(u) && t@ == u@,
        (Some(_), None) => false,
    }
    &&& s.depends_on@.len() == (match d.depends_on {
        Some(v) => v@.len(),
        None => 0,
    })
    &&& forall|k: int|
        0 <= k < s.depends_on@.len() ==> match d.depends_on {
            Some(v) => (#[trigger] s.depends_on@[k]).0@ == v@[k].0@ && s.depends_on@[k].1.condition@
                == v@[k].1.condition@,
            None => false,
        }
}

/// The display form of service `id` of scene `scene_name`.
pub fn to_service(scene_name: &str, id: &String, d: &DockerComposeService) -> (r: Service)
    ensures
        shows_service(r, scene_name@, id@, *d),
{
    let service_type = match &d.labels {
        None => None,
        Some(l) => match &l.service_type {
            None => None,
            Some(t) => Some(t.clone()),
        },
    };
    let mut depends_on: Vec<(String, DependsOn)> = Vec::new();
    match &d.depends_on {
        None => {},
        Some(v) => {
            let mut k: usize = 0;
            while k < v.len()
                invariant
                    k <= v@.len(),
                    depends_on@.len() == k,
                    forall|j: int|
                        0 <= j < k ==> (#[trigger] depends_on@[j]).0@ == v@[j].0@
                            && depends_on@[j].1.condition@ == v@[j].1.condition@,
                decreases v@.len() - k,
            {
                depends_on.push((v[k].0.clone(), DependsOn { condition: v[k].1.condition.clone() }));
                k = k + 1;
            }
        },
    }
    Service {
        id: id.clone(),
        service_type,
        depends_on,
        scene_name: String::from_str(scene_name),
    }
}

pub open spec fn links(v: Seq<ServiceRelationship>) -> Seq<(Seq<char>, Seq<char>)> {
    v.map_values(|r: ServiceRelationship| (r.source@, r.target@))
}

/// The links of `s` other than `source` → `target`, in order.
pub open spec fn links_without(s: Seq<(Seq<char>, Seq<char>)>, source: Seq<char>, target: Seq<char>) -> Seq<(Seq<char>, Seq<char>)>
    decreases s.len(),
{
    if s.len() == 0 {
        s
    } else if s.last() == (source, target) {
        links_without(s.drop_last(), source, target)
    } else {
        links_without(s.drop_last(), source, target).push(s.last())
    }
}

/// Adds the link `source` → `target`.
pub fn create_relationship(relationships: &mut Vec<ServiceRelationship>, source: &str, target: &str)
    ensures
        links(final(relationships)@) == links(old(relationships)@).push((source@, target@)),
{
    let ghost before = relationships@;
    relationships.push(
        ServiceRelationship { source: String::from_str(source), target: String::from_str(target) },
    );
    assert(links(relationships@) =~= links(before).push((source@, target@)));
}

/// Drops every link `source` → `target`.
pub fn delete_relationship(relationships: Vec<ServiceRelationship>, source: &str, target: &str) -> (r: Vec<ServiceRelationship>)
    ensures
        links(r@) == links_without(links(relationships@), source@, target@),
{
    let s = String::from_str(source);
    let t = String::from_str(target);
    let mut rest = relationships;
    let ghost all = rest@;
    let mut kept: Vec<ServiceRelationship> = Vec::new();
    let mut i: usize = 0;
    let n = rest.len();
    while i < n
        invariant
            n == all.len(),
            i <= n,
            s@ == source@,
            t@ == target@,
            rest@ == all.skip(i as int),
            links(kept@) == links_without(links(all).take(i as int), source@, target@),
        decreases n - i,
    {
        let r = rest.remove(0);
        assert(r == all[i as int]);
        assert(rest@ =~= all.skip(i + 1));
        let ghost pre = links(all).take(i + 1);
        assert(pre.drop_last() =~= links(all).take(i as int));
        assert(pre.last() == (r.source@, r.target@));
        if !(r.source == s && r.target == t) {
            let ghost before = kept@;
            kept.push(r);
            assert(links(kept@) =~= links(before).push((r.source@, r.target@)));
        }
        i = i + 1;
    }
    assert(links(all).take(n as int) =~= links(all));
    kept
}

} // verus!
