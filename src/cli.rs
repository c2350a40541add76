//! Arguments of the orchestration tool's commands.
use vstd::prelude::*;

use crate::scenes::texts;

verus! {

pub open spec fn optional_arg(service_id: Option<&str>) -> Seq<Seq<char>> {
    match service_id {
        Some(s) => seq![s@],
        None => Seq::empty(),
    }
}

/// `--project-name <scene> up -d [<service>]`: starts the scene, or one of
/// its services, detached.
pub fn compose_up_args(scene_name: &str, service_id: Option<&str>) -> (r: Vec<String>)
    ensures
        texts(r@) == seq!["--project-name"@, scene_name@, "up"@, "-d"@] + optional_arg(service_id),
{
    let mut r: Vec<String> = Vec::new();
    r.push(String::from_str("--project-name"));
    r.push(String::from_str(scene_name));
    r.push(String::from_str("up"));
    r.push(String::from_str("-d"));
    match service_id {
        Some(s) => r.push(String::from_str(s)),
        None => {},
    }
    assert(texts(r@) =~= seq!["--project-name"@, scene_name@, "up"@, "-d"@] + optional_arg(
        service_id,
    ));
    r
}

/// `down [<service>]`: stops the scene, or one of its services.
pub fn compose_down_args(service_id: Option<&str>) -> (r: Vec<String>)
    ensures
        texts(r@) == seq!["down"@] + optional_arg(service_id),
{
    let mut r: Vec<String> = Vec::new();
    r.push(String::from_str("down"));
    match service_id {
        Some(s) => r.push(String::from_str(s)),
        None => {},
    }
    assert(texts(r@) =~= seq!["down"@] + optional_arg(service_id));
    r
}

} // verus!
