//! Scenes and the services they bring in through includes.
//!
//! A scene's manifest may include other scenes' manifests, which may include
//! more. The services of a scene are its own and, in include order, those of
//! every scene it includes, each id once. An include that leads back to a
//! scene on the current chain is refused as cyclic.
use vstd::prelude::*;

use crate::compose::{
    find_key, first_key_at, has_key, include_path, include_path_of, DockerComposeFile,
    DockerComposeIncludeEnum, DockerComposeIncludeObject, DockerComposeIncludeStringOrList,
    DockerComposeService,
};
use crate::model::{shows_service, to_service, Scene, Service};
use crate::text::{find_char, index_of};

verus! {

/// Why a scene's services could not be gathered.
#[derive(Clone, Debug)]
pub enum SceneError {
    /// No manifest is known for the scene of that name.
    SceneNotFound(String),
    /// The scene of that name includes itself, directly or not.
    CyclicInclude(String),
    /// An include path that does not name another scene's manifest.
    UnsupportedInclude(String),
    /// Both scenes have services of these ids.
    OverlappingServices(Vec<String>),
}

pub enum SceneErrorView {
    SceneNotFound(Seq<char>),
    CyclicInclude(Seq<char>),
    UnsupportedInclude(Seq<char>),
    OverlappingServices(Seq<Seq<char>>),
}

impl View for SceneError {
    type V = SceneErrorView;

    open spec fn view(&self) -> SceneErrorView {
        match self {
            SceneError::SceneNotFound(s) => SceneErrorView::SceneNotFound(s@),
            SceneError::CyclicInclude(s) => SceneErrorView::CyclicInclude(s@),
            SceneError::UnsupportedInclude(s) => SceneErrorView::UnsupportedInclude(s@),
            SceneError::OverlappingServices(v) => SceneErrorView::OverlappingServices(texts(v@)),
        }
    }
}

pub open spec fn texts(v: Seq<String>) -> Seq<Seq<char>> {
    v.map_values(|s: String| s@)
}

pub open spec fn ids_result(r: Result<Vec<String>, SceneError>) -> Result<Seq<Seq<char>>, SceneErrorView> {
    match r {
        Ok(v) => Ok(texts(v@)),
        Err(e) => Err(e@),
    }
}

/// The scene whose manifest an include path names, for a manifest of scene
/// `scene`: a bare file name stays in the scene; `../<name>/<file>` names
/// the sibling scene `<name>`. Other shapes name no scene.
pub open spec fn scene_of_include(scene: Seq<char>, path: Seq<char>) -> Option<Seq<char>> {
    if index_of(path, '/') == path.len() {
        Some(scene)
    } else if path.len() >= 3 && path[0] == '.' && path[1] == '.' && path[2] == '/' {
        let rest = path.skip(3);
        let k = index_of(rest, '/') as int;
        let name = rest.take(k);
        let file = rest.skip(k + 1);
        if k < rest.len() && name.len() > 0 && name != seq!['.'] && name != seq!['.', '.']
            && file.len() > 0 && index_of(file, '/') == file.len() {
            Some(name)
        } else {
            None
        }
    } else {
        None
    }
}

/// The scene whose manifest `path` names, seen from scene `scene_name`.
pub fn included_scene_name(scene_name: &str, path: &str) -> (r: Option<String>)
    ensures
        match (r, scene_of_include(scene_name@, path@)) {
            (Some(a), Some(b)) => a@ == b,
            (None, None) => true,
            _ => false,
        },
{
    let n = path.unicode_len();
    if find_char(path, '/') == n {
        return Some(String::from_str(scene_name));
    }
    if n < 3 || path.get_char(0) != '.' || path.get_char(1) != '.' || path.get_char(2) != '/' {
        return None;
    }
    let rest = path.substring_char(3, n);
    let m = n - 3;
    let k = find_char(rest, '/');
    if k == m {
        return None;
    }
    let name = rest.substring_char(0, k);
    let file = rest.substring_char(k + 1, m);
    assert(name@ =~= rest@.take(k as int));
    assert(file@ =~= rest@.skip(k + 1));
    if k == 0 {
        return None;
    }
    if k == 1 && name.get_char(0) == '.' {
        assert(name@ =~= seq!['.']);
        return None;
    }
    if k == 2 && name.get_char(0) == '.' && name.get_char(1) == '.' {
        assert(name@ =~= seq!['.', '.']);
        return None;
    }
    assert(name@ != seq!['.']) by {
        if k == 1 {
            assert(name@[0] != seq!['.'][0]);
        }
    }
    assert(name@ != seq!['.', '.']) by {
        if k == 2 {
            assert(name@[0] != '.' || name@[1] != '.');
        }
    }
    if m - (k + 1) == 0 {
        return None;
    }
    if find_char(file, '/') != m - (k + 1) {
        return None;
    }
    Some(String::from_str(name))
}

/// Service ids declared by a manifest itself, in order.
pub open spec fn own_ids(f: DockerComposeFile) -> Seq<Seq<char>> {
    f.services@.map_values(|e: (String, DockerComposeService)| e.0@)
}

pub open spec fn includes_of(f: DockerComposeFile) -> Seq<DockerComposeIncludeEnum> {
    match f.includes {
        Some(v) => v@,
        None => Seq::empty(),
    }
}

/// The manifest of scene `name` in `catalog`: that of its first entry.
pub open spec fn manifest_of(catalog: Seq<(String, DockerComposeFile)>, name: Seq<char>) -> DockerComposeFile {
    catalog[choose|i: int| first_key_at(catalog, name, i)].1
}

/// Service ids of scene `name` and of all it includes, in order, with
/// repetitions; `chain` holds the scenes whose includes led here.
pub open spec fn scene_ids_from(
    catalog: Seq<(String, DockerComposeFile)>,
    chain: Seq<Seq<char>>,
    name: Seq<char>,
) -> Result<Seq<Seq<char>>, SceneErrorView>
    decreases catalog.len() - chain.len(), 0int,
{
    if chain.contains(name) {
        Err(SceneErrorView::CyclicInclude(name))
    } else if !has_key(catalog, name) {
        Err(SceneErrorView::SceneNotFound(name))
    } else if chain.len() >= catalog.len() {
        // A chain of distinct scenes that all have manifests is never longer
        // than the catalog; this only bounds the recursion.
        Err(SceneErrorView::CyclicInclude(name))
    } else {
        let f = manifest_of(catalog, name);
        match included_ids_from(
            catalog,
            chain.push(name),
            name,
            includes_of(f),
            includes_of(f).len(),
        ) {
            Ok(sub) => Ok(own_ids(f) + sub),
            Err(e) => Err(e),
        }
    }
}

/// Service ids brought in by the first `n` includes of scene `scene`.
pub open spec fn included_ids_from(
    catalog: Seq<(String, DockerComposeFile)>,
    chain: Seq<Seq<char>>,
    scene: Seq<char>,
    items: Seq<DockerComposeIncludeEnum>,
    n: nat,
) -> Result<Seq<Seq<char>>, SceneErrorView>
    decreases catalog.len() - chain.len(), n,
{
    if n == 0 {
        Ok(Seq::empty())
    } else {
        match included_ids_from(catalog, chain, scene, items, (n - 1) as nat) {
            Err(e) => Err(e),
            Ok(acc) => match include_path_of(items[n - 1]) {
                None => Ok(acc),
                Some(p) => match scene_of_include(scene, p) {
                    None => Err(SceneErrorView::UnsupportedInclude(p)),
                    Some(s) => match scene_ids_from(catalog, chain, s) {
                        Err(e) => Err(e),
                        Ok(b) => Ok(acc + b),
                    },
                },
            },
        }
    }
}

proof fn lemma_texts_push(s: Seq<String>, x: String)
    ensures
        texts(s.push(x)) == texts(s).push(x@),
{
    assert(texts(s.push(x)) =~= texts(s).push(x@));
}

proof fn lemma_first_key_unique<V>(s: Seq<(String, V)>, k: Seq<char>, i: int, j: int)
    requires
        first_key_at(s, k, i),
        first_key_at(s, k, j),
    ensures
        i == j,
{
    if i < j {
        assert(s[i].0@ != k);
    } else if j < i {
        assert(s[j].0@ != k);
    }
}

proof fn lemma_included_err_persists(
    catalog: Seq<(String, DockerComposeFile)>,
    chain: Seq<Seq<char>>,
    scene: Seq<char>,
    items: Seq<DockerComposeIncludeEnum>,
    j: nat,
    n: nat,
)
    requires
        j <= n,
        included_ids_from(catalog, chain, scene, items, j) is Err,
    ensures
        included_ids_from(catalog, chain, scene, items, n) == included_ids_from(
            catalog,
            chain,
            scene,
            items,
            j,
        ),
    decreases n,
{
    if j < n {
        lemma_included_err_persists(catalog, chain, scene, items, j, (n - 1) as nat);
    }
}

fn chain_contains(chain: &Vec<String>, name: &str) -> (r: bool)
    ensures
        r == texts(chain@).contains(name@),
{
    let key = String::from_str(name);
    let mut i: usize = 0;
    while i < chain.len()
        invariant
            i <= chain@.len(),
            key@ == name@,
            forall|j: int| 0 <= j < i ==> (#[trigger] chain@[j])@ != name@,
        decreases chain@.len() - i,
    {
        if chain[i] == key {
            assert(texts(chain@)[i as int] == name@);
            return true;
        }
        i = i + 1;
    }
    assert forall|j: int| 0 <= j < texts(chain@).len() implies texts(chain@)[j] != name@ by {
        assert(texts(chain@)[j] == chain@[j]@);
    }
    false
}

/// Gathers the service ids of scene `name` and of all it includes; `chain`
/// holds the scenes whose includes led here and comes back unchanged.
#[verifier::loop_isolation(false)]
fn collect_scene_ids(catalog: &Vec<(String, DockerComposeFile)>, chain: Vec<String>, name: &str) -> (r: (
    Vec<String>,
    Result<Vec<String>, SceneError>,
))
    ensures
        r.0@ == chain@,
        ids_result(r.1) == scene_ids_from(catalog@, texts(chain@), name@),
    decreases catalog@.len() - chain@.len(),
{
    if chain_contains(&chain, name) {
        return (chain, Err(SceneError::CyclicInclude(String::from_str(name))));
    }
    let i = match find_key(catalog, name) {
        None => {
            return (chain, Err(SceneError::SceneNotFound(String::from_str(name))));
        },
        Some(i) => i,
    };
    if chain.len() >= catalog.len() {
        return (chain, Err(SceneError::CyclicInclude(String::from_str(name))));
    }
    let f = &catalog[i].1;
    proof {
        let c = choose|c: int| first_key_at(catalog@, name@, c);
        lemma_first_key_unique(catalog@, name@, i as int, c);
    }
    let ghost chain0 = chain@;
    let ghost items = includes_of(*f);
    let mut ids: Vec<String> = Vec::new();
    let mut k: usize = 0;
    while k < f.services.len()
        invariant
            k <= f.services@.len(),
            texts(ids@) == own_ids(*f).take(k as int),
        decreases f.services@.len() - k,
    {
        let ghost before = ids@;
        ids.push(f.services[k].0.clone());
        proof {
            lemma_texts_push(before, f.services@[k as int].0);
        }
        assert(own_ids(*f)[k as int] == f.services@[k as int].0@);
        assert(texts(ids@) =~= own_ids(*f).take(k + 1));
        k = k + 1;
    }
    assert(own_ids(*f).take(k as int) =~= own_ids(*f));
    let mut chain = chain;
    chain.push(String::from_str(name));
    assert(texts(chain@) =~= texts(chain0).push(name@));
    let empty: Vec<DockerComposeIncludeEnum> = Vec::new();
    let incs = match &f.includes {
        Some(v) => v,
        None => &empty,
    };
    assert(incs@ == items);
    let ghost own = texts(ids@);
    let mut j: usize = 0;
    while j < incs.len()
        invariant
            j <= incs@.len(),
            incs@ == items,
            chain@ == chain0.push(chain@.last()),
            chain@.len() == chain0.len() + 1,
            chain0.len() < catalog@.len(),
            texts(chain@) == texts(chain0).push(name@),
            !texts(chain0).contains(name@),
            has_key(catalog@, name@),
            manifest_of(catalog@, name@) == *f,
            items == includes_of(*f),
            own == own_ids(*f),
            included_ids_from(catalog@, texts(chain@), name@, items, j as nat) matches Ok(acc)
                && texts(ids@) == own + acc,
        decreases incs@.len() - j,
    {
        let ghost acc = included_ids_from(catalog@, texts(chain@), name@, items, j as nat)->Ok_0;
        match include_path(&incs[j]) {
            None => {},
            Some(p) => match included_scene_name(name, p.as_str()) {
                None => {
                    assert(include_path_of(items[j as int]) == Some(p@));
                    assert(included_ids_from(catalog@, texts(chain@), name@, items, (j + 1) as nat)
                        == Err::<Seq<Seq<char>>, _>(SceneErrorView::UnsupportedInclude(p@)));
                    proof {
                        lemma_included_err_persists(
                            catalog@,
                            texts(chain@),
                            name@,
                            items,
                            (j + 1) as nat,
                            items.len(),
                        );
                    }
                    let mut c = chain;
                    c.pop();
                    assert(c@ =~= chain0);
                    let e = SceneError::UnsupportedInclude(p);
                    assert(ids_result(Err(e)) == scene_ids_from(catalog@, texts(chain0), name@));
                    return (c, Err(e));
                },
                Some(s) => {
                    let (back, res) = collect_scene_ids(catalog, chain, s.as_str());
                    chain = back;
                    match res {
                        Err(e) => {
                            proof {
                                lemma_included_err_persists(
                                    catalog@,
                                    texts(chain@),
                                    name@,
                                    items,
                                    (j + 1) as nat,
                                    items.len(),
                                );
                            }
                            let mut c = chain;
                            c.pop();
                            assert(c@ =~= chain0);
                            return (c, Err(e));
                        },
                        Ok(sub) => {
                            let mut q: usize = 0;
                            let ghost ids0 = texts(ids@);
                            while q < sub.len()
                                invariant
                                    q <= sub@.len(),
                                    texts(ids@) == ids0 + texts(sub@).take(q as int),
                                decreases sub@.len() - q,
                            {
                                let ghost before = ids@;
                                ids.push(sub[q].clone());
                                proof {
                                    lemma_texts_push(before, sub@[q as int]);
                                }
                                assert(texts(sub@)[q as int] == sub@[q as int]@);
                                assert(texts(ids@) =~= ids0 + texts(sub@).take(q + 1));
                                q = q + 1;
                            }
                            assert(texts(sub@).take(q as int) =~= texts(sub@));
                            assert(texts(ids@) =~= own + (acc + texts(sub@)));
                        },
                    }
                },
            },
        }
        j = j + 1;
    }
    let mut c = chain;
    c.pop();
    assert(c@ =~= chain0);
    (c, Ok(ids))
}

/// `s` without repetitions: each element where it first occurs.
pub open spec fn dedupe(s: Seq<Seq<char>>) -> Seq<Seq<char>>
    decreases s.len(),
{
    if s.len() == 0 {
        s
    } else {
        let d = dedupe(s.drop_last());
        if d.contains(s.last()) {
            d
        } else {
            d.push(s.last())
        }
    }
}

pub proof fn lemma_dedupe(s: Seq<Seq<char>>)
    ensures
        dedupe(s).no_duplicates(),
        forall|x: Seq<char>| dedupe(s).contains(x) <==> s.contains(x),
    decreases s.len(),
{
    if s.len() > 0 {
        let t = s.drop_last();
        lemma_dedupe(t);
        assert forall|x: Seq<char>| s.contains(x) <==> (t.contains(x) || x == s.last()) by {
            if s.contains(x) {
                let i = choose|i: int| 0 <= i < s.len() && s[i] == x;
                if i < s.len() - 1 {
                    assert(t[i] == x);
                }
            }
            if t.contains(x) {
                let i = choose|i: int| 0 <= i < t.len() && t[i] == x;
                assert(s[i] == x);
            }
            if x == s.last() {
                assert(s[s.len() - 1] == x);
            }
        }
        let d = dedupe(t);
        if !d.contains(s.last()) {
            let e = d.push(s.last());
            assert forall|x: Seq<char>| e.contains(x) <==> (d.contains(x) || x == s.last()) by {
                if e.contains(x) {
                    let i = choose|i: int| 0 <= i < e.len() && e[i] == x;
                    if i < d.len() {
                        assert(d[i] == x);
                    }
                }
                if d.contains(x) {
                    let i = choose|i: int| 0 <= i < d.len() && d[i] == x;
                    assert(e[i] == x);
                }
                if x == s.last() {
                    assert(e[e.len() - 1] == x);
                }
            }
            assert forall|i: int, j: int| 0 <= i < e.len() && 0 <= j < e.len() && i != j implies e[i]
                != e[j] by {
                if i < d.len() && j < d.len() {
                } else if i < d.len() {
                    assert(d.contains(d[i]));
                } else {
                    assert(d.contains(d[j]));
                }
            }
        }
    }
}

/// Keeps the first occurrence of each id.
fn dedupe_ids(v: Vec<String>) -> (r: Vec<String>)
    ensures
        texts(r@) == dedupe(texts(v@)),
{
    let mut r: Vec<String> = Vec::new();
    let mut i: usize = 0;
    while i < v.len()
        invariant
            i <= v@.len(),
            texts(r@) == dedupe(texts(v@).take(i as int)),
        decreases v@.len() - i,
    {
        let ghost t = texts(v@).take(i + 1);
        assert(t.drop_last() =~= texts(v@).take(i as int));
        assert(t.last() == v@[i as int]@);
        if !chain_contains(&r, v[i].as_str()) {
            let ghost before = r@;
            r.push(v[i].clone());
            proof {
                lemma_texts_push(before, v@[i as int]);
            }
        }
        i = i + 1;
    }
    assert(texts(v@).take(i as int) =~= texts(v@));
    r
}

/// The service ids of scene `scene_name`, each once: its own, then, include
/// by include, those of the scenes it includes, transitively. `catalog`
/// holds the manifests of the known scenes by name.
pub fn get_scene_service_ids(scene_name: &str, catalog: &Vec<(String, DockerComposeFile)>) -> (r: Result<Vec<String>, SceneError>)
    ensures
        match (r, scene_ids_from(catalog@, Seq::empty(), scene_name@)) {
            (Ok(v), Ok(raw)) => texts(v@) == dedupe(raw),
            (Err(e), Err(f)) => e@ == f,
            _ => false,
        },
{
    let (_, res) = collect_scene_ids(catalog, Vec::new(), scene_name);
    assert(texts(Seq::<String>::empty()) =~= Seq::<Seq<char>>::empty());
    match res {
        Ok(v) => Ok(dedupe_ids(v)),
        Err(e) => Err(e),
    }
}

/// All of `part` occurs in `whole`.
pub open spec fn within(part: Seq<Seq<char>>, whole: Seq<Seq<char>>) -> bool {
    forall|x: Seq<char>| part.contains(x) ==> whole.contains(x)
}

/// The ids gathered for the scene an include entry names, where it names
/// one, are all in `whole`.
pub open spec fn include_covered(
    catalog: Seq<(String, DockerComposeFile)>,
    chain: Seq<Seq<char>>,
    scene: Seq<char>,
    item: DockerComposeIncludeEnum,
    whole: Seq<Seq<char>>,
) -> bool {
    match include_path_of(item) {
        None => true,
        Some(p) => match scene_of_include(scene, p) {
            None => true,
            Some(s) => match scene_ids_from(catalog, chain, s) {
                Ok(sub) => within(sub, whole),
                Err(_) => false,
            },
        },
    }
}

proof fn lemma_included_cover(
    catalog: Seq<(String, DockerComposeFile)>,
    chain: Seq<Seq<char>>,
    scene: Seq<char>,
    items: Seq<DockerComposeIncludeEnum>,
    n: nat,
)
    requires
        included_ids_from(catalog, chain, scene, items, n) is Ok,
    ensures
        forall|j: int|
            0 <= j < n ==> include_covered(
                catalog,
                chain,
                scene,
                #[trigger] items[j],
                included_ids_from(catalog, chain, scene, items, n)->Ok_0,
            ),
    decreases n,
{
    if n > 0 {
        let m = (n - 1) as nat;
        lemma_included_cover(catalog, chain, scene, items, m);
        let acc = included_ids_from(catalog, chain, scene, items, m)->Ok_0;
        let all = included_ids_from(catalog, chain, scene, items, n)->Ok_0;
        assert(within(acc, all)) by {
            assert forall|x: Seq<char>| acc.contains(x) implies all.contains(x) by {
                let i = choose|i: int| 0 <= i < acc.len() && acc[i] == x;
                if all != acc {
                    let b = all.skip(acc.len() as int);
                    assert(all =~= acc + b);
                }
                assert(all[i] == x);
            }
        }
        assert forall|j: int| 0 <= j < n implies include_covered(
            catalog,
            chain,
            scene,
            #[trigger] items[j],
            all,
        ) by {
            if j < m {
                assert(include_covered(catalog, chain, scene, items[j], acc));
                match include_path_of(items[j]) {
                    None => {},
                    Some(p) => match scene_of_include(scene, p) {
                        None => {},
                        Some(s) => {
                            let sub = scene_ids_from(catalog, chain, s)->Ok_0;
                            assert forall|x: Seq<char>| sub.contains(x) implies all.contains(x) by {
                                assert(acc.contains(x));
                            }
                        },
                    },
                }
            } else {
                match include_path_of(items[j]) {
                    None => {},
                    Some(p) => match scene_of_include(scene, p) {
                        None => {},
                        Some(s) => {
                            let sub = scene_ids_from(catalog, chain, s)->Ok_0;
                            assert(all == acc + sub);
                            assert forall|x: Seq<char>| sub.contains(x) implies all.contains(x) by {
                                let i = choose|i: int| 0 <= i < sub.len() && sub[i] == x;
                                assert(all[acc.len() + i] == x);
                            }
                        },
                    },
                }
            }
        }
    }
}

/// Scenes are discovered transitively: the ids gathered for a scene, once
/// repetitions are dropped, hold no id twice, hold every service of its own
/// manifest, and hold every id gathered for each scene its includes name,
/// which in turn hold those of the scenes they include.
pub proof fn lemma_scene_ids_transitive(
    catalog: Seq<(String, DockerComposeFile)>,
    chain: Seq<Seq<char>>,
    name: Seq<char>,
)
    requires
        scene_ids_from(catalog, chain, name) is Ok,
    ensures
        ({
            let ids = dedupe(scene_ids_from(catalog, chain, name)->Ok_0);
            let f = manifest_of(catalog, name);
            &&& ids.no_duplicates()
            &&& within(own_ids(f), ids)
            &&& forall|j: int|
                0 <= j < includes_of(f).len() ==> include_covered(
                    catalog,
                    chain.push(name),
                    name,
                    #[trigger] includes_of(f)[j],
                    ids,
                )
        }),
{
    let raw = scene_ids_from(catalog, chain, name)->Ok_0;
    let f = manifest_of(catalog, name);
    let items = includes_of(f);
    let sub = included_ids_from(catalog, chain.push(name), name, items, items.len())->Ok_0;
    lemma_dedupe(raw);
    lemma_included_cover(catalog, chain.push(name), name, items, items.len());
    let ids = dedupe(raw);
    assert(raw == own_ids(f) + sub);
    assert forall|x: Seq<char>| own_ids(f).contains(x) implies ids.contains(x) by {
        let i = choose|i: int| 0 <= i < own_ids(f).len() && own_ids(f)[i] == x;
        assert(raw[i] == x);
        assert(raw.contains(x));
    }
    assert forall|x: Seq<char>| sub.contains(x) implies ids.contains(x) by {
        let i = choose|i: int| 0 <= i < sub.len() && sub[i] == x;
        assert(raw[own_ids(f).len() + i] == x);
        assert(raw.contains(x));
    }
    assert forall|j: int| 0 <= j < items.len() implies include_covered(
        catalog,
        chain.push(name),
        name,
        #[trigger] items[j],
        ids,
    ) by {
        assert(include_covered(catalog, chain.push(name), name, items[j], sub));
        match include_path_of(items[j]) {
            None => {},
            Some(p) => match scene_of_include(name, p) {
                None => {},
                Some(s) => {
                    let b = scene_ids_from(catalog, chain.push(name), s)->Ok_0;
                    assert forall|x: Seq<char>| b.contains(x) implies ids.contains(x) by {
                        assert(sub.contains(x));
                    }
                },
            },
        }
    }
}

/// What an include entry says for a manifest of scene `scene`: no scene
/// (`Ok(None)`), the scene it names, or an unsupported path.
pub open spec fn include_target(scene: Seq<char>, item: DockerComposeIncludeEnum) -> Result<Option<Seq<char>>, Seq<char>> {
    match include_path_of(item) {
        None => Ok(None),
        Some(p) => match scene_of_include(scene, p) {
            None => Err(p),
            Some(s) => Ok(Some(s)),
        },
    }
}

fn include_target_of(scene_name: &str, item: &DockerComposeIncludeEnum) -> (r: Result<Option<String>, String>)
    ensures
        match (r, include_target(scene_name@, *item)) {
            (Ok(None), Ok(None)) => true,
            (Ok(Some(a)), Ok(Some(b))) => a@ == b,
            (Err(a), Err(b)) => a@ == b,
            _ => false,
        },
{
    match include_path(item) {
        None => Ok(None),
        Some(p) => match included_scene_name(scene_name, p.as_str()) {
            None => Err(p),
            Some(s) => Ok(Some(s)),
        },
    }
}

/// The scenes named by the first `n` include entries of scene `scene`.
pub open spec fn included_scenes_from(scene: Seq<char>, items: Seq<DockerComposeIncludeEnum>, n: nat) -> Result<Seq<Seq<char>>, SceneErrorView>
    decreases n,
{
    if n == 0 {
        Ok(Seq::empty())
    } else {
        match included_scenes_from(scene, items, (n - 1) as nat) {
            Err(e) => Err(e),
            Ok(acc) => match include_target(scene, items[n - 1]) {
                Ok(None) => Ok(acc),
                Ok(Some(s)) => Ok(acc.push(s)),
                Err(p) => Err(SceneErrorView::UnsupportedInclude(p)),
            },
        }
    }
}

pub open spec fn scene_names(v: Seq<Scene>) -> Seq<Seq<char>> {
    v.map_values(|s: Scene| s.name@)
}

/// The scenes that the manifest `file` of scene `scene_name` includes, in order.
pub fn get_included_scenes(scene_name: &str, file: &DockerComposeFile) -> (r: Result<Vec<Scene>, SceneError>)
    ensures
        match (r, included_scenes_from(scene_name@, includes_of(*file), includes_of(*file).len())) {
            (Ok(v), Ok(names)) => scene_names(v@) == names,
            (Err(e), Err(f)) => e@ == f,
            _ => false,
        },
{
    let empty: Vec<DockerComposeIncludeEnum> = Vec::new();
    let items = match &file.includes {
        Some(v) => v,
        None => &empty,
    };
    assert(items@ == includes_of(*file));
    let mut out: Vec<Scene> = Vec::new();
    let mut i: usize = 0;
    while i < items.len()
        invariant
            i <= items@.len(),
            items@ == includes_of(*file),
            included_scenes_from(scene_name@, items@, i as nat) matches Ok(acc) && scene_names(out@) == acc,
        decreases items@.len() - i,
    {
        match include_target_of(scene_name, &items[i]) {
            Ok(None) => {},
            Ok(Some(s)) => {
                let ghost before = out@;
                out.push(Scene { name: s });
                assert(scene_names(out@) =~= scene_names(before).push(out@.last().name@));
            },
            Err(p) => {
                proof {
                    lemma_included_scenes_err_persists(scene_name@, items@, (i + 1) as nat, items@.len());
                }
                return Err(SceneError::UnsupportedInclude(p));
            },
        }
        i = i + 1;
    }
    Ok(out)
}

proof fn lemma_included_scenes_err_persists(scene: Seq<char>, items: Seq<DockerComposeIncludeEnum>, j: nat, n: nat)
    requires
        j <= n,
        included_scenes_from(scene, items, j) is Err,
    ensures
        included_scenes_from(scene, items, n) == included_scenes_from(scene, items, j),
    decreases n,
{
    if j < n {
        lemma_included_scenes_err_persists(scene, items, j, (n - 1) as nat);
    }
}

/// The include entries, among the first `n`, that remain once those naming
/// scene `target` are dropped from a manifest of scene `scene`.
pub open spec fn kept_includes(
    scene: Seq<char>,
    target: Seq<char>,
    items: Seq<DockerComposeIncludeEnum>,
    n: nat,
) -> Result<Seq<DockerComposeIncludeEnum>, SceneErrorView>
    decreases n,
{
    if n == 0 {
        Ok(Seq::empty())
    } else {
        match kept_includes(scene, target, items, (n - 1) as nat) {
            Err(e) => Err(e),
            Ok(acc) => match include_target(scene, items[n - 1]) {
                Ok(Some(s)) => if s == target {
                    Ok(acc)
                } else {
                    Ok(acc.push(items[n - 1]))
                },
                Ok(None) => Ok(acc.push(items[n - 1])),
                Err(p) => Err(SceneErrorView::UnsupportedInclude(p)),
            },
        }
    }
}

proof fn lemma_kept_err_persists(
    scene: Seq<char>,
    target: Seq<char>,
    items: Seq<DockerComposeIncludeEnum>,
    j: nat,
    n: nat,
)
    requires
        j <= n,
        kept_includes(scene, target, items, j) is Err,
    ensures
        kept_includes(scene, target, items, n) == kept_includes(scene, target, items, j),
    decreases n,
{
    if j < n {
        lemma_kept_err_persists(scene, target, items, j, (n - 1) as nat);
    }
}

/// Drops from the manifest `file` of scene `scene_name` the includes of
/// scene `scene_name_to_detach`. On error the manifest is left as it was.
pub fn detach_scene(scene_name: &str, scene_name_to_detach: &str, file: &mut DockerComposeFile) -> (r: Result<(), SceneError>)
    ensures
        final(file).services == old(file).services,
        final(file).extra == old(file).extra,
        r is Err ==> *final(file) == *old(file),
        match old(file).includes {
            None => r is Ok && *final(file) == *old(file),
            Some(v) => match (r, kept_includes(scene_name@, scene_name_to_detach@, v@, v@.len())) {
                (Ok(()), Ok(kept)) => final(file).includes matches Some(w) && w@ == kept,
                (Err(e), Err(f)) => e@ == f,
                _ => false,
            },
        },
{
    let n = match &file.includes {
        None => {
            return Ok(());
        },
        Some(v) => v.len(),
    };
    let ghost items = match old(file).includes {
        Some(v) => v@,
        None => Seq::empty(),
    };
    let target = String::from_str(scene_name_to_detach);
    let mut keep: Vec<bool> = Vec::new();
    let mut i: usize = 0;
    while i < n
        invariant
            i <= n,
            *file == *old(file),
            target@ == scene_name_to_detach@,
            file.includes matches Some(v) && v@ == items,
            n == items.len(),
            keep@.len() == i,
            kept_includes(scene_name@, scene_name_to_detach@, items, i as nat) is Ok,
            forall|j: int|
                0 <= j < i ==> (#[trigger] keep@[j]) == (include_target(scene_name@, items[j]) != Ok::<
                    Option<Seq<char>>,
                    Seq<char>,
                >(Some(scene_name_to_detach@))),
        decreases n - i,
    {
        let item = match &file.includes {
            Some(v) => &v[i],
            None => {
                return Ok(());
            },
        };
        match include_target_of(scene_name, item) {
            Ok(None) => keep.push(true),
            Ok(Some(s)) => keep.push(!(s == target)),
            Err(p) => {
                proof {
                    lemma_kept_err_persists(scene_name@, scene_name_to_detach@, items, (i + 1) as nat, n as nat);
                }
                return Err(SceneError::UnsupportedInclude(p));
            },
        }
        i = i + 1;
    }
    let mut rest = match file.includes.take() {
        Some(v) => v,
        None => Vec::new(),
    };
    assert(rest@ == items);
    let mut kept: Vec<DockerComposeIncludeEnum> = Vec::new();
    let mut j: usize = 0;
    while j < n
        invariant
            j <= n,
            n == items.len(),
            keep@.len() == n,
            rest@ == items.skip(j as int),
            kept_includes(scene_name@, scene_name_to_detach@, items, j as nat) matches Ok(acc) && kept@ == acc,
            kept_includes(scene_name@, scene_name_to_detach@, items, n as nat) is Ok,
            forall|x: int|
                0 <= x < n ==> (#[trigger] keep@[x]) == (include_target(scene_name@, items[x]) != Ok::<
                    Option<Seq<char>>,
                    Seq<char>,
                >(Some(scene_name_to_detach@))),
        decreases n - j,
    {
        proof {
            if kept_includes(scene_name@, scene_name_to_detach@, items, (j + 1) as nat) is Err {
                lemma_kept_err_persists(scene_name@, scene_name_to_detach@, items, (j + 1) as nat, n as nat);
            }
        }
        let item = rest.remove(0);
        assert(item == items[j as int]);
        assert(rest@ =~= items.skip(j + 1));
        if keep[j] {
            kept.push(item);
        }
        j = j + 1;
    }
    assert(items.len() == n);
    file.includes = Some(kept);
    Ok(())
}

/// The ids of `a` that also occur in `b`, in the order of `a`.
pub open spec fn common_ids(a: Seq<Seq<char>>, b: Seq<Seq<char>>) -> Seq<Seq<char>>
    decreases a.len(),
{
    if a.len() == 0 {
        a
    } else if b.contains(a.last()) {
        common_ids(a.drop_last(), b).push(a.last())
    } else {
        common_ids(a.drop_last(), b)
    }
}

/// The include entry that brings in the manifest of scene `name`.
pub open spec fn is_import_of(item: DockerComposeIncludeEnum, name: Seq<char>) -> bool {
    match item {
        DockerComposeIncludeEnum::Object(o) => match o.path {
            Some(DockerComposeIncludeStringOrList::String(p)) => p@ == "../"@ + name
                + "/docker-compose.yml"@ && o.env_file is None && o.project_directory is None,
            _ => false,
        },
        _ => false,
    }
}

/// Makes the manifest `file` of scene `scene_name` include the manifest of
/// scene `scene_name_to_import`, unless the two scenes (with all they
/// include, as `catalog` knows them) share a service id. On error the
/// manifest is left as it was.
pub fn import_scene(
    scene_name: &str,
    scene_name_to_import: &str,
    catalog: &Vec<(String, DockerComposeFile)>,
    file: &mut DockerComposeFile,
) -> (r: Result<(), SceneError>)
    ensures
        final(file).services == old(file).services,
        final(file).extra == old(file).extra,
        r is Err ==> *final(file) == *old(file),
        match (
            scene_ids_from(catalog@, Seq::empty(), scene_name@),
            scene_ids_from(catalog@, Seq::empty(), scene_name_to_import@),
        ) {
            (Err(e), _) => r matches Err(x) && x@ == e,
            (Ok(_), Err(e)) => r matches Err(x) && x@ == e,
            (Ok(a), Ok(b)) => {
                let c = common_ids(dedupe(a), dedupe(b));
                if c.len() > 0 {
                    r matches Err(x) && x@ == SceneErrorView::OverlappingServices(c)
                } else {
                    &&& r is Ok
                    &&& final(file).includes matches Some(w) && w@.drop_last() == includes_of(
                        *old(file),
                    ) && w@.len() > 0 && is_import_of(w@.last(), scene_name_to_import@)
                }
            },
        },
{
    let a = match get_scene_service_ids(scene_name, catalog) {
        Ok(v) => v,
        Err(e) => {
            return Err(e);
        },
    };
    let b = match get_scene_service_ids(scene_name_to_import, catalog) {
        Ok(v) => v,
        Err(e) => {
            return Err(e);
        },
    };
    let mut common: Vec<String> = Vec::new();
    let mut i: usize = 0;
    while i < a.len()
        invariant
            i <= a@.len(),
            texts(common@) == common_ids(texts(a@).take(i as int), texts(b@)),
        decreases a@.len() - i,
    {
        let ghost t = texts(a@).take(i + 1);
        assert(t.drop_last() =~= texts(a@).take(i as int));
        assert(t.last() == a@[i as int]@);
        if chain_contains(&b, a[i].as_str()) {
            let ghost before = common@;
            common.push(a[i].clone());
            proof {
                lemma_texts_push(before, a@[i as int]);
            }
        }
        i = i + 1;
    }
    assert(texts(a@).take(i as int) =~= texts(a@));
    if common.len() > 0 {
        return Err(SceneError::OverlappingServices(common));
    }
    let mut p = String::from_str("../");
    p.append(scene_name_to_import);
    p.append("/docker-compose.yml");
    let item = DockerComposeIncludeEnum::Object(
        DockerComposeIncludeObject {
            path: Some(DockerComposeIncludeStringOrList::String(p)),
            env_file: None,
            project_directory: None,
        },
    );
    let mut items = match file.includes.take() {
        Some(v) => v,
        None => Vec::new(),
    };
    let ghost before = items@;
    items.push(item);
    assert(items@.drop_last() =~= before);
    file.includes = Some(items);
    Ok(())
}

/// Scene `name` and, include by include, the scenes it includes, with
/// repetitions; `chain` holds the scenes whose includes led here.
pub open spec fn scene_order_from(
    catalog: Seq<(String, DockerComposeFile)>,
    chain: Seq<Seq<char>>,
    name: Seq<char>,
) -> Result<Seq<Seq<char>>, SceneErrorView>
    decreases catalog.len() - chain.len(), 0int,
{
    if chain.contains(name) {
        Err(SceneErrorView::CyclicInclude(name))
    } else if !has_key(catalog, name) {
        Err(SceneErrorView::SceneNotFound(name))
    } else if chain.len() >= catalog.len() {
        Err(SceneErrorView::CyclicInclude(name))
    } else {
        let f = manifest_of(catalog, name);
        match included_order_from(
            catalog,
            chain.push(name),
            name,
            includes_of(f),
            includes_of(f).len(),
        ) {
            Ok(sub) => Ok(seq![name] + sub),
            Err(e) => Err(e),
        }
    }
}

/// Scenes brought in by the first `n` includes of scene `scene`.
pub open spec fn included_order_from(
    catalog: Seq<(String, DockerComposeFile)>,
    chain: Seq<Seq<char>>,
    scene: Seq<char>,
    items: Seq<DockerComposeIncludeEnum>,
    n: nat,
) -> Result<Seq<Seq<char>>, SceneErrorView>
    decreases catalog.len() - chain.len(), n,
{
    if n == 0 {
        Ok(Seq::empty())
    } else {
        match included_order_from(catalog, chain, scene, items, (n - 1) as nat) {
            Err(e) => Err(e),
            Ok(acc) => match include_path_of(items[n - 1]) {
                None => Ok(acc),
                Some(p) => match scene_of_include(scene, p) {
                    None => Err(SceneErrorView::UnsupportedInclude(p)),
                    Some(s) => match scene_order_from(catalog, chain, s) {
                        Err(e) => Err(e),
                        Ok(b) => Ok(acc + b),
                    },
                },
            },
        }
    }
}

proof fn lemma_included_order_err_persists(
    catalog: Seq<(String, DockerComposeFile)>,
    chain: Seq<Seq<char>>,
    scene: Seq<char>,
    items: Seq<DockerComposeIncludeEnum>,
    j: nat,
    n: nat,
)
    requires
        j <= n,
        included_order_from(catalog, chain, scene, items, j) is Err,
    ensures
        included_order_from(catalog, chain, scene, items, n) == included_order_from(
            catalog,
            chain,
            scene,
            items,
            j,
        ),
    decreases n,
{
    if j < n {
        lemma_included_order_err_persists(catalog, chain, scene, items, j, (n - 1) as nat);
    }
}

/// Lists scene `name` and, include by include, all it includes; `chain`
/// holds the scenes whose includes led here and comes back unchanged.
#[verifier::loop_isolation(false)]
fn collect_scene_order(catalog: &Vec<(String, DockerComposeFile)>, chain: Vec<String>, name: &str) -> (r: (
    Vec<String>,
    Result<Vec<String>, SceneError>,
))
    ensures
        r.0@ == chain@,
        ids_result(r.1) == scene_order_from(catalog@, texts(chain@), name@),
    decreases catalog@.len() - chain@.len(),
{
    if chain_contains(&chain, name) {
        return (chain, Err(SceneError::CyclicInclude(String::from_str(name))));
    }
    let i = match find_key(catalog, name) {
        None => {
            return (chain, Err(SceneError::SceneNotFound(String::from_str(name))));
        },
        Some(i) => i,
    };
    if chain.len() >= catalog.len() {
        return (chain, Err(SceneError::CyclicInclude(String::from_str(name))));
    }
    let f = &catalog[i].1;
    proof {
        let c = choose|c: int| first_key_at(catalog@, name@, c);
        lemma_first_key_unique(catalog@, name@, i as int, c);
    }
    let ghost chain0 = chain@;
    let ghost items = includes_of(*f);
    let mut ids: Vec<String> = Vec::new();
    ids.push(String::from_str(name));
    assert(texts(ids@) =~= seq![name@]);
    let mut chain = chain;
    chain.push(String::from_str(name));
    assert(texts(chain@) =~= texts(chain0).push(name@));
    let empty: Vec<DockerComposeIncludeEnum> = Vec::new();
    let incs = match &f.includes {
        Some(v) => v,
        None => &empty,
    };
    assert(incs@ == items);
    let ghost own = texts(ids@);
    let mut j: usize = 0;
    while j < incs.len()
        invariant
            j <= incs@.len(),
            incs@ == items,
            chain@ == chain0.push(chain@.last()),
            chain@.len() == chain0.len() + 1,
            chain0.len() < catalog@.len(),
            texts(chain@) == texts(chain0).push(name@),
            !texts(chain0).contains(name@),
            has_key(catalog@, name@),
            manifest_of(catalog@, name@) == *f,
            items == includes_of(*f),
            own == seq![name@],
            included_order_from(catalog@, texts(chain@), name@, items, j as nat) matches Ok(acc)
                && texts(ids@) == own + acc,
        decreases incs@.len() - j,
    {
        let ghost acc = included_order_from(catalog@, texts(chain@), name@, items, j as nat)->Ok_0;
        match include_path(&incs[j]) {
            None => {},
            Some(p) => match included_scene_name(name, p.as_str()) {
                None => {
                    assert(include_path_of(items[j as int]) == Some(p@));
                    assert(included_order_from(catalog@, texts(chain@), name@, items, (j + 1) as nat)
                        == Err::<Seq<Seq<char>>, _>(SceneErrorView::UnsupportedInclude(p@)));
                    proof {
                        lemma_included_order_err_persists(
                            catalog@,
                            texts(chain@),
                            name@,
                            items,
                            (j + 1) as nat,
                            items.len(),
                        );
                    }
                    let mut c = chain;
                    c.pop();
                    assert(c@ =~= chain0);
                    let e = SceneError::UnsupportedInclude(p);
                    assert(ids_result(Err(e)) == scene_order_from(catalog@, texts(chain0), name@));
                    return (c, Err(e));
                },
                Some(s) => {
                    let (back, res) = collect_scene_order(catalog, chain, s.as_str());
                    chain = back;
                    match res {
                        Err(e) => {
                            proof {
                                lemma_included_order_err_persists(
                                    catalog@,
                                    texts(chain@),
                                    name@,
                                    items,
                                    (j + 1) as nat,
                                    items.len(),
                                );
                            }
                            let mut c = chain;
                            c.pop();
                            assert(c@ =~= chain0);
                            return (c, Err(e));
                        },
                        Ok(sub) => {
                            let mut q: usize = 0;
                            let ghost ids0 = texts(ids@);
                            while q < sub.len()
                                invariant
                                    q <= sub@.len(),
                                    texts(ids@) == ids0 + texts(sub@).take(q as int),
                                decreases sub@.len() - q,
                            {
                                let ghost before = ids@;
                                ids.push(sub[q].clone());
                                proof {
                                    lemma_texts_push(before, sub@[q as int]);
                                }
                                assert(texts(sub@)[q as int] == sub@[q as int]@);
                                assert(texts(ids@) =~= ids0 + texts(sub@).take(q + 1));
                                q = q + 1;
                            }
                            assert(texts(sub@).take(q as int) =~= texts(sub@));
                            assert(texts(ids@) =~= own + (acc + texts(sub@)));
                        },
                    }
                },
            },
        }
        j = j + 1;
    }
    let mut c = chain;
    c.pop();
    assert(c@ =~= chain0);
    (c, Ok(ids))
}

/// `v` lists, scene by scene in `order`, the services of each scene's
/// manifest in `catalog`, in manifest order.
pub open spec fn services_listed(v: Seq<Service>, catalog: Seq<(String, DockerComposeFile)>, order: Seq<Seq<char>>) -> bool
    decreases order.len(),
{
    if order.len() == 0 {
        v.len() == 0
    } else {
        let name = order.last();
        let f = manifest_of(catalog, name);
        let k = if has_key(catalog, name) {
            f.services@.len()
        } else {
            0
        };
        &&& v.len() >= k
        &&& services_listed(v.take(v.len() - k), catalog, order.drop_last())
        &&& forall|j: int|
            0 <= j < k ==> shows_service(
                #[trigger] v[v.len() - k + j],
                name,
                f.services@[j].0@,
                f.services@[j].1,
            )
    }
}

/// The services of scene `scene_name` and of every scene it includes,
/// transitively, scene by scene.
pub fn get_scene_services(scene_name: &str, catalog: &Vec<(String, DockerComposeFile)>) -> (r: Result<Vec<Service>, SceneError>)
    ensures
        match (r, scene_order_from(catalog@, Seq::empty(), scene_name@)) {
            (Ok(v), Ok(order)) => services_listed(v@, catalog@, order),
            (Err(e), Err(f)) => e@ == f,
            _ => false,
        },
{
    let (_, res) = collect_scene_order(catalog, Vec::new(), scene_name);
    assert(texts(Seq::<String>::empty()) =~= Seq::<Seq<char>>::empty());
    let order = match res {
        Ok(v) => v,
        Err(e) => {
            return Err(e);
        },
    };
    let ghost names = texts(order@);
    let mut out: Vec<Service> = Vec::new();
    let mut m: usize = 0;
    while m < order.len()
        invariant
            m <= order@.len(),
            names == texts(order@),
            services_listed(out@, catalog@, names.take(m as int)),
        decreases order@.len() - m,
    {
        let ghost pre = names.take(m + 1);
        assert(pre.drop_last() =~= names.take(m as int));
        assert(pre.last() == order@[m as int]@);
        let ghost out0 = out@;
        match find_key(catalog, order[m].as_str()) {
            None => {
                assert(out@.take(out@.len() - 0) =~= out@);
            },
            Some(i) => {
                let f = &catalog[i].1;
                proof {
                    let c = choose|c: int| first_key_at(catalog@, order@[m as int]@, c);
                    lemma_first_key_unique(catalog@, order@[m as int]@, i as int, c);
                }
                let mut q: usize = 0;
                while q < f.services.len()
                    invariant
                        q <= f.services@.len(),
                        m < order@.len(),
                        out@.len() == out0.len() + q,
                        out@.take(out0.len() as int) == out0,
                        forall|j: int|
                            0 <= j < q ==> shows_service(
                                #[trigger] out@[out0.len() + j],
                                order@[m as int]@,
                                f.services@[j].0@,
                                f.services@[j].1,
                            ),
                    decreases f.services@.len() - q,
                {
                    let s = to_service(order[m].as_str(), &f.services[q].0, &f.services[q].1);
                    let ghost before = out@;
                    out.push(s);
                    assert(out@.take(out0.len() as int) =~= before.take(out0.len() as int));
                    assert forall|j: int| 0 <= j < q + 1 implies shows_service(
                        #[trigger] out@[out0.len() + j],
                        order@[m as int]@,
                        f.services@[j].0@,
                        f.services@[j].1,
                    ) by {
                        if j < q {
                            assert(out@[out0.len() + j] == before[out0.len() + j]);
                        }
                    }
                    q = q + 1;
                }
                assert(manifest_of(catalog@, order@[m as int]@) == *f);
                assert(out@.take(out@.len() - f.services@.len()) =~= out0);
            },
        }
        m = m + 1;
    }
    assert(names.take(m as int) =~= names);
    Ok(out)
}

} // verus!
