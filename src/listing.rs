//! The containers this system manages, as projected from what the runtime
//! reports when it inspects them.

use crate::naming::{
    keys_unique, lemma_with_variable_keeps_keys_unique, pairs_view, set_variable, strings_view,
    with_variable,
};
use vstd::prelude::*;
use vstd::string::StringExecFns;

verus! {

/// Lifecycle state of a container, as the runtime reports it.
#[derive(Clone, Copy, Debug, PartialEq, Eq, Structural)]
pub enum ContainerState {
    Empty,
    Created,
    Running,
    Paused,
    Restarting,
    Removing,
    Exited,
    Dead,
}

/// One mount of an inspected container.
#[derive(Clone, Debug, PartialEq, Eq)]
pub struct MountInfo {
    pub name: Option<String>,
    pub source: Option<String>,
    pub destination: Option<String>,
}

/// What the runtime reports of one inspected container, as far as the
/// listing reads it. The image and the environment come from the
/// container's configuration, and are absent when it has none.
#[derive(Clone, Debug, PartialEq, Eq)]
pub struct RawContainerInfo {
    pub id: Option<String>,
    pub name: Option<String>,
    pub image: Option<String>,
    pub state: Option<ContainerState>,
    pub mounts: Option<Vec<MountInfo>>,
    pub env: Option<Vec<String>>,
}

/// A managed container as listed.
#[derive(Clone, Debug, PartialEq, Eq)]
pub struct DbContainer {
    pub id: String,
    pub name: String,
    pub state: ContainerState,
    /// Environment variable name paired with its value.
    pub variables: Vec<(String, String)>,
    pub image: String,
    /// Volume name paired with the path it is mounted at.
    pub volumes: Vec<(String, String)>,
}

/// The contents of an optional string.
pub open spec fn opt_view(o: Option<String>) -> Option<Seq<char>> {
    match o {
        Some(s) => Some(s@),
        None => None,
    }
}

/// The contents of a [`MountInfo`].
pub struct MountInfoView {
    pub name: Option<Seq<char>>,
    pub source: Option<Seq<char>>,
    pub destination: Option<Seq<char>>,
}

impl View for MountInfo {
    type V = MountInfoView;

    open spec fn view(&self) -> MountInfoView {
        MountInfoView {
            name: opt_view(self.name),
            source: opt_view(self.source),
            destination: opt_view(self.destination),
        }
    }
}

/// The contents of a list of mounts.
pub open spec fn mounts_view(v: Seq<MountInfo>) -> Seq<MountInfoView> {
    v.map_values(|m: MountInfo| m@)
}

/// The contents of a [`RawContainerInfo`].
pub struct RawContainerInfoView {
    pub id: Option<Seq<char>>,
    pub name: Option<Seq<char>>,
    pub image: Option<Seq<char>>,
    pub state: Option<ContainerState>,
    pub mounts: Option<Seq<MountInfoView>>,
    pub env: Option<Seq<Seq<char>>>,
}

impl View for RawContainerInfo {
    type V = RawContainerInfoView;

    open spec fn view(&self) -> RawContainerInfoView {
        RawContainerInfoView {
            id: opt_view(self.id),
            name: opt_view(self.name),
            image: opt_view(self.image),
            state: self.state,
            mounts: match self.mounts {
                Some(m) => Some(mounts_view(m@)),
                None => None,
            },
            env: match self.env {
                Some(e) => Some(strings_view(e@)),
                None => None,
            },
        }
    }
}

/// The contents of a list of inspections, each absent where the container
/// could not be inspected.
pub open spec fn raws_view(v: Seq<Option<RawContainerInfo>>) -> Seq<Option<RawContainerInfoView>> {
    v.map_values(
        |r: Option<RawContainerInfo>|
            match r {
                Some(i) => Some(i@),
                None => None,
            },
    )
}

/// The contents of a [`DbContainer`].
pub struct DbContainerView {
    pub id: Seq<char>,
    pub name: Seq<char>,
    pub state: ContainerState,
    pub variables: Seq<(Seq<char>, Seq<char>)>,
    pub image: Seq<char>,
    pub volumes: Seq<(Seq<char>, Seq<char>)>,
}

impl View for DbContainer {
    type V = DbContainerView;

    open spec fn view(&self) -> DbContainerView {
        DbContainerView {
            id: self.id@,
            name: self.name@,
            state: self.state,
            variables: pairs_view(self.variables@),
            image: self.image@,
            volumes: pairs_view(self.volumes@),
        }
    }
}

/// The contents of a list of listed containers.
impl DbContainer {
    /// No two variables share a name and no two volumes share a name, as
    /// in a map from name to value.
    pub open spec fn has_unique_keys(&self) -> bool {
        keys_unique(self@.variables) && keys_unique(self@.volumes)
    }
}

pub open spec fn containers_view(v: Seq<DbContainer>) -> Seq<DbContainerView> {
    v.map_values(|c: DbContainer| c@)
}

/// `i` is the position of the first `=` in `e`.
pub open spec fn first_equals_at(e: Seq<char>, i: int) -> bool {
    &&& 0 <= i < e.len()
    &&& e[i] == '='
    &&& forall|j: int| 0 <= j < i ==> e[j] != '='
}

/// A `KEY=VALUE` string split at its first `=`; without one, the whole
/// string is the key and the value is empty.
pub open spec fn split_env(e: Seq<char>) -> (Seq<char>, Seq<char>) {
    if exists|i: int| first_equals_at(e, i) {
        let i = choose|i: int| first_equals_at(e, i);
        (e.subrange(0, i), e.subrange(i + 1, e.len() as int))
    } else {
        (e, seq![])
    }
}

/// The variables parsed back from the environment strings: each name once,
/// where it first appears, with the value of its last entry.
pub open spec fn parsed_env(env: Seq<Seq<char>>) -> Seq<(Seq<char>, Seq<char>)>
    decreases env.len(),
{
    if env.len() == 0 {
        seq![]
    } else {
        let kv = split_env(env.last());
        with_variable(parsed_env(env.drop_last()), kv.0, kv.1)
    }
}

/// The volume of a mount, named by its name or else by its source, paired
/// with its destination; none when either is missing.
pub open spec fn mount_pair(m: MountInfoView) -> Option<(Seq<char>, Seq<char>)> {
    let volume = match m.name {
        Some(n) => Some(n),
        None => m.source,
    };
    match (volume, m.destination) {
        (Some(v), Some(d)) => Some((v, d)),
        _ => None,
    }
}

/// The volumes of the mounts that name both a volume and a destination:
/// each volume once, where it first appears, with its last destination.
pub open spec fn mount_pairs(ms: Seq<MountInfoView>) -> Seq<(Seq<char>, Seq<char>)>
    decreases ms.len(),
{
    if ms.len() == 0 {
        seq![]
    } else {
        let rest = mount_pairs(ms.drop_last());
        match mount_pair(ms.last()) {
            Some(p) => with_variable(rest, p.0, p.1),
            None => rest,
        }
    }
}

/// The listed container for one inspection: none when its identifier, name,
/// image or state is missing.
pub open spec fn projected(r: RawContainerInfoView) -> Option<DbContainerView> {
    match (r.id, r.name, r.image, r.state) {
        (Some(id), Some(name), Some(image), Some(state)) => Some(
            DbContainerView {
                id,
                name,
                state,
                variables: match r.env {
                    Some(e) => parsed_env(e),
                    None => seq![],
                },
                image,
                volumes: match r.mounts {
                    Some(m) => mount_pairs(m),
                    None => seq![],
                },
            },
        ),
        _ => None,
    }
}

/// The listed containers for the inspections `rs`, in order, those that
/// could not be inspected or have a missing field left out.
pub open spec fn projected_all(rs: Seq<Option<RawContainerInfoView>>) -> Seq<DbContainerView>
    decreases rs.len(),
{
    if rs.len() == 0 {
        seq![]
    } else {
        let rest = projected_all(rs.drop_last());
        match rs.last() {
            Some(r) => match projected(r) {
                Some(c) => rest.push(c),
                None => rest,
            },
            None => rest,
        }
    }
}

/// A `KEY=VALUE` string split at its first `=`; without one, the whole
/// string is the key and the value is empty.
pub fn split_env_entry(entry: &str) -> (r: (String, String))
    ensures
        (r.0@, r.1@) == split_env(entry@),
{
    let n = entry.unicode_len();
    let mut i: usize = 0;
    while i < n
        invariant
            n == entry@.len(),
            i <= n,
            forall|j: int| 0 <= j < i ==> entry@[j] != '=',
        decreases n - i,
    {
        if entry.get_char(i) == '=' {
            proof {
                assert(first_equals_at(entry@, i as int));
                let k = choose|k: int| first_equals_at(entry@, k);
                assert(k == i);
            }
            let key = String::from_str(entry.substring_char(0, i));
            let value = String::from_str(entry.substring_char(i + 1, n));
            return (key, value);
        }
        i = i + 1;
    }
    proof {
        assert(!exists|k: int| first_equals_at(entry@, k));
    }
    let value = String::new();
    proof {
        assert(value@ =~= seq![]);
    }
    (String::from_str(entry), value)
}

/// The variables parsed back from the environment strings.
pub fn parse_env(env: &Vec<String>) -> (r: Vec<(String, String)>)
    ensures
        pairs_view(r@) == parsed_env(strings_view(env@)),
{
    let mut r: Vec<(String, String)> = Vec::new();
    let mut i: usize = 0;
    while i < env.len()
        invariant
            i <= env.len(),
            pairs_view(r@) == parsed_env(strings_view(env@.subrange(0, i as int))),
        decreases env.len() - i,
    {
        let (key, value) = split_env_entry(env[i].as_str());
        r = set_variable(&r, &key, &value);
        proof {
            assert(strings_view(env@.subrange(0, i + 1)).drop_last() =~= strings_view(
                env@.subrange(0, i as int),
            ));
        }
        i = i + 1;
    }
    proof {
        assert(env@.subrange(0, env@.len() as int) =~= env@);
    }
    r
}

/// The volume of a mount paired with its destination, if both are known.
pub fn mount_volume(m: &MountInfo) -> (r: Option<(String, String)>)
    ensures
        match r {
            Some(p) => mount_pair(m@) == Some((p.0@, p.1@)),
            None => mount_pair(m@) is None,
        },
{
    let volume = match &m.name {
        Some(n) => Some(n.clone()),
        None => match &m.source {
            Some(s) => Some(s.clone()),
            None => None,
        },
    };
    match (volume, &m.destination) {
        (Some(v), Some(d)) => Some((v, d.clone())),
        _ => None,
    }
}

/// The volumes of the mounts that name both a volume and a destination, in order.
pub fn mount_volumes(ms: &Vec<MountInfo>) -> (r: Vec<(String, String)>)
    ensures
        pairs_view(r@) == mount_pairs(mounts_view(ms@)),
{
    let mut r: Vec<(String, String)> = Vec::new();
    let mut i: usize = 0;
    while i < ms.len()
        invariant
            i <= ms.len(),
            pairs_view(r@) == mount_pairs(mounts_view(ms@.subrange(0, i as int))),
        decreases ms.len() - i,
    {
        let ghost before = mounts_view(ms@.subrange(0, i as int));
        let ghost after = mounts_view(ms@.subrange(0, i + 1));
        proof {
            assert(after.drop_last() =~= before);
            assert(after.last() == ms@[i as int]@);
        }
        match mount_volume(&ms[i]) {
            Some(p) => {
                r = set_variable(&r, &p.0, &p.1);
            },
            None => {},
        }
        i = i + 1;
    }
    proof {
        assert(ms@.subrange(0, ms@.len() as int) =~= ms@);
    }
    r
}

/// The listed container for one inspection: none when its identifier, name,
/// image or state is missing.
pub fn project_container(raw: &RawContainerInfo) -> (r: Option<DbContainer>)
    ensures
        match r {
            Some(c) => projected(raw@) == Some(c@) && c.has_unique_keys(),
            None => projected(raw@) is None,
        },
{
    match (&raw.id, &raw.name, &raw.image, raw.state) {
        (Some(id), Some(name), Some(image), Some(state)) => {
            let variables = match &raw.env {
                Some(e) => parse_env(e),
                None => Vec::new(),
            };
            let volumes = match &raw.mounts {
                Some(m) => mount_volumes(m),
                None => Vec::new(),
            };
            let c = DbContainer {
                id: id.clone(),
                name: name.clone(),
                state,
                variables,
                image: image.clone(),
                volumes,
            };
            proof {
                assert(raw.env is None ==> pairs_view(c.variables@) =~= seq![]);
                assert(raw.mounts is None ==> pairs_view(c.volumes@) =~= seq![]);
                if let Some(e) = raw@.env {
                    lemma_parsed_env_keys_unique(e);
                }
                if let Some(m) = raw@.mounts {
                    lemma_mount_pairs_keys_unique(m);
                }
            }
            Some(c)
        },
        _ => None,
    }
}

/// The listed containers for the inspections `raws`, in order, those that
/// could not be inspected (`None`: no identifier in the listing, or the
/// inspection failed) or have a missing field left out.
pub fn project_containers(raws: &Vec<Option<RawContainerInfo>>) -> (r: Vec<DbContainer>)
    ensures
        containers_view(r@) == projected_all(raws_view(raws@)),
        forall|i: int| 0 <= i < r@.len() ==> (#[trigger] r@[i]).has_unique_keys(),
{
    let mut r: Vec<DbContainer> = Vec::new();
    let mut i: usize = 0;
    while i < raws.len()
        invariant
            i <= raws.len(),
            containers_view(r@) == projected_all(raws_view(raws@.subrange(0, i as int))),
            forall|j: int| 0 <= j < r@.len() ==> (#[trigger] r@[j]).has_unique_keys(),
        decreases raws.len() - i,
    {
        let ghost before = raws_view(raws@.subrange(0, i as int));
        let ghost after = raws_view(raws@.subrange(0, i + 1));
        proof {
            assert(after.drop_last() =~= before);
            assert(after.last() == match raws@[i as int] {
                Some(x) => Some(x@),
                None => None,
            });
        }
        let ghost r_before = r@;
        let projected_one = match &raws[i] {
            Some(raw) => project_container(raw),
            None => None,
        };
        match projected_one {
            Some(c) => {
                r.push(c);
                proof {
                    assert(containers_view(r@) =~= containers_view(r_before).push(c@));
                }
            },
            None => {},
        }
        i = i + 1;
    }
    proof {
        assert(raws@.subrange(0, raws@.len() as int) =~= raws@);
    }
    r
}

/// Parsed environments name each variable once.
pub proof fn lemma_parsed_env_keys_unique(env: Seq<Seq<char>>)
    ensures
        keys_unique(parsed_env(env)),
    decreases env.len(),
{
    if env.len() > 0 {
        lemma_parsed_env_keys_unique(env.drop_last());
        let kv = split_env(env.last());
        lemma_with_variable_keeps_keys_unique(parsed_env(env.drop_last()), kv.0, kv.1);
    }
}

/// Listed mounts name each volume once.
pub proof fn lemma_mount_pairs_keys_unique(ms: Seq<MountInfoView>)
    ensures
        keys_unique(mount_pairs(ms)),
    decreases ms.len(),
{
    if ms.len() > 0 {
        lemma_mount_pairs_keys_unique(ms.drop_last());
        if let Some(p) = mount_pair(ms.last()) {
            lemma_with_variable_keeps_keys_unique(mount_pairs(ms.drop_last()), p.0, p.1);
        }
    }
}

/// Listing is a function of what the runtime reports: two listings over the
/// same inspections, with no change to the runtime between them, give the
/// same containers with the same identifiers and derived fields.
pub proof fn lemma_listing_is_repeatable(
    a: Seq<Option<RawContainerInfoView>>,
    b: Seq<Option<RawContainerInfoView>>,
)
    requires
        a == b,
    ensures
        projected_all(a) == projected_all(b),
{
}

} // verus!
