use db_mgr::listing::{
    mount_volume, mount_volumes, parse_env, project_container, project_containers,
    split_env_entry, ContainerState, MountInfo, RawContainerInfo,
};

fn s(x: &str) -> Option<String> {
    Some(x.to_string())
}

fn raw(id: Option<String>) -> RawContainerInfo {
    RawContainerInfo {
        id,
        name: s("/db-mgr__pg"),
        image: s("postgres:latest"),
        state: Some(ContainerState::Running),
        mounts: Some(vec![MountInfo {
            name: s("db-mgr__pg__data"),
            source: s("/var/lib/docker/volumes/x"),
            destination: s("/var/lib/postgresql/data"),
        }]),
        env: Some(vec!["POSTGRES_PASSWORD=\"x\"".to_string(), "FLAG".to_string()]),
    }
}

#[test]
fn split_env_at_first_equals() {
    assert_eq!(split_env_entry("A=b=c"), ("A".to_string(), "b=c".to_string()));
    assert_eq!(split_env_entry("FLAG"), ("FLAG".to_string(), "".to_string()));
    assert_eq!(split_env_entry("=v"), ("".to_string(), "v".to_string()));
}

#[test]
fn parse_env_keeps_order() {
    let env = vec!["A=1".to_string(), "B".to_string()];
    assert_eq!(
        parse_env(&env),
        vec![("A".to_string(), "1".to_string()), ("B".to_string(), "".to_string())]
    );
}

#[test]
fn parse_env_later_entry_wins() {
    let env = vec!["A=1".to_string(), "B=2".to_string(), "A=3".to_string()];
    assert_eq!(
        parse_env(&env),
        vec![("A".to_string(), "3".to_string()), ("B".to_string(), "2".to_string())]
    );
}

#[test]
fn mount_volumes_later_destination_wins() {
    let ms = vec![
        MountInfo { name: s("v"), source: None, destination: s("/one") },
        MountInfo { name: s("w"), source: None, destination: s("/w") },
        MountInfo { name: s("v"), source: None, destination: s("/two") },
    ];
    assert_eq!(
        mount_volumes(&ms),
        vec![("v".to_string(), "/two".to_string()), ("w".to_string(), "/w".to_string())]
    );
}

#[test]
fn mount_uses_name_then_source() {
    let named = MountInfo { name: s("v"), source: s("/src"), destination: s("/d") };
    assert_eq!(mount_volume(&named), Some(("v".to_string(), "/d".to_string())));
    let unnamed = MountInfo { name: None, source: s("/src"), destination: s("/d") };
    assert_eq!(mount_volume(&unnamed), Some(("/src".to_string(), "/d".to_string())));
    let no_dest = MountInfo { name: s("v"), source: None, destination: None };
    assert_eq!(mount_volume(&no_dest), None);
    assert_eq!(mount_volumes(&vec![named, no_dest, unnamed]).len(), 2);
}

#[test]
fn complete_entry_is_projected() {
    let c = project_container(&raw(s("abc"))).unwrap();
    assert_eq!(c.id, "abc");
    assert_eq!(c.name, "/db-mgr__pg");
    assert_eq!(c.image, "postgres:latest");
    assert_eq!(c.state, ContainerState::Running);
    assert_eq!(
        c.variables,
        vec![
            ("POSTGRES_PASSWORD".to_string(), "\"x\"".to_string()),
            ("FLAG".to_string(), "".to_string())
        ]
    );
    assert_eq!(
        c.volumes,
        vec![("db-mgr__pg__data".to_string(), "/var/lib/postgresql/data".to_string())]
    );
}

#[test]
fn incomplete_entries_are_dropped() {
    let mut no_state = raw(s("b"));
    no_state.state = None;
    let mut no_image = raw(s("c"));
    no_image.image = None;
    let mut bare = raw(s("d"));
    bare.mounts = None;
    bare.env = None;
    let list = project_containers(&vec![
        Some(raw(s("a"))),
        Some(raw(None)),
        None,
        Some(no_state),
        Some(no_image),
        Some(bare),
    ]);
    let ids: Vec<&str> = list.iter().map(|c| c.id.as_str()).collect();
    assert_eq!(ids, vec!["a", "d"]);
    assert!(list[1].variables.is_empty());
    assert!(list[1].volumes.is_empty());
}

#[test]
fn listing_twice_gives_same_containers() {
    let raws = vec![Some(raw(s("a"))), Some(raw(None)), None, Some(raw(s("b")))];
    let first = project_containers(&raws);
    let second = project_containers(&raws);
    let key = |v: &Vec<db_mgr::listing::DbContainer>| {
        v.iter().map(|c| (c.id.clone(), c.name.clone(), c.image.clone(), c.state)).collect::<Vec<_>>()
    };
    assert_eq!(key(&first), key(&second));
    assert_eq!(first.len(), 2);
}
