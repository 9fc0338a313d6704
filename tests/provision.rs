use db_mgr::container::DbContainerConfig;
use db_mgr::provision::{
    inspection_outcome, pull_outcome, record_progress, Action, CreateContainerEvent,
    InspectAnswer, LayerProgress, Outcome, Provisioner, PullNotification,
};

fn pairs(v: &[(&str, &str)]) -> Vec<(String, String)> {
    v.iter().map(|(a, b)| (a.to_string(), b.to_string())).collect()
}

fn pg_config() -> DbContainerConfig {
    DbContainerConfig {
        name: "pg".to_string(),
        variables: pairs(&[("POSTGRES_PASSWORD", "x"), ("UNUSED", "")]),
        image: "postgres".to_string(),
        volumes: pairs(&[("data", "/var/lib/postgresql/data")]),
        tag: "".to_string(),
    }
    .prepared()
}

fn layer(id: &str, current: u64, total: u64) -> LayerProgress {
    LayerProgress { layer: id.to_string(), current, total }
}

/// Feeds `answers` to a run for `config`; returns the events and the
/// requests in order.
fn drive(config: DbContainerConfig, answers: Vec<Outcome>) -> (Vec<CreateContainerEvent>, Vec<Action>) {
    let (mut p, first) = Provisioner::start(config);
    let mut events = Vec::new();
    let mut actions = vec![first.action];
    for a in answers {
        let step = p.step(a);
        if let Some(e) = step.emit {
            events.push(e);
        }
        actions.push(step.action);
    }
    (events, actions)
}

fn is_pulling(e: &CreateContainerEvent) -> bool {
    matches!(e, CreateContainerEvent::Pulling(_))
}

#[test]
fn end_to_end_pg_run() {
    let config = pg_config();
    let (events, actions) = drive(
        config,
        vec![
            Outcome::Absent,
            Outcome::Absent,
            Outcome::Progress(Some(layer("l1", 10, 100))),
            Outcome::PullComplete,
            Outcome::Absent,
            Outcome::Succeeded,
            Outcome::Created("abc123".to_string()),
            Outcome::Succeeded,
        ],
    );
    match &actions[0] {
        Action::InspectContainer(n) => assert_eq!(n, "db-mgr__pg"),
        a => panic!("unexpected {a:?}"),
    }
    match &actions[1] {
        Action::InspectVolume(n) => assert_eq!(n, "db-mgr__pg__data"),
        a => panic!("unexpected {a:?}"),
    }
    match &actions[2] {
        Action::PullImage { image, tag } => {
            assert_eq!(image, "postgres");
            assert_eq!(tag, "latest");
        }
        a => panic!("unexpected {a:?}"),
    }
    assert!(matches!(actions[3], Action::NextPullNotification));
    match &actions[4] {
        Action::InspectVolume(n) => assert_eq!(n, "db-mgr__pg__data"),
        a => panic!("unexpected {a:?}"),
    }
    match &actions[5] {
        Action::CreateVolume { name, labels } => {
            assert_eq!(name, "db-mgr__pg__data");
            assert_eq!(labels, &pairs(&[("db-mgr-resource", "volume")]));
        }
        a => panic!("unexpected {a:?}"),
    }
    match &actions[6] {
        Action::CreateContainer(r) => {
            assert_eq!(r.name, "db-mgr__pg");
            assert_eq!(r.image, "postgres:latest");
            assert_eq!(r.env, vec!["POSTGRES_PASSWORD=\"x\"".to_string()]);
            assert_eq!(r.mounts, pairs(&[("db-mgr__pg__data", "/var/lib/postgresql/data")]));
            assert_eq!(r.labels, pairs(&[("db-mgr-resource", "container")]));
        }
        a => panic!("unexpected {a:?}"),
    }
    match &actions[7] {
        Action::StartContainer(id) => assert_eq!(id, "abc123"),
        a => panic!("unexpected {a:?}"),
    }
    assert!(matches!(actions[8], Action::Finish));
    assert_eq!(events.len(), 4);
    assert!(is_pulling(&events[0]));
    assert!(is_pulling(&events[1]));
    assert!(matches!(events[2], CreateContainerEvent::Building));
    assert!(matches!(events[3], CreateContainerEvent::Done));
}

#[test]
fn container_name_conflict_gives_single_error() {
    let (events, actions) = drive(
        pg_config(),
        vec![Outcome::Present, Outcome::Absent, Outcome::PullComplete, Outcome::Succeeded],
    );
    assert_eq!(events.len(), 1);
    match &events[0] {
        CreateContainerEvent::Error(m) => assert!(m.contains("db-mgr__pg")),
        e => panic!("unexpected {e:?}"),
    }
    assert!(actions[1..].iter().all(|a| matches!(a, Action::Finish)));
}

#[test]
fn volume_name_conflict_gives_single_error() {
    let (events, actions) = drive(
        pg_config(),
        vec![Outcome::Absent, Outcome::Present, Outcome::PullComplete, Outcome::Succeeded],
    );
    assert_eq!(events.len(), 1);
    match &events[0] {
        CreateContainerEvent::Error(m) => assert!(m.contains("db-mgr__pg__data")),
        e => panic!("unexpected {e:?}"),
    }
    assert!(actions[2..].iter().all(|a| matches!(a, Action::Finish)));
}

#[test]
fn successful_run_without_pull_notifications() {
    let config = DbContainerConfig {
        name: "cache".to_string(),
        variables: Vec::new(),
        image: "redis".to_string(),
        volumes: Vec::new(),
        tag: "7".to_string(),
    }
    .prepared();
    let (events, actions) = drive(
        config,
        vec![
            Outcome::Absent,
            Outcome::PullComplete,
            Outcome::Created("id".to_string()),
            Outcome::Succeeded,
        ],
    );
    assert_eq!(events.len(), 3);
    assert!(is_pulling(&events[0]));
    assert!(matches!(events[1], CreateContainerEvent::Building));
    assert!(matches!(events[2], CreateContainerEvent::Done));
    match &actions[2] {
        Action::CreateContainer(r) => assert_eq!(r.image, "redis:7"),
        a => panic!("unexpected {a:?}"),
    }
}

#[test]
fn successful_run_with_two_volumes() {
    let config = DbContainerConfig {
        name: "m".to_string(),
        variables: Vec::new(),
        image: "mysql".to_string(),
        volumes: pairs(&[("a", "/a"), ("b", "/b")]),
        tag: "8".to_string(),
    }
    .prepared();
    let (events, actions) = drive(
        config,
        vec![
            Outcome::Absent,
            Outcome::Absent,
            Outcome::Absent,
            Outcome::Progress(None),
            Outcome::Progress(None),
            Outcome::PullComplete,
            Outcome::Absent,
            Outcome::Succeeded,
            Outcome::Absent,
            Outcome::Succeeded,
            Outcome::Created("id".to_string()),
            Outcome::Succeeded,
        ],
    );
    assert_eq!(events.len(), 5);
    assert!(events[..3].iter().all(is_pulling));
    assert!(matches!(events[3], CreateContainerEvent::Building));
    assert!(matches!(events[4], CreateContainerEvent::Done));
    match &actions[2] {
        Action::InspectVolume(n) => assert_eq!(n, "db-mgr__m__b"),
        a => panic!("unexpected {a:?}"),
    }
    match &actions[9] {
        Action::CreateVolume { name, .. } => assert_eq!(name, "db-mgr__m__b"),
        a => panic!("unexpected {a:?}"),
    }
}

#[test]
fn volume_created_meanwhile_errors_after_building() {
    let (events, _) = drive(
        pg_config(),
        vec![
            Outcome::Absent,
            Outcome::Absent,
            Outcome::PullComplete,
            Outcome::Present,
            Outcome::Succeeded,
        ],
    );
    assert_eq!(events.len(), 3);
    assert!(is_pulling(&events[0]));
    assert!(matches!(events[1], CreateContainerEvent::Building));
    match &events[2] {
        CreateContainerEvent::Error(m) => assert!(m.contains("db-mgr__pg__data")),
        e => panic!("unexpected {e:?}"),
    }
}

#[test]
fn consumer_closed_mid_pull_is_silent() {
    let (events, actions) = drive(
        pg_config(),
        vec![
            Outcome::Absent,
            Outcome::Absent,
            Outcome::Progress(None),
            Outcome::ConsumerClosed,
            Outcome::Progress(None),
            Outcome::PullComplete,
        ],
    );
    assert_eq!(events.len(), 2);
    assert!(events.iter().all(is_pulling));
    assert!(actions[4..].iter().all(|a| matches!(a, Action::Finish)));
}

#[test]
fn runtime_errors_end_the_run() {
    let cases = vec![
        vec![Outcome::Failed("inspect".to_string())],
        vec![Outcome::Absent, Outcome::Failed("vol precheck".to_string())],
        vec![Outcome::Absent, Outcome::Absent, Outcome::Failed("pull".to_string())],
        vec![
            Outcome::Absent,
            Outcome::Absent,
            Outcome::PullComplete,
            Outcome::Failed("vol inspect".to_string()),
        ],
        vec![
            Outcome::Absent,
            Outcome::Absent,
            Outcome::PullComplete,
            Outcome::Absent,
            Outcome::Failed("vol create".to_string()),
        ],
        vec![
            Outcome::Absent,
            Outcome::Absent,
            Outcome::PullComplete,
            Outcome::Absent,
            Outcome::Succeeded,
            Outcome::Failed("create".to_string()),
        ],
        vec![
            Outcome::Absent,
            Outcome::Absent,
            Outcome::PullComplete,
            Outcome::Absent,
            Outcome::Succeeded,
            Outcome::Created("id".to_string()),
            Outcome::Failed("start".to_string()),
        ],
    ];
    let expected = ["inspect", "vol precheck", "pull", "vol inspect", "vol create", "create", "start"];
    for (answers, want) in cases.into_iter().zip(expected) {
        let (events, _) = drive(pg_config(), answers);
        match events.last() {
            Some(CreateContainerEvent::Error(m)) => assert_eq!(m, want),
            e => panic!("unexpected {e:?}"),
        }
        let errors = events.iter().filter(|e| matches!(e, CreateContainerEvent::Error(_))).count();
        assert_eq!(errors, 1);
    }
}

#[test]
fn unexpected_answer_is_an_error() {
    let (events, _) = drive(pg_config(), vec![Outcome::Succeeded]);
    assert_eq!(events.len(), 1);
    assert!(matches!(events[0], CreateContainerEvent::Error(_)));
}

#[test]
fn finished_run_stays_finished() {
    let (mut p, _) = Provisioner::start(pg_config());
    p.step(Outcome::Present);
    assert!(p.is_finished());
    let s = p.step(Outcome::Absent);
    assert!(s.emit.is_none());
    assert!(matches!(s.action, Action::Finish));
}

#[test]
fn pulling_events_accumulate_layer_progress() {
    let (events, _) = drive(
        pg_config(),
        vec![
            Outcome::Absent,
            Outcome::Absent,
            Outcome::Progress(Some(layer("a", 1, 10))),
            Outcome::Progress(Some(layer("b", 2, 20))),
            Outcome::Progress(Some(layer("a", 5, 10))),
        ],
    );
    match &events[0] {
        CreateContainerEvent::Pulling(l) => assert!(l.is_empty()),
        e => panic!("unexpected {e:?}"),
    }
    match &events[3] {
        CreateContainerEvent::Pulling(l) => {
            assert_eq!(l.len(), 2);
            assert_eq!((l[0].layer.as_str(), l[0].current, l[0].total), ("a", 5, 10));
            assert_eq!((l[1].layer.as_str(), l[1].current, l[1].total), ("b", 2, 20));
        }
        e => panic!("unexpected {e:?}"),
    }
}

#[test]
fn record_progress_appends_new_layer() {
    let v = vec![layer("a", 1, 2)];
    let r = record_progress(&v, layer("b", 3, 4));
    assert_eq!(r.len(), 2);
    assert_eq!(r[1].layer, "b");
    let r2 = record_progress(&r, layer("a", 2, 2));
    assert_eq!(r2.len(), 2);
    assert_eq!(r2[0].current, 2);
}

#[test]
fn inspection_not_found_means_free() {
    let free = inspection_outcome(InspectAnswer::Error { status: Some(404), message: "no".to_string() });
    assert!(matches!(free, Outcome::Absent));
    assert!(matches!(inspection_outcome(InspectAnswer::Found), Outcome::Present));
    match inspection_outcome(InspectAnswer::Error { status: Some(500), message: "boom".to_string() }) {
        Outcome::Failed(m) => assert_eq!(m, "boom"),
        o => panic!("unexpected {o:?}"),
    }
    match inspection_outcome(InspectAnswer::Error { status: None, message: "io".to_string() }) {
        Outcome::Failed(m) => assert_eq!(m, "io"),
        o => panic!("unexpected {o:?}"),
    }
}

#[test]
fn pull_notifications_map_to_outcomes() {
    let n = PullNotification {
        layer: Some("l".to_string()),
        error: None,
        current: Some(5),
        total: Some(9),
    };
    match pull_outcome(n) {
        Outcome::Progress(Some(p)) => assert_eq!((p.layer.as_str(), p.current, p.total), ("l", 5, 9)),
        o => panic!("unexpected {o:?}"),
    }
    let status_only = PullNotification { layer: None, error: None, current: None, total: None };
    assert!(matches!(pull_outcome(status_only), Outcome::Progress(None)));
    let negative = PullNotification {
        layer: Some("l".to_string()),
        error: None,
        current: Some(-1),
        total: Some(9),
    };
    assert!(matches!(pull_outcome(negative), Outcome::Progress(None)));
    let failed = PullNotification {
        layer: Some("l".to_string()),
        error: Some("denied".to_string()),
        current: None,
        total: None,
    };
    match pull_outcome(failed) {
        Outcome::Failed(m) => assert_eq!(m, "denied"),
        o => panic!("unexpected {o:?}"),
    }
}
