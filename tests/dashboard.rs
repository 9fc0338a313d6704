use db_mgr::add_container::ButtonState;
use db_mgr::config::DatabaseConfig;
use db_mgr::container_card::{card_control, card_request, display_name, CardRequest, Event};
use db_mgr::dashboard::{
    form_status, submit_control, thumbnail_key, thumbnail_sources, view_for_container,
    MainViewState, SubmitControl,
};
use db_mgr::listing::{ContainerState, DbContainer};
use db_mgr::provision::{CreateContainerEvent, LayerProgress};

fn entry(name: &str, image: &str, icon: &str) -> DatabaseConfig {
    DatabaseConfig {
        name: name.to_string(),
        image: image.to_string(),
        icon_url: icon.to_string(),
        tags: Vec::new(),
        variables: Vec::new(),
        volumes: Vec::new(),
    }
}

fn container(id: &str) -> DbContainer {
    DbContainer {
        id: id.to_string(),
        name: "/n".to_string(),
        state: ContainerState::Exited,
        variables: Vec::new(),
        image: "postgres:16".to_string(),
        volumes: Vec::new(),
    }
}

#[test]
fn thumbnail_sources_first_of_each_name() {
    let images = vec![
        entry("Postgres", "postgres", "u1"),
        entry("MySQL", "mysql", "u2"),
        entry("Postgres", "postgres-alt", "u3"),
    ];
    assert_eq!(
        thumbnail_sources(&images),
        vec![
            ("postgres".to_string(), "u1".to_string()),
            ("mysql".to_string(), "u2".to_string())
        ]
    );
    assert!(thumbnail_sources(&Vec::new()).is_empty());
}

#[test]
fn thumbnail_key_strips_tag() {
    assert_eq!(thumbnail_key("postgres:16"), "postgres");
    assert_eq!(thumbnail_key("postgres"), "postgres");
}

#[test]
fn view_for_container_finds_first() {
    let cs = vec![container("a"), container("b"), container("b")];
    assert!(matches!(view_for_container(&cs, &"b".to_string()), MainViewState::ViewContainer(1)));
    assert!(matches!(view_for_container(&cs, &"z".to_string()), MainViewState::Blank));
}

#[test]
fn form_status_follows_events() {
    let l = vec![LayerProgress { layer: "a".to_string(), current: 1, total: 2 }];
    match form_status(&CreateContainerEvent::Pulling(l)) {
        ButtonState::Pulling(m) => assert_eq!(m[0].layer, "a"),
        b => panic!("unexpected {b:?}"),
    }
    assert!(matches!(form_status(&CreateContainerEvent::Building), ButtonState::Creating));
    assert!(matches!(form_status(&CreateContainerEvent::Done), ButtonState::Ready));
    assert!(matches!(
        form_status(&CreateContainerEvent::Error("e".to_string())),
        ButtonState::Ready
    ));
}

#[test]
fn submit_control_needs_name_when_ready() {
    assert_eq!(submit_control(&ButtonState::Ready, ""), SubmitControl::Nothing);
    assert_eq!(submit_control(&ButtonState::Ready, "pg"), SubmitControl::SubmitButton);
    assert_eq!(submit_control(&ButtonState::Idle, "pg"), SubmitControl::Nothing);
    assert_eq!(submit_control(&ButtonState::Creating, "pg"), SubmitControl::CreatingBadge);
    assert_eq!(submit_control(&ButtonState::Pulling(Vec::new()), "pg"), SubmitControl::PullingBadge);
}

#[test]
fn card_controls_by_state() {
    assert_eq!(card_control(ContainerState::Exited), Some(Event::Start));
    assert_eq!(card_control(ContainerState::Created), Some(Event::Start));
    assert_eq!(card_control(ContainerState::Paused), Some(Event::Start));
    assert_eq!(card_control(ContainerState::Running), Some(Event::Stop));
    assert_eq!(card_control(ContainerState::Dead), None);
}

#[test]
fn card_request_carries_id() {
    match card_request(Event::Stop, &"abc".to_string()) {
        CardRequest::Stop(id) => assert_eq!(id, "abc"),
        r => panic!("unexpected {r:?}"),
    }
}

#[test]
fn display_name_strips_slash() {
    assert_eq!(display_name("/db-mgr__pg"), "db-mgr__pg");
    assert_eq!(display_name("pg"), "pg");
    assert_eq!(display_name(""), "");
}
