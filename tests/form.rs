use db_mgr::add_container::{remove_variable, AddContainerState, Event};
use db_mgr::naming::set_variable;
use db_mgr::config::DatabaseConfig;

fn pairs(v: &[(&str, &str)]) -> Vec<(String, String)> {
    v.iter().map(|(a, b)| (a.to_string(), b.to_string())).collect()
}

fn postgres_entry() -> DatabaseConfig {
    DatabaseConfig {
        name: "Postgres".to_string(),
        image: "postgres".to_string(),
        icon_url: "http://icons/pg.png".to_string(),
        tags: vec!["16".to_string(), "15".to_string()],
        variables: pairs(&[("Password", "POSTGRES_PASSWORD")]),
        volumes: pairs(&[("data", "/var/lib/postgresql/data")]),
    }
}

#[test]
fn default_form_keeps_volumes() {
    let s = AddContainerState::default();
    assert!(s.data.is_none());
    assert!(s.persist);
}

#[test]
fn selecting_entry_starts_config() {
    let mut s = AddContainerState::default();
    assert!(s.update(Event::SelectContainer(postgres_entry())).is_none());
    let (c, d) = s.data.as_ref().unwrap();
    assert_eq!(c.name, "");
    assert!(c.variables.is_empty());
    assert_eq!(c.image, "postgres");
    assert_eq!(c.tag, "16");
    assert_eq!(c.volumes, pairs(&[("data", "/var/lib/postgresql/data")]));
    assert_eq!(d.name, "Postgres");
}

#[test]
fn selecting_entry_without_tags_uses_latest() {
    let mut s = AddContainerState::default();
    let mut e = postgres_entry();
    e.tags = Vec::new();
    s.update(Event::SelectContainer(e));
    assert_eq!(s.data.as_ref().unwrap().0.tag, "latest");
}

#[test]
fn edits_before_selection_change_nothing() {
    let mut s = AddContainerState::default();
    assert!(s.update(Event::NameChanged("pg".to_string())).is_none());
    assert!(s.update(Event::SubmitPressed).is_none());
    assert!(s.data.is_none());
}

#[test]
fn form_submission_end_to_end() {
    let mut s = AddContainerState::default();
    s.update(Event::SelectContainer(postgres_entry()));
    s.update(Event::SelectedTag("".to_string()));
    s.update(Event::NameChanged("pg".to_string()));
    s.update(Event::EnvVarChanged { key: "POSTGRES_PASSWORD".to_string(), value: "x".to_string() });
    s.update(Event::EnvVarChanged { key: "UNUSED".to_string(), value: "y".to_string() });
    s.update(Event::EnvVarChanged { key: "UNUSED".to_string(), value: "".to_string() });
    let c = s.update(Event::SubmitPressed).unwrap();
    assert_eq!(c.name, "db-mgr__pg");
    assert_eq!(c.tag, "latest");
    assert_eq!(c.variables, pairs(&[("POSTGRES_PASSWORD", "x")]));
    assert_eq!(c.volumes, pairs(&[("db-mgr__pg__data", "/var/lib/postgresql/data")]));
    assert_eq!(s.data.as_ref().unwrap().0.name, "pg");
}

#[test]
fn name_whitespace_becomes_dashes() {
    let mut s = AddContainerState::default();
    s.update(Event::SelectContainer(postgres_entry()));
    s.update(Event::NameChanged("my pg".to_string()));
    assert_eq!(s.data.as_ref().unwrap().0.name, "my-pg");
}

#[test]
fn submit_needs_a_name() {
    let mut s = AddContainerState::default();
    s.update(Event::SelectContainer(postgres_entry()));
    assert!(s.update(Event::SubmitPressed).is_none());
}

#[test]
fn persist_toggles_volumes() {
    let mut s = AddContainerState::default();
    s.update(Event::SelectContainer(postgres_entry()));
    s.update(Event::Persist(false));
    assert!(!s.persist);
    assert!(s.data.as_ref().unwrap().0.volumes.is_empty());
    s.update(Event::Persist(true));
    assert_eq!(s.data.as_ref().unwrap().0.volumes.len(), 1);
    s.update(Event::Persist(false));
    s.update(Event::SelectContainer(postgres_entry()));
    assert!(!s.persist);
    assert_eq!(s.data.as_ref().unwrap().0.volumes, pairs(&[("data", "/var/lib/postgresql/data")]));
}

#[test]
fn set_variable_replaces_in_place() {
    let v = pairs(&[("A", "1"), ("B", "2")]);
    assert_eq!(
        set_variable(&v, &"A".to_string(), &"9".to_string()),
        pairs(&[("A", "9"), ("B", "2")])
    );
    assert_eq!(
        set_variable(&v, &"C".to_string(), &"3".to_string()),
        pairs(&[("A", "1"), ("B", "2"), ("C", "3")])
    );
}

#[test]
fn remove_variable_drops_key() {
    let v = pairs(&[("A", "1"), ("B", "2")]);
    assert_eq!(remove_variable(&v, &"A".to_string()), pairs(&[("B", "2")]));
    assert_eq!(remove_variable(&v, &"Z".to_string()), v);
}

#[test]
fn duplicate_entry_is_equal() {
    let e = postgres_entry();
    let d = e.duplicate();
    assert_eq!(d, e);
}
