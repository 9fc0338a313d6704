use db_mgr::container::DbContainerConfig;
use db_mgr::naming::{
    container_label_filter, container_name, copy_pairs, drop_empty_variables, effective_env,
    env_string, image_ref, management_labels, namespace_volumes, resolve_tag, sanitize_name, volume_name,
};

fn pairs(v: &[(&str, &str)]) -> Vec<(String, String)> {
    v.iter().map(|(a, b)| (a.to_string(), b.to_string())).collect()
}

#[test]
fn volume_name_follows_prefix_scheme() {
    assert_eq!(volume_name("pg", "data"), "db-mgr__pg__data");
}

#[test]
fn volume_name_is_repeatable() {
    let a = volume_name("pg", "data");
    let b = volume_name("pg", "data");
    assert_eq!(a, b);
    assert_ne!(volume_name("pg", "data"), volume_name("pg2", "data"));
}

#[test]
fn container_name_is_prefixed() {
    assert_eq!(container_name("pg"), "db-mgr__pg");
}

#[test]
fn sanitize_replaces_whitespace() {
    assert_eq!(sanitize_name("my db\tone\nx"), "my-db-one-x");
    assert_eq!(sanitize_name("plain"), "plain");
    assert_eq!(sanitize_name(""), "");
    assert_eq!(sanitize_name("a\u{0B}b"), "a-b");
    assert_eq!(sanitize_name("a\u{A0}b\u{3000}c\u{2009}d\u{85}e"), "a-b-c-d-e");
    assert_eq!(sanitize_name("a\u{200B}b"), "a\u{200B}b");
}

#[test]
fn env_string_quotes_value() {
    assert_eq!(env_string("POSTGRES_PASSWORD", "x"), "POSTGRES_PASSWORD=\"x\"");
}

#[test]
fn effective_env_drops_empty_values() {
    let vars = pairs(&[("POSTGRES_PASSWORD", "x"), ("UNUSED", ""), ("USER", "admin")]);
    assert_eq!(
        effective_env(&vars),
        vec!["POSTGRES_PASSWORD=\"x\"".to_string(), "USER=\"admin\"".to_string()]
    );
    assert!(effective_env(&pairs(&[("A", "")])).is_empty());
    assert!(effective_env(&Vec::new()).is_empty());
}

#[test]
fn drop_empty_variables_keeps_order() {
    let vars = pairs(&[("B", "2"), ("A", ""), ("C", "3")]);
    assert_eq!(drop_empty_variables(&vars), pairs(&[("B", "2"), ("C", "3")]));
}

#[test]
fn namespace_volumes_keeps_paths() {
    let vols = pairs(&[("data", "/var/lib/postgresql/data"), ("logs", "/logs")]);
    assert_eq!(
        namespace_volumes("pg", &vols),
        pairs(&[("db-mgr__pg__data", "/var/lib/postgresql/data"), ("db-mgr__pg__logs", "/logs")])
    );
}

#[test]
fn empty_tag_resolves_to_latest() {
    assert_eq!(resolve_tag(""), "latest");
    assert_eq!(resolve_tag("16"), "16");
}

#[test]
fn image_reference_joins_with_colon() {
    assert_eq!(image_ref("postgres", "latest"), "postgres:latest");
}

#[test]
fn management_labels_hold_one_label() {
    assert_eq!(
        management_labels("volume"),
        vec![("db-mgr-resource".to_string(), "volume".to_string())]
    );
}

#[test]
fn label_filter_selects_containers() {
    assert_eq!(container_label_filter(), "db-mgr-resource=container");
}

#[test]
fn copy_pairs_is_identical() {
    let v = pairs(&[("a", "b"), ("c", "d")]);
    assert_eq!(copy_pairs(&v), v);
}

#[test]
fn prepared_config_namespaces_and_filters() {
    let c = DbContainerConfig {
        name: "pg".to_string(),
        variables: pairs(&[("POSTGRES_PASSWORD", "x"), ("UNUSED", "")]),
        image: "postgres".to_string(),
        volumes: pairs(&[("data", "/var/lib/postgresql/data")]),
        tag: "".to_string(),
    };
    let p = c.prepared();
    assert_eq!(p.name, "db-mgr__pg");
    assert_eq!(p.variables, pairs(&[("POSTGRES_PASSWORD", "x")]));
    assert_eq!(p.image, "postgres");
    assert_eq!(p.volumes, pairs(&[("db-mgr__pg__data", "/var/lib/postgresql/data")]));
    assert_eq!(p.tag, "latest");
}
