//! Provisioning and management of database containers on a local container
//! runtime: the naming rules, the submission form, the provisioning state
//! machine and the projection of listed containers.

pub mod config;
pub mod container;
pub mod naming;
pub mod provision;
pub mod add_container;
pub mod listing;
pub mod container_card;
pub mod dashboard;
