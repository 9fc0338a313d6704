//! The configuration of a container to provision.

use crate::naming::{
    keys_unique, lemma_kept_variables_keep_keys_unique, lemma_namespaced_volumes_keep_keys_unique,
    drop_empty_variables, kept_variables, managed_container_name,
    namespace_volumes, namespaced_volumes, pairs_view, resolve_tag, resolved_tag, container_name,
};
use vstd::prelude::*;

verus! {

/// What is asked of the runtime for one container.
#[derive(Clone, Debug, PartialEq, Eq)]
pub struct DbContainerConfig {
    /// Container name.
    pub name: String,
    /// Environment variable name paired with its value.
    pub variables: Vec<(String, String)>,
    /// Image reference without a tag.
    pub image: String,
    /// Volume name paired with its mount path in the container.
    pub volumes: Vec<(String, String)>,
    /// Image tag.
    pub tag: String,
}

/// The contents of a [`DbContainerConfig`].
pub struct ContainerConfigView {
    pub name: Seq<char>,
    pub variables: Seq<(Seq<char>, Seq<char>)>,
    pub image: Seq<char>,
    pub volumes: Seq<(Seq<char>, Seq<char>)>,
    pub tag: Seq<char>,
}

impl View for DbContainerConfig {
    type V = ContainerConfigView;

    open spec fn view(&self) -> ContainerConfigView {
        ContainerConfigView {
            name: self.name@,
            variables: pairs_view(self.variables@),
            image: self.image@,
            volumes: pairs_view(self.volumes@),
            tag: self.tag@,
        }
    }
}

/// The configuration as submitted for provisioning: the container name and
/// each volume name namespaced, the variables with an empty value dropped,
/// and the default tag in place of an empty one.
pub open spec fn prepared_config(c: ContainerConfigView) -> ContainerConfigView {
    ContainerConfigView {
        name: managed_container_name(c.name),
        variables: kept_variables(c.variables),
        image: c.image,
        volumes: namespaced_volumes(c.name, c.volumes),
        tag: resolved_tag(c.tag),
    }
}

/// Preparing a configuration for provisioning keeps its variable names and
/// its volume names unique.
pub proof fn lemma_prepared_keeps_keys_unique(c: ContainerConfigView)
    requires
        keys_unique(c.variables),
        keys_unique(c.volumes),
    ensures
        keys_unique(prepared_config(c).variables),
        keys_unique(prepared_config(c).volumes),
{
    lemma_kept_variables_keep_keys_unique(c.variables);
    lemma_namespaced_volumes_keep_keys_unique(c.name, c.volumes);
}

impl DbContainerConfig {
    /// No two variables share a name and no two volumes share a name, as
    /// in a map from name to value.
    pub open spec fn has_unique_keys(&self) -> bool {
        keys_unique(self@.variables) && keys_unique(self@.volumes)
    }

    /// The configuration as submitted for provisioning.
    pub fn prepared(&self) -> (r: DbContainerConfig)
        ensures
            r@ == prepared_config(self@),
            self.has_unique_keys() ==> r.has_unique_keys(),
    {
        proof {
            if self.has_unique_keys() {
                lemma_prepared_keeps_keys_unique(self@);
            }
        }
        DbContainerConfig {
            name: container_name(self.name.as_str()),
            variables: drop_empty_variables(&self.variables),
            image: self.image.clone(),
            volumes: namespace_volumes(self.name.as_str(), &self.volumes),
            tag: resolve_tag(self.tag.as_str()),
        }
    }
}

} // verus!
