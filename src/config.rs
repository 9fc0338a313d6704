//! The catalogue of database images that can be provisioned.

use crate::naming::{copy_pairs, keys_unique, pairs_view, strings_view};
use vstd::prelude::*;

verus! {

/// One database image offered in the catalogue.
#[derive(Clone, Debug, PartialEq, Eq)]
pub struct DatabaseConfig {
    /// Name shown to the operator.
    pub name: String,
    /// Image reference without a tag.
    pub image: String,
    /// Where the image's icon is fetched from.
    pub icon_url: String,
    /// Tags offered for the image; the first one is chosen by default.
    pub tags: Vec<String>,
    /// Label shown to the operator, paired with the environment variable it sets.
    pub variables: Vec<(String, String)>,
    /// Volume name paired with its mount path in the container.
    pub volumes: Vec<(String, String)>,
}

/// The contents of a [`DatabaseConfig`].
pub struct DatabaseConfigView {
    pub name: Seq<char>,
    pub image: Seq<char>,
    pub icon_url: Seq<char>,
    pub tags: Seq<Seq<char>>,
    pub variables: Seq<(Seq<char>, Seq<char>)>,
    pub volumes: Seq<(Seq<char>, Seq<char>)>,
}

impl View for DatabaseConfig {
    type V = DatabaseConfigView;

    open spec fn view(&self) -> DatabaseConfigView {
        DatabaseConfigView {
            name: self.name@,
            image: self.image@,
            icon_url: self.icon_url@,
            tags: strings_view(self.tags@),
            variables: pairs_view(self.variables@),
            volumes: pairs_view(self.volumes@),
        }
    }
}

/// A copy of a list of strings.
pub fn copy_strings(v: &Vec<String>) -> (r: Vec<String>)
    ensures
        r@ == v@,
{
    let mut r: Vec<String> = Vec::new();
    let mut i: usize = 0;
    while i < v.len()
        invariant
            i <= v.len(),
            r@ =~= v@.subrange(0, i as int),
        decreases v.len() - i,
    {
        r.push(v[i].clone());
        i = i + 1;
    }
    r
}

impl DatabaseConfig {
    /// No two variables share a name and no two volumes share a name, as
    /// in a map from name to value.
    pub open spec fn has_unique_keys(&self) -> bool {
        keys_unique(self@.variables) && keys_unique(self@.volumes)
    }

    /// A copy of this entry.
    pub fn duplicate(&self) -> (r: DatabaseConfig)
        ensures
            r@ == self@,
    {
        DatabaseConfig {
            name: self.name.clone(),
            image: self.image.clone(),
            icon_url: self.icon_url.clone(),
            tags: copy_strings(&self.tags),
            variables: copy_pairs(&self.variables),
            volumes: copy_pairs(&self.volumes),
        }
    }
}

/// The whole catalogue.
#[derive(Clone, Debug)]
pub struct ConfigFile {
    pub databases: Vec<DatabaseConfig>,
}

} // verus!
