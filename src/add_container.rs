//! The form in which the operator describes a container to provision: the
//! state it keeps and how each of the operator's actions changes it.

use crate::config::{DatabaseConfig, DatabaseConfigView};
use crate::container::{
    lemma_prepared_keeps_keys_unique, prepared_config, ContainerConfigView, DbContainerConfig,
};
use crate::naming::{
    copy_pairs, keys_unique, kept_variables, lemma_kept_variables,
    lemma_kept_variables_keep_keys_unique,
    lemma_with_variable_keeps_keys_unique, pairs_view, set_variable, with_variable, sanitize_name, sanitized, DEFAULT_TAG,
};
use crate::provision::LayerProgress;
use vstd::prelude::*;
use vstd::string::StringExecFns;

verus! {

/// An action of the operator on the form.
#[derive(Clone, Debug)]
pub enum Event {
    /// A catalogue entry was chosen.
    SelectContainer(DatabaseConfig),
    /// A tag was chosen.
    SelectedTag(String),
    /// The container name was edited.
    NameChanged(String),
    /// The value of an environment variable was edited.
    EnvVarChanged { key: String, value: String },
    /// Whether the container keeps its data in volumes.
    Persist(bool),
    /// The form was submitted.
    SubmitPressed,
}

/// The contents of an [`Event`].
pub enum EventView {
    SelectContainer(DatabaseConfigView),
    SelectedTag(Seq<char>),
    NameChanged(Seq<char>),
    EnvVarChanged { key: Seq<char>, value: Seq<char> },
    Persist(bool),
    SubmitPressed,
}

impl View for Event {
    type V = EventView;

    open spec fn view(&self) -> EventView {
        match self {
            Event::SelectContainer(d) => EventView::SelectContainer(d@),
            Event::SelectedTag(t) => EventView::SelectedTag(t@),
            Event::NameChanged(n) => EventView::NameChanged(n@),
            Event::EnvVarChanged { key, value } => EventView::EnvVarChanged {
                key: key@,
                value: value@,
            },
            Event::Persist(b) => EventView::Persist(*b),
            Event::SubmitPressed => EventView::SubmitPressed,
        }
    }
}

/// What the form's submit control shows while a run is under way.
#[derive(Clone, Debug)]
pub enum ButtonState {
    Idle,
    Ready,
    Pulling(Vec<LayerProgress>),
    Creating,
}

/// The state of the form: the configuration being edited with the catalogue
/// entry it started from, once one was chosen, and whether volumes are kept.
#[derive(Debug)]
pub struct AddContainerState {
    pub data: Option<(DbContainerConfig, DatabaseConfig)>,
    pub persist: bool,
}

/// The contents of an [`AddContainerState`].
pub struct AddContainerStateView {
    pub data: Option<(ContainerConfigView, DatabaseConfigView)>,
    pub persist: bool,
}

impl View for AddContainerState {
    type V = AddContainerStateView;

    open spec fn view(&self) -> AddContainerStateView {
        AddContainerStateView {
            data: match self.data {
                Some((c, d)) => Some((c@, d@)),
                None => None,
            },
            persist: self.persist,
        }
    }
}

impl Default for AddContainerState {
    fn default() -> (r: AddContainerState)
        ensures
            r@ == (AddContainerStateView { data: None, persist: true }),
    {
        AddContainerState { data: None, persist: true }
    }
}

/// The variables without the one named `key`.
pub open spec fn without_variable(vars: Seq<(Seq<char>, Seq<char>)>, key: Seq<char>) -> Seq<
    (Seq<char>, Seq<char>),
>
    decreases vars.len(),
{
    if vars.len() == 0 {
        seq![]
    } else {
        let rest = without_variable(vars.drop_last(), key);
        if vars.last().0 == key {
            rest
        } else {
            rest.push(vars.last())
        }
    }
}

/// The variables after the operator set `key` to `value`: an empty value
/// removes the variable.
pub open spec fn edited_variables(
    vars: Seq<(Seq<char>, Seq<char>)>,
    key: Seq<char>,
    value: Seq<char>,
) -> Seq<(Seq<char>, Seq<char>)> {
    if value.len() == 0 {
        without_variable(vars, key)
    } else {
        with_variable(vars, key, value)
    }
}

/// Removing a variable keeps the others, with their names unique.
proof fn lemma_without_variable(vars: Seq<(Seq<char>, Seq<char>)>, key: Seq<char>)
    requires
        keys_unique(vars),
    ensures
        keys_unique(without_variable(vars, key)),
        forall|j: int|
            0 <= j < without_variable(vars, key).len() ==> vars.contains(
                #[trigger] without_variable(vars, key)[j],
            ),
    decreases vars.len(),
{
    if vars.len() > 0 {
        let init = vars.drop_last();
        lemma_without_variable(init, key);
        let rest = without_variable(init, key);
        let all = without_variable(vars, key);
        assert forall|i: int| 0 <= i < rest.len() implies rest[i].0 != vars.last().0 by {
            let w = choose|w: int| 0 <= w < init.len() && init[w] == rest[i];
            assert(vars[w] == init[w]);
        }
        assert forall|j: int| 0 <= j < all.len() implies vars.contains(#[trigger] all[j]) by {
            if j < rest.len() {
                assert(all[j] == rest[j]);
                let w = choose|w: int| 0 <= w < init.len() && init[w] == rest[j];
                assert(vars[w] == init[w]);
            } else {
                assert(vars[vars.len() - 1] == all[j]);
            }
        }
    }
}

/// Editing a variable keeps the variable names unique.
pub proof fn lemma_edited_variables_keep_keys_unique(
    vars: Seq<(Seq<char>, Seq<char>)>,
    key: Seq<char>,
    value: Seq<char>,
)
    requires
        keys_unique(vars),
    ensures
        keys_unique(edited_variables(vars, key, value)),
{
    if value.len() == 0 {
        lemma_without_variable(vars, key);
    } else {
        lemma_with_variable_keeps_keys_unique(vars, key, value);
    }
}

/// The variable names of the configuration being edited are unique.
pub open spec fn form_keys_unique(s: AddContainerStateView) -> bool {
    s.data matches Some((c, _)) ==> keys_unique(c.variables)
}

/// Every action on the form keeps the variable names of the configuration
/// being edited unique, as a map from name to value would, and a submitted
/// configuration has unique variable names; its volume names are unique when
/// those of the configuration being edited are.
pub proof fn lemma_form_keeps_keys_unique(s: AddContainerStateView, e: EventView)
    requires
        form_keys_unique(s),
    ensures
        form_keys_unique(form_update(s, e).0),
        form_update(s, e).1 matches Some(c) ==> keys_unique(c.variables),
        form_update(s, e).1 matches Some(c) ==> (s.data matches Some((d, _)) && (keys_unique(
            d.volumes,
        ) ==> keys_unique(c.volumes))),
{
    match e {
        EventView::EnvVarChanged { key, value } => {
            if let Some((c, _)) = s.data {
                lemma_edited_variables_keep_keys_unique(c.variables, key, value);
            }
        },
        EventView::SubmitPressed => {
            if let Some((c, _)) = s.data {
                if keys_unique(c.volumes) {
                    lemma_prepared_keeps_keys_unique(c);
                } else {
                    lemma_kept_variables_keep_keys_unique(c.variables);
                }
            }
        },
        _ => {},
    }
}

/// The configuration being edited, when there is one.
pub open spec fn edited_config(s: AddContainerStateView) -> ContainerConfigView {
    match s.data {
        Some((c, _)) => c,
        None => arbitrary(),
    }
}

/// Submitting a named configuration hands on exactly its variables with a
/// non-empty value: each of them is kept, with its value, and every kept
/// variable is one of them.
pub proof fn lemma_submission_drops_empty_variables(s: AddContainerStateView)
    requires
        s.data matches Some((c, _)) && c.name.len() > 0,
    ensures
        ({
            let c = edited_config(s);
            let sub = form_update(s, EventView::SubmitPressed).1;
            &&& sub == Some(prepared_config(c))
            &&& sub->0.variables == kept_variables(c.variables)
            &&& forall|i: int|
                0 <= i < c.variables.len() && c.variables[i].1.len() > 0 ==> sub->0.variables.contains(
                    #[trigger] c.variables[i],
                )
            &&& forall|j: int|
                0 <= j < sub->0.variables.len() ==> (#[trigger] sub->0.variables[j]).1.len() > 0
                    && c.variables.contains(sub->0.variables[j])
        }),
{
    lemma_kept_variables(edited_config(s).variables);
}

/// The configuration that choosing the entry `d` starts from: no name, no
/// variables, the entry's image, first tag (the default tag when it offers
/// none) and volumes.
pub open spec fn selection_config(d: DatabaseConfigView) -> ContainerConfigView {
    ContainerConfigView {
        name: seq![],
        variables: seq![],
        image: d.image,
        volumes: d.volumes,
        tag: if d.tags.len() > 0 {
            d.tags[0]
        } else {
            DEFAULT_TAG@
        },
    }
}

/// The form with the configuration being edited changed by `f`, if there is one.
pub open spec fn edit_config(
    s: AddContainerStateView,
    f: spec_fn(ContainerConfigView) -> ContainerConfigView,
) -> AddContainerStateView {
    match s.data {
        Some((c, d)) => AddContainerStateView { data: Some((f(c), d)), ..s },
        None => s,
    }
}

/// One action `e` on the form `s`: the new form, and the configuration
/// submitted for provisioning, if any. Submitting needs a chosen entry and a
/// non-empty name.
pub open spec fn form_update(s: AddContainerStateView, e: EventView) -> (
    AddContainerStateView,
    Option<ContainerConfigView>,
) {
    match e {
        EventView::SelectContainer(d) => (
            AddContainerStateView { data: Some((selection_config(d), d)), ..s },
            None,
        ),
        EventView::SelectedTag(t) => (
            edit_config(s, |c: ContainerConfigView| ContainerConfigView { tag: t, ..c }),
            None,
        ),
        EventView::NameChanged(n) => (
            edit_config(s, |c: ContainerConfigView| ContainerConfigView { name: sanitized(n), ..c }),
            None,
        ),
        EventView::EnvVarChanged { key, value } => (
            edit_config(
                s,
                |c: ContainerConfigView|
                    ContainerConfigView {
                        variables: edited_variables(c.variables, key, value),
                        ..c
                    },
            ),
            None,
        ),
        EventView::Persist(b) => (
            match s.data {
                Some((c, d)) => AddContainerStateView {
                    data: Some(
                        (
                            ContainerConfigView {
                                volumes: if b {
                                    d.volumes
                                } else {
                                    seq![]
                                },
                                ..c
                            },
                            d,
                        ),
                    ),
                    persist: b,
                },
                None => AddContainerStateView { persist: b, ..s },
            },
            None,
        ),
        EventView::SubmitPressed => (
            s,
            match s.data {
                Some((c, _)) => if c.name.len() > 0 {
                    Some(prepared_config(c))
                } else {
                    None
                },
                None => None,
            },
        ),
    }
}

/// The contents of a submitted configuration, if any.
pub open spec fn submitted_view(r: Option<DbContainerConfig>) -> Option<ContainerConfigView> {
    match r {
        Some(c) => Some(c@),
        None => None,
    }
}

/// The variables without the one named `key`.
pub fn remove_variable(vars: &Vec<(String, String)>, key: &String) -> (r: Vec<(String, String)>)
    ensures
        pairs_view(r@) == without_variable(pairs_view(vars@), key@),
{
    let mut r: Vec<(String, String)> = Vec::new();
    let mut i: usize = 0;
    while i < vars.len()
        invariant
            i <= vars.len(),
            pairs_view(r@) == without_variable(pairs_view(vars@.subrange(0, i as int)), key@),
        decreases vars.len() - i,
    {
        let ghost before = pairs_view(vars@.subrange(0, i as int));
        let ghost after = pairs_view(vars@.subrange(0, i + 1));
        proof {
            assert(after.drop_last() =~= before);
            assert(after.last() == (vars@[i as int].0@, vars@[i as int].1@));
        }
        let ghost r_before = r@;
        if !(vars[i].0 == *key) {
            r.push((vars[i].0.clone(), vars[i].1.clone()));
            proof {
                assert(pairs_view(r@) =~= pairs_view(r_before).push(after.last()));
            }
        }
        i = i + 1;
    }
    proof {
        assert(vars@.subrange(0, vars@.len() as int) =~= vars@);
    }
    r
}

/// The configuration that choosing the entry `d` starts from.
fn selection(d: &DatabaseConfig) -> (r: DbContainerConfig)
    ensures
        r@ == selection_config(d@),
{
    let tag = if d.tags.len() > 0 {
        d.tags[0].clone()
    } else {
        String::from_str(DEFAULT_TAG)
    };
    let volumes = copy_pairs(&d.volumes);
    let r = DbContainerConfig {
        name: String::new(),
        variables: Vec::new(),
        image: d.image.clone(),
        volumes,
        tag,
    };
    proof {
        assert(r@.variables =~= seq![]);
        assert(r@.name =~= seq![]);
    }
    r
}

impl AddContainerState {
    /// Applies the operator's action `event`, and returns the configuration
    /// submitted for provisioning, if the action submits one.
    pub fn update(&mut self, event: Event) -> (r: Option<DbContainerConfig>)
        ensures
            (final(self)@, submitted_view(r)) == form_update(old(self)@, event@),
    {
        match event {
            Event::SelectContainer(d) => {
                let c = selection(&d);
                self.data = Some((c, d));
                None
            },
            Event::SelectedTag(tag) => {
                if let Some((mut c, d)) = self.data.take() {
                    c.tag = tag;
                    self.data = Some((c, d));
                }
                None
            },
            Event::NameChanged(name) => {
                if let Some((mut c, d)) = self.data.take() {
                    c.name = sanitize_name(name.as_str());
                    self.data = Some((c, d));
                }
                None
            },
            Event::EnvVarChanged { key, value } => {
                if let Some((mut c, d)) = self.data.take() {
                    if value.as_str().is_empty() {
                        c.variables = remove_variable(&c.variables, &key);
                    } else {
                        c.variables = set_variable(&c.variables, &key, &value);
                    }
                    self.data = Some((c, d));
                }
                None
            },
            Event::Persist(keep) => {
                self.persist = keep;
                if let Some((mut c, d)) = self.data.take() {
                    if keep {
                        c.volumes = copy_pairs(&d.volumes);
                    } else {
                        c.volumes = Vec::new();
                        proof {
                            assert(pairs_view(c.volumes@) =~= seq![]);
                        }
                    }
                    self.data = Some((c, d));
                }
                None
            },
            Event::SubmitPressed => {
                match &self.data {
                    Some((c, _)) => {
                        if c.name.as_str().is_empty() {
                            None
                        } else {
                            Some(c.prepared())
                        }
                    },
                    None => None,
                }
            },
        }
    }
}

} // verus!
