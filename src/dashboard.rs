//! The decisions of the main window: what the detail pane shows, how a
//! provisioning run's events show on the form, and which icons to fetch.

use crate::add_container::ButtonState;
use crate::config::{DatabaseConfig, DatabaseConfigView};
use crate::listing::{containers_view, DbContainer};
use crate::naming::pairs_view;
use crate::provision::{layers_view, CreateContainerEvent, LayerProgressView};
use itertools::Itertools;
use vstd::prelude::*;
use vstd::string::StringExecFns;

verus! {

/// What the detail pane of the main window shows.
#[derive(Clone, Debug)]
pub enum MainViewState {
    /// The form, with the state of its submit control.
    CreateContainer(ButtonState),
    /// The container at this position of the list.
    ViewContainer(usize),
    /// Nothing.
    Blank,
}

/// `i` is the first position in `cs` of a container with identifier `id`.
pub open spec fn first_with_id(cs: Seq<crate::listing::DbContainerView>, id: Seq<char>, i: int) -> bool {
    &&& 0 <= i < cs.len()
    &&& cs[i].id == id
    &&& forall|j: int| 0 <= j < i ==> cs[j].id != id
}

/// The detail pane for the container with identifier `id`: the first in the
/// list with it, or nothing when none has it.
pub fn view_for_container(containers: &Vec<DbContainer>, id: &String) -> (r: MainViewState)
    ensures
        match r {
            MainViewState::ViewContainer(i) => first_with_id(containers_view(containers@), id@, i as int),
            MainViewState::Blank => forall|j: int|
                0 <= j < containers@.len() ==> #[trigger] containers@[j].id@ != id@,
            _ => false,
        },
{
    let mut i: usize = 0;
    while i < containers.len()
        invariant
            i <= containers.len(),
            forall|j: int| 0 <= j < i ==> #[trigger] containers@[j].id@ != id@,
        decreases containers.len() - i,
    {
        if containers[i].id == *id {
            return MainViewState::ViewContainer(i);
        }
        i = i + 1;
    }
    MainViewState::Blank
}

/// How the form's submit control shows the event `e` of a provisioning run:
/// the layer progress while pulling, busy while building, and ready for a
/// new submission once the run has ended.
pub fn form_status(e: &CreateContainerEvent) -> (r: ButtonState)
    ensures
        match (e@, r) {
            (crate::provision::EventView::Pulling(l), ButtonState::Pulling(m)) => layers_view(m@) == l,
            (crate::provision::EventView::Building, ButtonState::Creating) => true,
            (crate::provision::EventView::Done, ButtonState::Ready) => true,
            (crate::provision::EventView::Error(_), ButtonState::Ready) => true,
            _ => false,
        },
{
    match e {
        CreateContainerEvent::Pulling(l) => {
            let mut m: Vec<crate::provision::LayerProgress> = Vec::new();
            let mut i: usize = 0;
            while i < l.len()
                invariant
                    i <= l.len(),
                    layers_view(m@) =~= layers_view(l@.subrange(0, i as int)),
                decreases l.len() - i,
            {
                let ghost m_before = m@;
                m.push(
                    crate::provision::LayerProgress {
                        layer: l[i].layer.clone(),
                        current: l[i].current,
                        total: l[i].total,
                    },
                );
                proof {
                    assert(layers_view(m@) =~= layers_view(m_before).push(l@[i as int]@));
                    assert(layers_view(l@.subrange(0, i + 1)) =~= layers_view(
                        l@.subrange(0, i as int),
                    ).push(l@[i as int]@));
                }
                i = i + 1;
            }
            proof {
                assert(l@.subrange(0, l@.len() as int) =~= l@);
            }
            ButtonState::Pulling(m)
        },
        CreateContainerEvent::Building => ButtonState::Creating,
        CreateContainerEvent::Done => ButtonState::Ready,
        CreateContainerEvent::Error(_) => ButtonState::Ready,
    }
}

/// What the form shows in place of its submit control.
#[derive(Clone, Copy, Debug, PartialEq, Eq, Structural)]
pub enum SubmitControl {
    Nothing,
    SubmitButton,
    PullingBadge,
    CreatingBadge,
}

/// What the form shows in place of its submit control, for the control's
/// state `b` and the container name `name`: the button only when ready and
/// named.
pub fn submit_control(b: &ButtonState, name: &str) -> (r: SubmitControl)
    ensures
        r == match b {
            ButtonState::Idle => SubmitControl::Nothing,
            ButtonState::Ready => if name@.len() == 0 {
                SubmitControl::Nothing
            } else {
                SubmitControl::SubmitButton
            },
            ButtonState::Pulling(_) => SubmitControl::PullingBadge,
            ButtonState::Creating => SubmitControl::CreatingBadge,
        },
{
    match b {
        ButtonState::Idle => SubmitControl::Nothing,
        ButtonState::Ready => if name.is_empty() {
            SubmitControl::Nothing
        } else {
            SubmitControl::SubmitButton
        },
        ButtonState::Pulling(_) => SubmitControl::PullingBadge,
        ButtonState::Creating => SubmitControl::CreatingBadge,
    }
}

/// The key under which an image's icon is kept: the reference up to its
/// first `:`, or the whole reference when it has none.
pub open spec fn icon_key(image: Seq<char>) -> Seq<char> {
    if exists|i: int| 0 <= i < image.len() && image[i] == ':' {
        let i = choose|i: int|
            0 <= i < image.len() && image[i] == ':' && forall|j: int| 0 <= j < i ==> image[j] != ':';
        image.subrange(0, i)
    } else {
        image
    }
}

/// The key under which an image's icon is kept.
pub fn thumbnail_key(image: &str) -> (r: String)
    ensures
        r@ == icon_key(image@),
{
    let n = image.unicode_len();
    let mut i: usize = 0;
    while i < n
        invariant
            n == image@.len(),
            i <= n,
            forall|j: int| 0 <= j < i ==> image@[j] != ':',
        decreases n - i,
    {
        if image.get_char(i) == ':' {
            proof {
                let k = choose|k: int|
                    0 <= k < image@.len() && image@[k] == ':' && forall|j: int|
                        0 <= j < k ==> image@[j] != ':';
                assert(k == i);
            }
            return String::from_str(image.substring_char(0, i));
        }
        i = i + 1;
    }
    String::from_str(image)
}

/// The contents of a catalogue.
pub open spec fn databases_view(v: Seq<DatabaseConfig>) -> Seq<DatabaseConfigView> {
    v.map_values(|d: DatabaseConfig| d@)
}

/// The positions, in order, of the entries whose name no earlier entry has.
pub open spec fn first_name_positions(s: Seq<DatabaseConfigView>) -> Seq<int>
    decreases s.len(),
{
    if s.len() == 0 {
        seq![]
    } else {
        let rest = first_name_positions(s.drop_last());
        if exists|j: int| 0 <= j < s.len() - 1 && s[j].name == s.last().name {
            rest
        } else {
            rest.push(s.len() - 1)
        }
    }
}

/// Relies on itertools' `Itertools::unique_by`: it keeps, in their order, the
/// items whose key was not produced before, comparing keys (here the entry
/// names) by equality.
#[verifier::external_body]
fn first_of_each_name(images: &Vec<DatabaseConfig>) -> (r: Vec<usize>)
    ensures
        r@.map_values(|i: usize| i as int) == first_name_positions(databases_view(images@)),
{
    images.iter().enumerate().unique_by(|&(_, d)| &d.name).map(|(i, _)| i).collect()
}

/// Every position lies within the catalogue.
proof fn lemma_first_name_positions_bounded(s: Seq<DatabaseConfigView>)
    ensures
        forall|k: int|
            0 <= k < first_name_positions(s).len() ==> 0 <= #[trigger] first_name_positions(s)[k]
                < s.len(),
    decreases s.len(),
{
    if s.len() > 0 {
        let init = s.drop_last();
        lemma_first_name_positions_bounded(init);
        let rest = first_name_positions(init);
        let all = first_name_positions(s);
        assert forall|k: int| 0 <= k < all.len() implies 0 <= #[trigger] all[k] < s.len() by {
            if k < rest.len() {
                assert(all[k] == rest[k]);
            }
        }
    }
}

/// The image and icon location of each catalogue entry whose name no
/// earlier entry has, in order: the icons to fetch.
pub fn thumbnail_sources(images: &Vec<DatabaseConfig>) -> (r: Vec<(String, String)>)
    ensures
        pairs_view(r@) == first_name_positions(databases_view(images@)).map_values(
            |i: int| (images@[i].image@, images@[i].icon_url@),
        ),
{
    let positions = first_of_each_name(images);
    let ghost ps = first_name_positions(databases_view(images@));
    let ghost f = |i: int| (images@[i].image@, images@[i].icon_url@);
    proof {
        lemma_first_name_positions_bounded(databases_view(images@));
        assert(positions@.len() == ps.len());
        assert forall|k: int| 0 <= k < positions@.len() implies positions@[k] as int == ps[k] by {
            assert(positions@.map_values(|i: usize| i as int)[k] == ps[k]);
        }
    }
    let mut r: Vec<(String, String)> = Vec::new();
    let mut k: usize = 0;
    while k < positions.len()
        invariant
            k <= positions.len(),
            positions@.len() == ps.len(),
            forall|m: int| 0 <= m < positions@.len() ==> positions@[m] as int == ps[m],
            forall|m: int| 0 <= m < ps.len() ==> 0 <= #[trigger] ps[m] < images@.len(),
            f == (|i: int| (images@[i].image@, images@[i].icon_url@)),
            pairs_view(r@) =~= ps.subrange(0, k as int).map_values(f),
        decreases positions.len() - k,
    {
        let i = positions[k];
        assert(ps[k as int] == i as int);
        let ghost r_before = r@;
        r.push((images[i].image.clone(), images[i].icon_url.clone()));
        proof {
            assert(pairs_view(r@) =~= pairs_view(r_before).push(f(i as int)));
            assert(ps.subrange(0, k + 1).map_values(f) =~= ps.subrange(0, k as int).map_values(f).push(
                f(ps[k as int]),
            ));
        }
        k = k + 1;
    }
    proof {
        assert(ps.subrange(0, ps.len() as int) =~= ps);
    }
    r
}

} // verus!
