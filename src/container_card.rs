//! What a container's card in the list offers and asks for.

use crate::listing::ContainerState;
use vstd::prelude::*;
use vstd::string::StringExecFns;

verus! {

/// A press on one of the card's controls.
#[derive(Clone, Copy, Debug, PartialEq, Eq, Structural)]
pub enum Event {
    Start,
    Stop,
    View,
}

/// What a press on the card asks for, with the container's identifier.
#[derive(Clone, Debug)]
pub enum CardRequest {
    Start(String),
    Stop(String),
    View(String),
}

/// The contents of a [`CardRequest`].
pub enum CardRequestView {
    Start(Seq<char>),
    Stop(Seq<char>),
    View(Seq<char>),
}

impl View for CardRequest {
    type V = CardRequestView;

    open spec fn view(&self) -> CardRequestView {
        match self {
            CardRequest::Start(id) => CardRequestView::Start(id@),
            CardRequest::Stop(id) => CardRequestView::Stop(id@),
            CardRequest::View(id) => CardRequestView::View(id@),
        }
    }
}

/// The lifecycle control a card shows for a container in state `s`: start
/// for a created, paused or exited container, stop for a running one.
pub open spec fn control_for(s: ContainerState) -> Option<Event> {
    match s {
        ContainerState::Created | ContainerState::Paused | ContainerState::Exited => Some(
            Event::Start,
        ),
        ContainerState::Running => Some(Event::Stop),
        _ => None,
    }
}

/// The lifecycle control a card shows for a container in state `s`.
pub fn card_control(s: ContainerState) -> (r: Option<Event>)
    ensures
        r == control_for(s),
{
    match s {
        ContainerState::Created | ContainerState::Paused | ContainerState::Exited => Some(
            Event::Start,
        ),
        ContainerState::Running => Some(Event::Stop),
        _ => None,
    }
}

/// What a press `e` on the card of container `id` asks for.
pub fn card_request(e: Event, id: &String) -> (r: CardRequest)
    ensures
        r@ == match e {
            Event::Start => CardRequestView::Start(id@),
            Event::Stop => CardRequestView::Stop(id@),
            Event::View => CardRequestView::View(id@),
        },
{
    match e {
        Event::Start => CardRequest::Start(id.clone()),
        Event::Stop => CardRequest::Stop(id.clone()),
        Event::View => CardRequest::View(id.clone()),
    }
}

/// A container name as shown: without the leading `/` the runtime reports.
pub open spec fn shown_name(name: Seq<char>) -> Seq<char> {
    if name.len() > 0 && name[0] == '/' {
        name.drop_first()
    } else {
        name
    }
}

/// A container name as shown: without the leading `/` the runtime reports.
pub fn display_name(name: &str) -> (r: String)
    ensures
        r@ == shown_name(name@),
{
    let n = name.unicode_len();
    if n > 0 && name.get_char(0) == '/' {
        proof {
            assert(name@.subrange(1, n as int) =~= name@.drop_first());
        }
        String::from_str(name.substring_char(1, n))
    } else {
        String::from_str(name)
    }
}

} // verus!
