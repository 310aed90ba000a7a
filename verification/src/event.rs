//! A calendar event and its edit state machine.

use crate::date::{Date, Ymd};
use vstd::prelude::*;

verus! {

/// Whether an event is shown or is being edited.
#[derive(Clone, Copy, Debug, PartialEq, Eq, Structural)]
pub enum EventState {
    Idle,
    Editing,
}

impl Default for EventState {
    fn default() -> (state: Self)
        ensures
            state == EventState::Idle,
    {
        EventState::Idle
    }
}

/// What can happen to one event.
#[derive(Debug)]
pub enum EventMessage {
    Edit,
    TitleEdited(String),
    FinishEdition,
    Delete,
}

/// An [`EventMessage`] with its text as a sequence of characters.
pub enum EventMessageView {
    Edit,
    TitleEdited(Seq<char>),
    FinishEdition,
    Delete,
}

impl View for EventMessage {
    type V = EventMessageView;

    open spec fn view(&self) -> EventMessageView {
        match self {
            EventMessage::Edit => EventMessageView::Edit,
            EventMessage::TitleEdited(title) => EventMessageView::TitleEdited(title@),
            EventMessage::FinishEdition => EventMessageView::FinishEdition,
            EventMessage::Delete => EventMessageView::Delete,
        }
    }
}

/// An event: a title on a day.
#[derive(Debug)]
pub struct Event {
    pub title: String,
    pub date: Date,
    pub state: EventState,
}

/// An [`Event`] as mathematical values.
pub struct EventView {
    pub title: Seq<char>,
    pub date: Ymd,
    pub state: EventState,
}

impl View for Event {
    type V = EventView;

    open spec fn view(&self) -> EventView {
        EventView { title: self.title@, date: self.date@, state: self.state }
    }
}

impl EventView {
    /// The event after `message`. `Edit` opens the event for editing;
    /// `TitleEdited` replaces the title; `FinishEdition` closes the event
    /// unless its title is empty; `Delete` leaves the event as it is, since
    /// removal is the owner's work.
    pub open spec fn after(self, message: EventMessageView) -> EventView {
        match message {
            EventMessageView::Edit => EventView { state: EventState::Editing, ..self },
            EventMessageView::TitleEdited(title) => EventView { title, ..self },
            EventMessageView::FinishEdition => if self.title.len() > 0 {
                EventView { state: EventState::Idle, ..self }
            } else {
                self
            },
            EventMessageView::Delete => self,
        }
    }

    /// The event as it is stored and loaded again: not being edited.
    pub open spec fn at_rest(self) -> EventView {
        EventView { state: EventState::Idle, ..self }
    }
}

impl Clone for EventMessage {
    fn clone(&self) -> (copy: Self)
        ensures
            copy@ == self@,
    {
        match self {
            EventMessage::Edit => EventMessage::Edit,
            EventMessage::TitleEdited(title) => EventMessage::TitleEdited(title.clone()),
            EventMessage::FinishEdition => EventMessage::FinishEdition,
            EventMessage::Delete => EventMessage::Delete,
        }
    }
}

impl Clone for Event {
    fn clone(&self) -> (copy: Self)
        ensures
            copy@ == self@,
    {
        Event { title: self.title.clone(), date: self.date, state: self.state }
    }
}

impl Event {
    /// A new event, not being edited.
    pub fn new(title: String, date: Date) -> (event: Event)
        ensures
            event@ == (EventView { title: title@, date: date@, state: EventState::Idle }),
    {
        Event { title, date, state: EventState::Idle }
    }

    /// Applies `message` to the event.
    pub fn update(&mut self, message: EventMessage)
        ensures
            final(self)@ == old(self)@.after(message@),
    {
        match message {
            EventMessage::Edit => {
                self.state = EventState::Editing;
            },
            EventMessage::TitleEdited(new_title) => {
                self.title = new_title;
            },
            EventMessage::FinishEdition => {
                if !self.title.as_str().is_empty() {
                    self.state = EventState::Idle;
                }
            },
            EventMessage::Delete => {},
        }
    }
}

/// Finishing the edition of an event with an empty title changes nothing,
/// so an event being edited stays so; with any other title the event
/// becomes idle and keeps its title and date.
pub proof fn lemma_finish_edition(event: EventView)
    ensures
        event.title.len() == 0 ==> event.after(EventMessageView::FinishEdition) == event,
        event.title.len() > 0 ==> event.after(EventMessageView::FinishEdition) == (EventView {
            state: EventState::Idle,
            ..event
        }),
{
}

/// The edit transitions: `Edit` leads to `Editing` from either state, and a
/// new title keeps the state.
pub proof fn lemma_edit_transitions(event: EventView, title: Seq<char>)
    ensures
        event.after(EventMessageView::Edit).state == EventState::Editing,
        event.after(EventMessageView::Edit).title == event.title,
        event.after(EventMessageView::TitleEdited(title)).state == event.state,
        event.after(EventMessageView::TitleEdited(title)).title == title,
        event.after(EventMessageView::Delete) == event,
{
}

} // verus!
