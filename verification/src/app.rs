//! The application state: loading, the messages that change the calendar,
//! and the rule that decides when the events are saved.
//!
//! The state takes one message at a time. Each message gives the next state
//! and a [`Command`]: what the caller is to do next (load, save, or put the
//! focus on an event). Loading and saving happen outside; their outcomes come
//! back as messages.

use crate::date::{pred_month, succ_month, Date, Ymd, MAX_YEAR, MIN_YEAR};
use crate::event::{Event, EventMessage, EventMessageView, EventState, EventView};
use crate::persist::{
    at_rest, clone_events, dates_valid, views, LoadError, SaveError, SavedState,
};
use vstd::prelude::*;
use vstd::string::StringExecFns;

verus! {

/// The number of seconds for which a save, once its write has ended, still
/// counts as under way. Changes made in that time are saved together.
pub const SAVE_QUIET_SECS: u64 = 2;

/// Whether there are unsaved changes, and whether a save is under way.
#[derive(Clone, Copy, Debug, PartialEq, Eq, Structural)]
pub enum SaveState {
    /// Nothing to save, no save under way.
    Idle,
    /// Unsaved changes, no save under way.
    Dirty,
    /// A save under way, no changes since it began.
    Saving,
    /// A save under way, and changes since it began.
    DirtySaving,
}

impl SaveState {
    /// Whether there are unsaved changes.
    pub open spec fn dirty(self) -> bool {
        self is Dirty || self is DirtySaving
    }

    /// Whether a save is under way.
    pub open spec fn saving(self) -> bool {
        self is Saving || self is DirtySaving
    }

    /// The state with the given two marks.
    pub open spec fn of(dirty: bool, saving: bool) -> SaveState {
        if dirty && saving {
            SaveState::DirtySaving
        } else if dirty {
            SaveState::Dirty
        } else if saving {
            SaveState::Saving
        } else {
            SaveState::Idle
        }
    }

    /// After a change: dirty.
    pub open spec fn touched(self) -> SaveState {
        SaveState::of(true, self.saving())
    }

    /// After a save has ended: no save under way.
    pub open spec fn save_finished(self) -> SaveState {
        SaveState::of(self.dirty(), false)
    }

    /// After a save has begun: a save under way, nothing unsaved.
    pub open spec fn save_started(self) -> SaveState {
        SaveState::Saving
    }

    /// Whether a save is to begin now: there are unsaved changes and no save
    /// is under way.
    pub open spec fn save_due(self) -> bool {
        self is Dirty
    }

    /// Tells whether there are unsaved changes.
    pub fn is_dirty(&self) -> (dirty: bool)
        ensures
            dirty == self.dirty(),
    {
        match self {
            SaveState::Dirty | SaveState::DirtySaving => true,
            _ => false,
        }
    }

    /// Tells whether a save is under way.
    pub fn is_saving(&self) -> (saving: bool)
        ensures
            saving == self.saving(),
    {
        match self {
            SaveState::Saving | SaveState::DirtySaving => true,
            _ => false,
        }
    }

    /// The state after a change.
    pub fn touch(self) -> (next: SaveState)
        ensures
            next == self.touched(),
    {
        match self {
            SaveState::Idle | SaveState::Dirty => SaveState::Dirty,
            SaveState::Saving | SaveState::DirtySaving => SaveState::DirtySaving,
        }
    }

    /// The state after a save has ended.
    pub fn finish_save(self) -> (next: SaveState)
        ensures
            next == self.save_finished(),
    {
        match self {
            SaveState::Idle | SaveState::Saving => SaveState::Idle,
            SaveState::Dirty | SaveState::DirtySaving => SaveState::Dirty,
        }
    }
}

/// What reaches the application: the outcomes of loading and saving, and
/// what the user does.
#[derive(Debug)]
pub enum Message {
    Loaded(Result<SavedState, LoadError>),
    Saved(Result<(), SaveError>),
    TitleInputChanged(String),
    CreateEvent,
    OpenModal,
    CloseModal,
    ChooseDate,
    SubmitDate(Date),
    CancelDate,
    EventMessage(usize, EventMessage),
    NextMonth,
    PrevMonth,
}

/// A [`Message`] as mathematical values.
pub enum MessageView {
    Loaded(Result<Seq<EventView>, LoadError>),
    Saved(Result<(), SaveError>),
    TitleInputChanged(Seq<char>),
    CreateEvent,
    OpenModal,
    CloseModal,
    ChooseDate,
    SubmitDate(Ymd),
    CancelDate,
    EventMessage(nat, EventMessageView),
    NextMonth,
    PrevMonth,
}

impl View for Message {
    type V = MessageView;

    open spec fn view(&self) -> MessageView {
        match self {
            Message::Loaded(Ok(saved)) => MessageView::Loaded(Ok(saved@)),
            Message::Loaded(Err(error)) => MessageView::Loaded(Err(*error)),
            Message::Saved(outcome) => MessageView::Saved(*outcome),
            Message::TitleInputChanged(value) => MessageView::TitleInputChanged(value@),
            Message::CreateEvent => MessageView::CreateEvent,
            Message::OpenModal => MessageView::OpenModal,
            Message::CloseModal => MessageView::CloseModal,
            Message::ChooseDate => MessageView::ChooseDate,
            Message::SubmitDate(date) => MessageView::SubmitDate(date@),
            Message::CancelDate => MessageView::CancelDate,
            Message::EventMessage(i, message) => MessageView::EventMessage(*i as nat, message@),
            Message::NextMonth => MessageView::NextMonth,
            Message::PrevMonth => MessageView::PrevMonth,
        }
    }
}

impl Clone for Message {
    fn clone(&self) -> (copy: Self)
        ensures
            copy@ == self@,
    {
        match self {
            Message::Loaded(Ok(saved)) => Message::Loaded(Ok(saved.clone())),
            Message::Loaded(Err(error)) => Message::Loaded(Err(*error)),
            Message::Saved(outcome) => Message::Saved(*outcome),
            Message::TitleInputChanged(value) => Message::TitleInputChanged(value.clone()),
            Message::CreateEvent => Message::CreateEvent,
            Message::OpenModal => Message::OpenModal,
            Message::CloseModal => Message::CloseModal,
            Message::ChooseDate => Message::ChooseDate,
            Message::SubmitDate(date) => Message::SubmitDate(*date),
            Message::CancelDate => Message::CancelDate,
            Message::EventMessage(i, message) => Message::EventMessage(*i, message.clone()),
            Message::NextMonth => Message::NextMonth,
            Message::PrevMonth => Message::PrevMonth,
        }
    }
}

/// What the caller is to do after a message.
#[derive(Debug)]
pub struct Command {
    /// Load the saved events, and hand the outcome back as
    /// [`Message::Loaded`].
    pub load: bool,
    /// Put the focus on the text of the event at this position.
    pub focus: Option<usize>,
    /// Save these events, keep quiet for [`SAVE_QUIET_SECS`] seconds, and
    /// hand the outcome back as [`Message::Saved`].
    pub save: Option<SavedState>,
}

/// A [`Command`] as mathematical values.
pub struct CommandView {
    pub load: bool,
    pub focus: Option<nat>,
    pub save: Option<Seq<EventView>>,
}

impl CommandView {
    /// Nothing to do.
    pub open spec fn none() -> CommandView {
        CommandView { load: false, focus: None, save: None }
    }
}

impl View for Command {
    type V = CommandView;

    open spec fn view(&self) -> CommandView {
        CommandView {
            load: self.load,
            focus: match self.focus {
                Some(i) => Some(i as nat),
                None => None,
            },
            save: match self.save {
                Some(saved) => Some(saved@),
                None => None,
            },
        }
    }
}

impl Command {
    /// Nothing to do.
    pub fn none() -> (command: Command)
        ensures
            command@ == CommandView::none(),
    {
        Command { load: false, focus: None, save: None }
    }
}

/// The loaded calendar as mathematical values.
pub struct StateView {
    /// The displayed month, as a day of it.
    pub date: Ymd,
    pub events: Seq<EventView>,
    pub show_modal: bool,
    pub show_picker: bool,
    pub sync: SaveState,
    pub input_value: Seq<char>,
    /// The day chosen for the next event.
    pub picked_date: Ymd,
}

impl StateView {
    /// All dates are valid, and no change is left waiting while no save is
    /// under way.
    pub open spec fn wf(self) -> bool {
        &&& self.date.valid()
        &&& self.picked_date.valid()
        &&& dates_valid(self.events)
        &&& !self.sync.save_due()
    }

    /// The state right after loading, on the day `today`.
    pub open spec fn fresh(events: Seq<EventView>, today: Ymd) -> StateView {
        StateView {
            date: today,
            events,
            show_modal: false,
            show_picker: false,
            sync: SaveState::Idle,
            input_value: Seq::empty(),
            picked_date: today,
        }
    }

    /// The messages this state can take. A date that is handed in must be
    /// valid, an event that is deleted must be there, and the displayed
    /// month cannot leave the years the calendar covers.
    pub open spec fn accepts(self, message: MessageView) -> bool {
        match message {
            MessageView::SubmitDate(date) => date.valid(),
            MessageView::EventMessage(i, EventMessageView::Delete) => i < self.events.len(),
            MessageView::NextMonth => !(self.date.year == MAX_YEAR && self.date.month == 12),
            MessageView::PrevMonth => !(self.date.year == MIN_YEAR && self.date.month == 1),
            _ => true,
        }
    }

    /// What `message` does to the calendar, the save marks left aside.
    pub open spec fn changed(self, message: MessageView) -> StateView {
        match message {
            MessageView::NextMonth => StateView { date: self.date.succ_month(), ..self },
            MessageView::PrevMonth => StateView { date: self.date.pred_month(), ..self },
            MessageView::TitleInputChanged(value) => StateView { input_value: value, ..self },
            MessageView::CreateEvent => if self.input_value.len() > 0 {
                StateView {
                    events: self.events.push(
                        EventView {
                            title: self.input_value,
                            date: self.picked_date,
                            state: EventState::Idle,
                        },
                    ),
                    input_value: Seq::empty(),
                    show_modal: false,
                    ..self
                }
            } else {
                StateView { show_modal: false, ..self }
            },
            MessageView::OpenModal => StateView { show_modal: true, ..self },
            MessageView::CloseModal => StateView { show_modal: false, ..self },
            MessageView::ChooseDate => StateView { show_picker: true, ..self },
            MessageView::SubmitDate(date) => StateView {
                picked_date: date,
                show_picker: false,
                ..self
            },
            MessageView::CancelDate => StateView { show_picker: false, ..self },
            MessageView::EventMessage(i, EventMessageView::Delete) => StateView {
                events: self.events.remove(i as int),
                ..self
            },
            MessageView::EventMessage(i, message) => if i < self.events.len() {
                StateView {
                    events: self.events.update(i as int, self.events[i as int].after(message)),
                    ..self
                }
            } else {
                self
            },
            MessageView::Saved(_) => self,
            MessageView::Loaded(_) => self,
        }
    }

    /// The event to put the focus on after `message`: the one that was just
    /// opened for editing.
    pub open spec fn focused(self, message: MessageView) -> Option<nat> {
        match message {
            MessageView::EventMessage(i, EventMessageView::Edit) => if i < self.events.len() {
                Some(i)
            } else {
                None
            },
            _ => None,
        }
    }

    /// The save marks after `message`, before any save is begun: the end of
    /// a save clears `saving`, every other message sets `dirty`.
    pub open spec fn marked(self, message: MessageView) -> SaveState {
        match message {
            MessageView::Saved(_) => self.sync.save_finished(),
            _ => self.sync.touched(),
        }
    }

    /// The state after `message`, and what is to be done. Where the message
    /// leaves unsaved changes and no save under way, a save of all events,
    /// as they are after the message, begins.
    pub open spec fn step(self, message: MessageView) -> (StateView, CommandView) {
        let changed = self.changed(message);
        let marked = self.marked(message);
        let focus = self.focused(message);
        if marked.save_due() {
            (
                StateView { sync: marked.save_started(), ..changed },
                CommandView { load: false, focus, save: Some(changed.events) },
            )
        } else {
            (StateView { sync: marked, ..changed }, CommandView { load: false, focus, save: None })
        }
    }
}

/// The application as mathematical values: waiting for the saved events, or
/// running with the loaded calendar.
pub enum AppView {
    Loading,
    Loaded(StateView),
}

impl AppView {
    /// A running calendar is well formed.
    pub open spec fn wf(self) -> bool {
        match self {
            AppView::Loading => true,
            AppView::Loaded(state) => state.wf(),
        }
    }

    /// Whether there are unsaved changes.
    pub open spec fn dirty(self) -> bool {
        match self {
            AppView::Loading => false,
            AppView::Loaded(state) => state.sync.dirty(),
        }
    }

    /// The messages the application can take. While it waits for the saved
    /// events it takes any message, but the events handed in must have
    /// valid dates; once running, see [`StateView::accepts`].
    pub open spec fn accepts(self, message: MessageView) -> bool {
        match self {
            AppView::Loading => match message {
                MessageView::Loaded(Ok(events)) => dates_valid(events),
                _ => true,
            },
            AppView::Loaded(state) => state.accepts(message),
        }
    }

    /// The application after `message`, on the day `today`, and what is to
    /// be done.
    ///
    /// While waiting, only the outcome of loading counts: with the saved
    /// events, or with none where loading failed, the calendar starts on
    /// `today`, no event being edited. Every other message is dropped.
    /// Once running, see [`StateView::step`].
    pub open spec fn step(self, message: MessageView, today: Ymd) -> (AppView, CommandView) {
        match self {
            AppView::Loading => match message {
                MessageView::Loaded(Ok(events)) => (
                    AppView::Loaded(StateView::fresh(at_rest(events), today)),
                    CommandView::none(),
                ),
                MessageView::Loaded(Err(_)) => (
                    AppView::Loaded(StateView::fresh(Seq::empty(), today)),
                    CommandView::none(),
                ),
                _ => (AppView::Loading, CommandView::none()),
            },
            AppView::Loaded(state) => {
                let (next, command) = state.step(message);
                (AppView::Loaded(next), command)
            },
        }
    }
}

/// The positions, among the first `n` of `events`, of the events on `date`,
/// in their order.
pub open spec fn positions_on(events: Seq<EventView>, date: Ymd, n: nat) -> Seq<nat>
    decreases n,
{
    if n == 0 {
        Seq::empty()
    } else {
        let before = positions_on(events, date, (n - 1) as nat);
        if events[n - 1].date == date {
            before.push((n - 1) as nat)
        } else {
            before
        }
    }
}

impl StateView {
    /// The state after each of `messages` in turn.
    pub open spec fn run(self, messages: Seq<MessageView>) -> StateView
        decreases messages.len(),
    {
        if messages.len() == 0 {
            self
        } else {
            self.run(messages.drop_last()).step(messages.last()).0
        }
    }

    /// How many saves begin while the state takes each of `messages` in
    /// turn.
    pub open spec fn saves_begun(self, messages: Seq<MessageView>) -> nat
        decreases messages.len(),
    {
        if messages.len() == 0 {
            0
        } else {
            let earlier = self.saves_begun(messages.drop_last());
            if self.run(messages.drop_last()).step(messages.last()).1.save is Some {
                earlier + 1
            } else {
                earlier
            }
        }
    }
}

/// A well-formed state stays well formed under every message it accepts,
/// and the events it hands over for saving have valid dates.
pub proof fn lemma_step_keeps_wf(state: StateView, message: MessageView)
    requires
        state.wf(),
        state.accepts(message),
    ensures
        state.step(message).0.wf(),
        state.step(message).1.save matches Some(events) ==> dates_valid(events),
{
}

/// At most one save is under way. A save begins only where none is under
/// way once the message is taken, and it is then the one under way; while a
/// save is under way, a change begins none and is kept as unsaved.
pub proof fn lemma_one_save_at_a_time(state: StateView, message: MessageView)
    ensures
        state.step(message).1.save is Some ==> (!state.sync.saving() || message is Saved)
            && state.step(message).0.sync == SaveState::Saving,
        state.sync.saving() && !(message is Saved) ==> state.step(message).1.save is None
            && state.step(message).0.sync == SaveState::DirtySaving,
        !state.step(message).0.sync.save_due(),
{
}

/// A save carries all events as they are right after the message that
/// begins it.
pub proof fn lemma_save_carries_all_events(state: StateView, message: MessageView)
    requires
        state.step(message).1.save is Some,
    ensures
        state.step(message).1.save == Some(state.step(message).0.events),
        state.step(message).0.events == state.changed(message).events,
{
}

/// No change is lost: a change is saved at once, or it is kept as unsaved
/// while a save is under way, and the end of that save then begins the save
/// that carries it.
pub proof fn lemma_no_change_is_lost(
    state: StateView,
    message: MessageView,
    outcome: Result<(), SaveError>,
)
    requires
        !(message is Saved),
    ensures
        ({
            let (next, command) = state.step(message);
            ||| command.save == Some(next.events)
            ||| next.sync == SaveState::DirtySaving && next.step(
                MessageView::Saved(outcome),
            ).1.save == Some(next.events)
        }),
{
}

/// With nothing to save and no save under way, a change begins a save at
/// once.
pub proof fn lemma_change_when_idle_is_saved(state: StateView, message: MessageView)
    requires
        !state.sync.saving(),
        !(message is Saved),
    ensures
        state.step(message).1.save == Some(state.changed(message).events),
        state.step(message).0.sync == SaveState::Saving,
{
}

/// The end of a save counts the same whether the save succeeded or failed,
/// and leaves the calendar as it is. Where changes were made meanwhile, the
/// next save begins; where none were, none does.
pub proof fn lemma_save_finished(
    state: StateView,
    outcome: Result<(), SaveError>,
    other: Result<(), SaveError>,
)
    ensures
        state.step(MessageView::Saved(outcome)) == state.step(MessageView::Saved(other)),
        state.step(MessageView::Saved(outcome)).0.events == state.events,
        state.step(MessageView::Saved(outcome)).0.date == state.date,
        state.sync.dirty() ==> state.step(MessageView::Saved(outcome)).1.save == Some(
            state.events,
        ),
        !state.sync.dirty() ==> state.step(MessageView::Saved(outcome)).1.save is None
            && state.step(MessageView::Saved(outcome)).0.sync == SaveState::Idle,
{
}

/// While a save is under way, changes begin no save, however many they
/// are.
pub proof fn lemma_no_save_during_save(state: StateView, messages: Seq<MessageView>)
    requires
        state.sync.saving(),
        forall|i: int| 0 <= i < messages.len() ==> !(#[trigger] messages[i] is Saved),
    ensures
        state.saves_begun(messages) == 0,
        state.run(messages).sync.saving(),
        messages.len() > 0 ==> state.run(messages).sync == SaveState::DirtySaving,
    decreases messages.len(),
{
    if messages.len() > 0 {
        lemma_no_save_during_save(state, messages.drop_last());
    }
}

/// Changes made while a save is under way are saved together: they begin
/// no save, and the end of the save under way begins exactly one, which
/// carries the events as they are after the last change.
pub proof fn lemma_changes_during_save_are_saved_once(
    state: StateView,
    messages: Seq<MessageView>,
    outcome: Result<(), SaveError>,
)
    requires
        state.sync.saving(),
        messages.len() > 0,
        forall|i: int| 0 <= i < messages.len() ==> !(#[trigger] messages[i] is Saved),
    ensures
        state.saves_begun(messages.push(MessageView::Saved(outcome))) == 1,
        state.run(messages).step(MessageView::Saved(outcome)).1.save == Some(
            state.run(messages).events,
        ),
        state.run(messages.push(MessageView::Saved(outcome))).events == state.run(
            messages,
        ).events,
        state.run(messages.push(MessageView::Saved(outcome))).sync == SaveState::Saving,
{
    lemma_no_save_during_save(state, messages);
    let all = messages.push(MessageView::Saved(outcome));
    assert(all.drop_last() =~= messages);
    assert(all.last() == MessageView::Saved(outcome));
}

/// While the application waits for the saved events, every message but the
/// outcome of loading is dropped.
pub proof fn lemma_waiting_drops_messages(message: MessageView, today: Ymd)
    requires
        !(message is Loaded),
    ensures
        AppView::Loading.step(message, today) == (AppView::Loading, CommandView::none()),
{
}

/// The outcome of loading starts the calendar, whether loading succeeded or
/// failed: a failure starts it as saved events without any event would.
pub proof fn lemma_loading_ends(outcome: Result<Seq<EventView>, LoadError>, today: Ymd)
    requires
        today.valid(),
        outcome matches Ok(events) ==> dates_valid(events),
    ensures
        AppView::Loading.step(MessageView::Loaded(outcome), today).0 is Loaded,
        AppView::Loading.step(MessageView::Loaded(outcome), today).0.wf(),
        AppView::Loading.step(MessageView::Loaded(outcome), today).1 == CommandView::none(),
        outcome is Err ==> AppView::Loading.step(MessageView::Loaded(outcome), today)
            == AppView::Loading.step(MessageView::Loaded(Ok(Seq::empty())), today),
{
    assert(at_rest(Seq::<EventView>::empty()) =~= Seq::empty());
}

/// A running calendar keeps running: no message brings the application
/// back to waiting.
pub proof fn lemma_running_stays_running(state: StateView, message: MessageView, today: Ymd)
    ensures
        AppView::Loaded(state).step(message, today).0 is Loaded,
        AppView::Loaded(state).step(message, today).1.load == false,
{
}

/// The loaded calendar.
#[derive(Debug)]
pub struct State {
    date: Date,
    events: Vec<Event>,
    show_modal: bool,
    show_picker: bool,
    sync: SaveState,
    input_value: String,
    picked_date: Date,
}

impl View for State {
    type V = StateView;

    closed spec fn view(&self) -> StateView {
        StateView {
            date: self.date@,
            events: views(self.events@),
            show_modal: self.show_modal,
            show_picker: self.show_picker,
            sync: self.sync,
            input_value: self.input_value@,
            picked_date: self.picked_date@,
        }
    }
}

/// Copies `events`, none of the copies being edited.
fn settled(events: &Vec<Event>) -> (rested: Vec<Event>)
    ensures
        views(rested@) == at_rest(views(events@)),
{
    let mut rested: Vec<Event> = Vec::new();
    let mut i: usize = 0;
    while i < events.len()
        invariant
            i <= events.len(),
            rested.len() == i,
            forall|k: int| 0 <= k < i ==> rested[k]@ == events[k]@.at_rest(),
        decreases events.len() - i,
    {
        rested.push(Event::new(events[i].title.clone(), events[i].date));
        i += 1;
    }
    assert(views(rested@) =~= at_rest(views(events@)));
    rested
}

impl State {
    #[verifier::type_invariant]
    spec fn inv(self) -> bool {
        self@.wf()
    }

    /// The state right after loading `events`, on the day `today`.
    fn fresh(events: Vec<Event>, today: Date) -> (state: State)
        requires
            today@.valid(),
            dates_valid(views(events@)),
        ensures
            state@ == StateView::fresh(views(events@), today@),
    {
        State {
            date: today,
            events,
            show_modal: false,
            show_picker: false,
            sync: SaveState::Idle,
            input_value: String::new(),
            picked_date: today,
        }
    }

    /// Tells whether the state can take `message`.
    pub fn accepts(&self, message: &Message) -> (ok: bool)
        ensures
            ok == self@.accepts(message@),
    {
        match message {
            Message::SubmitDate(date) => date.is_valid(),
            Message::EventMessage(i, EventMessage::Delete) => *i < self.events.len(),
            Message::NextMonth => !(self.date.year == MAX_YEAR && self.date.month == 12),
            Message::PrevMonth => !(self.date.year == MIN_YEAR && self.date.month == 1),
            _ => true,
        }
    }

    /// Takes `message`: changes the calendar, marks it as changed or as
    /// saved, and begins a save where one is due.
    pub fn handle(&mut self, message: Message) -> (command: Command)
        requires
            old(self)@.accepts(message@),
        ensures
            final(self)@ == old(self)@.step(message@).0,
            command@ == old(self)@.step(message@).1,
            final(self)@.wf(),
    {
        proof {
            use_type_invariant(&*self);
        }
        let ghost before = self@;
        let ghost seen = message@;
        let mut events: Vec<Event> = Vec::new();
        core::mem::swap(&mut self.events, &mut events);
        assert(views(self.events@) =~= Seq::empty());
        let mut focus: Option<usize> = None;
        let mut saved: bool = false;
        match message {
            Message::NextMonth => {
                self.date = succ_month(self.date);
            },
            Message::PrevMonth => {
                self.date = pred_month(self.date);
            },
            Message::TitleInputChanged(value) => {
                self.input_value = value;
            },
            Message::CreateEvent => {
                if !self.input_value.as_str().is_empty() {
                    let title: String = self.input_value.clone();
                    let event: Event = Event::new(title, self.picked_date);
                    assert(views(events@.push(event)) =~= views(events@).push(event@));
                    events.push(event);
                    self.input_value = String::new();
                }
                self.show_modal = false;
            },
            Message::OpenModal => {
                self.show_modal = true;
            },
            Message::CloseModal => {
                self.show_modal = false;
            },
            Message::ChooseDate => {
                self.show_picker = true;
            },
            Message::SubmitDate(date) => {
                self.picked_date = date;
                self.show_picker = false;
            },
            Message::CancelDate => {
                self.show_picker = false;
            },
            Message::EventMessage(i, EventMessage::Delete) => {
                assert(views(events@.remove(i as int)) =~= views(events@).remove(i as int));
                events.remove(i);
            },
            Message::EventMessage(i, event_message) => {
                if i < events.len() {
                    if matches!(event_message, EventMessage::Edit) {
                        focus = Some(i);
                    }
                    let ghost earlier = events@;
                    events[i].update(event_message);
                    assert(views(events@) =~= views(earlier).update(
                        i as int,
                        earlier[i as int]@.after(event_message@),
                    ));
                }
            },
            Message::Saved(_) => {
                saved = true;
            },
            Message::Loaded(_) => {},
        }
        assert(views(events@) == before.changed(seen).events);
        let marked: SaveState = if saved {
            self.sync.finish_save()
        } else {
            self.sync.touch()
        };
        let save: Option<SavedState> = match marked {
            SaveState::Dirty => Some(SavedState { events: clone_events(&events) }),
            _ => None,
        };
        self.events = events;
        self.sync = match marked {
            SaveState::Dirty => SaveState::Saving,
            _ => marked,
        };
        Command { load: false, focus, save }
    }

    /// The displayed month, as a day of it.
    pub fn date(&self) -> (date: Date)
        ensures
            date@ == self@.date,
            date@.valid(),
    {
        proof {
            use_type_invariant(self);
        }
        self.date
    }

    /// The events, in the order in which they were made.
    pub fn events(&self) -> (events: &Vec<Event>)
        ensures
            views(events@) == self@.events,
    {
        &self.events
    }

    /// The positions of the events on `date`, in their order.
    pub fn events_on(&self, date: Date) -> (positions: Vec<usize>)
        ensures
            positions@.map_values(|p: usize| p as nat) == positions_on(
                self@.events,
                date@,
                self@.events.len(),
            ),
    {
        let mut positions: Vec<usize> = Vec::new();
        let mut i: usize = 0;
        assert(positions@.map_values(|p: usize| p as nat) =~= Seq::empty());
        while i < self.events.len()
            invariant
                i <= self.events.len(),
                positions@.map_values(|p: usize| p as nat) == positions_on(
                    views(self.events@),
                    date@,
                    i as nat,
                ),
            decreases self.events.len() - i,
        {
            let ghost before = positions@;
            if self.events[i].date == date {
                positions.push(i);
                assert(positions@.map_values(|p: usize| p as nat) =~= before.map_values(
                    |p: usize| p as nat,
                ).push(i as nat));
            }
            i += 1;
        }
        positions
    }

    /// Whether the dialog for a new event is open.
    pub fn show_modal(&self) -> (open: bool)
        ensures
            open == self@.show_modal,
    {
        self.show_modal
    }

    /// Whether the date picker is open.
    pub fn show_picker(&self) -> (open: bool)
        ensures
            open == self@.show_picker,
    {
        self.show_picker
    }

    /// Whether there are unsaved changes.
    pub fn dirty(&self) -> (dirty: bool)
        ensures
            dirty == self@.sync.dirty(),
    {
        self.sync.is_dirty()
    }

    /// Whether a save is under way.
    pub fn saving(&self) -> (saving: bool)
        ensures
            saving == self@.sync.saving(),
    {
        self.sync.is_saving()
    }

    /// The title typed for the next event.
    pub fn input_value(&self) -> (value: &String)
        ensures
            value@ == self@.input_value,
    {
        &self.input_value
    }

    /// The day chosen for the next event.
    pub fn picked_date(&self) -> (date: Date)
        ensures
            date@ == self@.picked_date,
            date@.valid(),
    {
        proof {
            use_type_invariant(self);
        }
        self.picked_date
    }
}

/// The application: waiting for the saved events, or running with the
/// loaded calendar.
#[derive(Debug)]
pub enum CalendarApp {
    Loading,
    Loaded(State),
}

impl View for CalendarApp {
    type V = AppView;

    open spec fn view(&self) -> AppView {
        match self {
            CalendarApp::Loading => AppView::Loading,
            CalendarApp::Loaded(state) => AppView::Loaded(state@),
        }
    }
}

impl CalendarApp {
    /// The application at its start: waiting, with the saved events to be
    /// loaded.
    pub fn new() -> (start: (CalendarApp, Command))
        ensures
            start.0@ == AppView::Loading,
            start.1@ == (CommandView { load: true, focus: None, save: None }),
    {
        (CalendarApp::Loading, Command { load: true, focus: None, save: None })
    }

    /// The title of the window, which shows whether there are unsaved
    /// changes.
    pub fn title(&self) -> (title: String)
        ensures
            title@ == if self@.dirty() {
                "Todos*** - Iced"@
            } else {
                "Todos - Iced"@
            },
    {
        let dirty: bool = match self {
            CalendarApp::Loading => false,
            CalendarApp::Loaded(state) => state.dirty(),
        };
        if dirty {
            String::from_str("Todos*** - Iced")
        } else {
            String::from_str("Todos - Iced")
        }
    }

    /// Tells whether the application can take `message`.
    pub fn accepts(&self, message: &Message) -> (ok: bool)
        ensures
            ok == self@.accepts(message@),
    {
        match self {
            CalendarApp::Loading => match message {
                Message::Loaded(Ok(saved)) => saved.has_valid_dates(),
                _ => true,
            },
            CalendarApp::Loaded(state) => state.accepts(message),
        }
    }

    /// Takes `message` on the day `today`.
    pub fn apply(&mut self, message: Message, today: Date) -> (command: Command)
        requires
            old(self)@.accepts(message@),
            today@.valid(),
        ensures
            final(self)@ == old(self)@.step(message@, today@).0,
            command@ == old(self)@.step(message@, today@).1,
            final(self)@.wf(),
    {
        match self {
            CalendarApp::Loading => {
                match message {
                    Message::Loaded(Ok(saved)) => {
                        let events: Vec<Event> = settled(&saved.events);
                        *self = CalendarApp::Loaded(State::fresh(events, today));
                    },
                    Message::Loaded(Err(_)) => {
                        let events: Vec<Event> = Vec::new();
                        assert(views(events@) =~= Seq::empty());
                        *self = CalendarApp::Loaded(State::fresh(events, today));
                    },
                    Message::Saved(_)
                    | Message::TitleInputChanged(_)
                    | Message::CreateEvent
                    | Message::OpenModal
                    | Message::CloseModal
                    | Message::ChooseDate
                    | Message::SubmitDate(_)
                    | Message::CancelDate
                    | Message::EventMessage(_, _)
                    | Message::NextMonth
                    | Message::PrevMonth => {},
                }
                Command::none()
            },
            CalendarApp::Loaded(state) => state.handle(message),
        }
    }

    /// Takes `message`. The day on which a loaded calendar starts is read
    /// from the system clock, so the outcome is that of [`Self::apply`] for
    /// some valid day.
    pub fn update(&mut self, message: Message) -> (command: Command)
        requires
            old(self)@.accepts(message@),
        ensures
            exists|today: Ymd|
                today.valid() && final(self)@ == (#[trigger] old(self)@.step(message@, today)).0
                    && command@ == old(self)@.step(message@, today).1,
            final(self)@.wf(),
    {
        let today: Date = Date::today();
        let command: Command = self.apply(message, today);
        assert(final(self)@ == old(self)@.step(message@, today@).0);
        command
    }
}

} // verus!
