//! What is saved of the calendar, and how loading and saving may fail.
//!
//! The file holds one record for each event: its title and its date as
//! text. Reading and writing the file happen outside; this module turns
//! events into records and back, and says which step of loading or saving
//! comes next and which error a failed step stands for.

use crate::event::{Event, EventState, EventView};
use crate::text::{is_reading, lemma_text_names_one_date, parse_date};
use vstd::prelude::*;
use vstd::string::StringExecFns;

verus! {

/// Why the saved events could not be loaded.
#[derive(Clone, Copy, Debug, PartialEq, Eq, Structural)]
pub enum LoadError {
    /// The file is missing or cannot be read.
    File,
    /// The file does not hold what was saved.
    Format,
}

/// Why the events could not be saved.
#[derive(Clone, Copy, Debug, PartialEq, Eq, Structural)]
pub enum SaveError {
    /// The directory or the file cannot be made.
    File,
    /// The file cannot be written.
    Write,
    /// The events cannot be put into text.
    Format,
}

/// The events of the calendar as they are handed over for saving, or as
/// they come back from loading.
#[derive(Debug)]
pub struct SavedState {
    pub events: Vec<Event>,
}

/// The views of a sequence of events.
pub open spec fn views(events: Seq<Event>) -> Seq<EventView> {
    events.map_values(|event: Event| event@)
}

/// The events as they are after loading: none being edited.
pub open spec fn at_rest(events: Seq<EventView>) -> Seq<EventView> {
    events.map_values(|event: EventView| event.at_rest())
}

impl View for SavedState {
    type V = Seq<EventView>;

    open spec fn view(&self) -> Seq<EventView> {
        views(self.events@)
    }
}

/// Copies `events`.
pub fn clone_events(events: &Vec<Event>) -> (copy: Vec<Event>)
    ensures
        views(copy@) == views(events@),
{
    let mut copy: Vec<Event> = Vec::new();
    let mut i: usize = 0;
    while i < events.len()
        invariant
            i <= events.len(),
            copy.len() == i,
            forall|k: int| 0 <= k < i ==> copy[k]@ == events[k]@,
        decreases events.len() - i,
    {
        copy.push(events[i].clone());
        i += 1;
    }
    assert(views(copy@) =~= views(events@));
    copy
}

impl Clone for SavedState {
    fn clone(&self) -> (copy: Self)
        ensures
            copy@ == self@,
    {
        SavedState { events: clone_events(&self.events) }
    }
}

/// One event as it stands in the file: its title, and its date as text.
#[derive(Debug)]
pub struct SavedEvent {
    pub title: String,
    pub date: String,
}

/// A [`SavedEvent`] as mathematical values.
pub struct SavedEventView {
    pub title: Seq<char>,
    pub date: Seq<char>,
}

impl View for SavedEvent {
    type V = SavedEventView;

    open spec fn view(&self) -> SavedEventView {
        SavedEventView { title: self.title@, date: self.date@ }
    }
}

impl Clone for SavedEvent {
    fn clone(&self) -> (copy: Self)
        ensures
            copy@ == self@,
    {
        SavedEvent { title: self.title.clone(), date: self.date.clone() }
    }
}

/// The views of a sequence of records.
pub open spec fn record_views(records: Seq<SavedEvent>) -> Seq<SavedEventView> {
    records.map_values(|record: SavedEvent| record@)
}

/// The records that are written for `events`: the title as it is, the date
/// as text. Whether an event is being edited is not written.
pub open spec fn written(events: Seq<EventView>) -> Seq<SavedEventView> {
    events.map_values(
        |event: EventView| SavedEventView { title: event.title, date: event.date.iso_text() },
    )
}

/// Whether `event` is what `record` reads as: the same title, the valid
/// date that the record's text names, and not being edited.
pub open spec fn reads_as(record: SavedEventView, event: EventView) -> bool {
    &&& event.title == record.title
    &&& is_reading(record.date, Some(event.date))
    &&& event.state == EventState::Idle
}

/// What loading `records` may give: the events that the records read as,
/// one for one and in their order; or a format error, where the date of
/// some record is the text of no valid date.
pub open spec fn is_loading(
    records: Seq<SavedEventView>,
    outcome: Result<Seq<EventView>, LoadError>,
) -> bool {
    match outcome {
        Ok(events) => events.len() == records.len() && forall|i: int|
            0 <= i < records.len() ==> reads_as(#[trigger] records[i], events[i]),
        Err(error) => error == LoadError::Format && exists|i: int|
            0 <= i < records.len() && is_reading((#[trigger] records[i]).date, None),
    }
}

/// Whether every event has a valid date.
pub open spec fn dates_valid(events: Seq<EventView>) -> bool {
    forall|i: int| 0 <= i < events.len() ==> (#[trigger] events[i]).date.valid()
}

impl SavedState {
    /// Tells whether every event has a valid date.
    pub fn has_valid_dates(&self) -> (ok: bool)
        ensures
            ok == dates_valid(self@),
    {
        let mut i: usize = 0;
        while i < self.events.len()
            invariant
                i <= self.events.len(),
                forall|k: int| 0 <= k < i ==> (#[trigger] self@[k]).date.valid(),
            decreases self.events.len() - i,
        {
            if !self.events[i].date.is_valid() {
                assert(!self@[i as int].date.valid());
                return false;
            }
            i += 1;
        }
        true
    }

    /// The records to write for these events.
    pub fn to_records(&self) -> (records: Vec<SavedEvent>)
        requires
            dates_valid(self@),
        ensures
            record_views(records@) == written(self@),
    {
        let mut records: Vec<SavedEvent> = Vec::new();
        let mut i: usize = 0;
        while i < self.events.len()
            invariant
                i <= self.events.len(),
                records.len() == i,
                dates_valid(self@),
                forall|k: int|
                    0 <= k < i ==> records[k]@ == (SavedEventView {
                        title: self.events[k].title@,
                        date: self.events[k].date@.iso_text(),
                    }),
            decreases self.events.len() - i,
        {
            assert(self@[i as int].date.valid());
            let event: &Event = &self.events[i];
            records.push(SavedEvent { title: event.title.clone(), date: event.date.format_date() });
            i += 1;
        }
        assert(record_views(records@) =~= written(self@));
        records
    }

    /// The events that `records` hold. Fails with a format error where the
    /// date of a record cannot be read; succeeds otherwise.
    pub fn from_records(records: &Vec<SavedEvent>) -> (loaded: Result<SavedState, LoadError>)
        ensures
            is_loading(
                record_views(records@),
                match loaded {
                    Ok(saved) => Ok(saved@),
                    Err(error) => Err(error),
                },
            ),
            loaded matches Ok(saved) ==> dates_valid(saved@),
    {
        let mut events: Vec<Event> = Vec::new();
        let mut i: usize = 0;
        while i < records.len()
            invariant
                i <= records.len(),
                events.len() == i,
                forall|k: int| 0 <= k < i ==> reads_as(#[trigger] records[k]@, events[k]@),
            decreases records.len() - i,
        {
            match parse_date(records[i].date.as_str()) {
                Some(date) => {
                    events.push(Event::new(records[i].title.clone(), date));
                },
                None => {
                    assert(is_reading(record_views(records@)[i as int].date, None));
                    return Err(LoadError::Format);
                },
            }
            i += 1;
        }
        let saved: SavedState = SavedState { events };
        assert forall|k: int| 0 <= k < records.len() implies reads_as(
            #[trigger] record_views(records@)[k],
            saved@[k],
        ) by {
            assert(reads_as(records[k]@, events[k]@));
        }
        assert forall|k: int| 0 <= k < saved@.len() implies (#[trigger] saved@[k]).date.valid() by {
            assert(reads_as(records[k]@, events[k]@));
        }
        Ok(saved)
    }
}

/// Events that are written and loaded again come back as they were, title
/// and date, none of them being edited; loading what was written does not
/// fail.
pub proof fn lemma_saved_events_round_trip(
    events: Seq<EventView>,
    outcome: Result<Seq<EventView>, LoadError>,
)
    requires
        dates_valid(events),
        is_loading(written(events), outcome),
    ensures
        outcome == Ok::<Seq<EventView>, LoadError>(at_rest(events)),
{
    match outcome {
        Ok(loaded) => {
            assert forall|i: int| 0 <= i < events.len() implies loaded[i] == at_rest(
                events,
            )[i] by {
                assert(reads_as(written(events)[i], loaded[i]));
                lemma_text_names_one_date(loaded[i].date, events[i].date);
            }
            assert(loaded =~= at_rest(events));
        },
        Err(_) => {
            let i = choose|i: int|
                0 <= i < written(events).len() && is_reading(
                    (#[trigger] written(events)[i]).date,
                    None,
                );
            assert(events[i].date.valid());
            assert(written(events)[i].date == events[i].date.iso_text());
        },
    }
}

/// A step of saving. The caller does each step and says whether it
/// succeeded; [`SaveStage::next`] gives the step that follows.
#[derive(Clone, Copy, Debug)]
pub enum SaveStage {
    /// Put the records into text.
    Serialize,
    /// Make the directory of the file, where it is missing.
    CreateDir,
    /// Make a new file beside the saved one.
    CreateFile,
    /// Write the text into the new file.
    Write,
    /// Put the new file in the place of the saved one.
    Replace,
    /// Keep quiet for the length of the quiet interval; the outcome is
    /// settled.
    Pause(Result<(), SaveError>),
    /// Saving has ended with this outcome.
    Done(Result<(), SaveError>),
}

impl SaveStage {
    /// The error that a failure of this step stands for.
    pub open spec fn failure(self) -> SaveError {
        match self {
            SaveStage::Serialize => SaveError::Format,
            SaveStage::CreateDir => SaveError::File,
            SaveStage::CreateFile => SaveError::File,
            _ => SaveError::Write,
        }
    }

    /// The step after this one. A failed step settles the outcome, with
    /// the error it stands for, and so does the last step when it succeeds;
    /// then comes the pause, whatever the outcome, and then the end.
    pub open spec fn after(self, succeeded: bool) -> SaveStage {
        match self {
            SaveStage::Pause(outcome) => SaveStage::Done(outcome),
            SaveStage::Done(outcome) => SaveStage::Done(outcome),
            _ => if !succeeded {
                SaveStage::Pause(Err(self.failure()))
            } else {
                match self {
                    SaveStage::Serialize => SaveStage::CreateDir,
                    SaveStage::CreateDir => SaveStage::CreateFile,
                    SaveStage::CreateFile => SaveStage::Write,
                    SaveStage::Write => SaveStage::Replace,
                    _ => SaveStage::Pause(Ok(())),
                }
            },
        }
    }

    /// The stage reached from this one when the steps succeed or fail as
    /// `outcomes` says, in turn.
    pub open spec fn run(self, outcomes: Seq<bool>) -> SaveStage
        decreases outcomes.len(),
    {
        if outcomes.len() == 0 {
            self
        } else {
            self.run(outcomes.drop_last()).after(outcomes.last())
        }
    }

    /// The first step of saving.
    pub fn first() -> (stage: SaveStage)
        ensures
            stage == SaveStage::Serialize,
    {
        SaveStage::Serialize
    }

    /// The step after this one, given whether this one succeeded.
    pub fn next(self, succeeded: bool) -> (stage: SaveStage)
        ensures
            stage == self.after(succeeded),
    {
        match self {
            SaveStage::Pause(outcome) => SaveStage::Done(outcome),
            SaveStage::Done(outcome) => SaveStage::Done(outcome),
            SaveStage::Serialize => if succeeded {
                SaveStage::CreateDir
            } else {
                SaveStage::Pause(Err(SaveError::Format))
            },
            SaveStage::CreateDir => if succeeded {
                SaveStage::CreateFile
            } else {
                SaveStage::Pause(Err(SaveError::File))
            },
            SaveStage::CreateFile => if succeeded {
                SaveStage::Write
            } else {
                SaveStage::Pause(Err(SaveError::File))
            },
            SaveStage::Write => if succeeded {
                SaveStage::Replace
            } else {
                SaveStage::Pause(Err(SaveError::Write))
            },
            SaveStage::Replace => if succeeded {
                SaveStage::Pause(Ok(()))
            } else {
                SaveStage::Pause(Err(SaveError::Write))
            },
        }
    }
}

/// The outcome of saving when its five steps succeed or fail as `outcomes`
/// says: the error of the first step that fails, or success where none
/// does.
pub open spec fn save_outcome(outcomes: Seq<bool>) -> Result<(), SaveError> {
    if !outcomes[0] {
        Err(SaveError::Format)
    } else if !outcomes[1] {
        Err(SaveError::File)
    } else if !outcomes[2] {
        Err(SaveError::File)
    } else if !outcomes[3] {
        Err(SaveError::Write)
    } else if !outcomes[4] {
        Err(SaveError::Write)
    } else {
        Ok(())
    }
}

/// Saving ends only after the pause: whether it succeeded or failed, the
/// quiet interval is kept.
pub proof fn lemma_save_ends_after_pause(stage: SaveStage, succeeded: bool)
    ensures
        stage.after(succeeded) is Done ==> stage is Pause || stage is Done,
        stage is Pause ==> stage.after(succeeded) == SaveStage::Done(stage->Pause_0),
        stage is Done ==> stage.after(succeeded) == stage,
{
}

/// Saving ends within seven steps, with the error of the first step that
/// failed, or with success where none did.
pub proof fn lemma_save_ends(outcomes: Seq<bool>)
    requires
        outcomes.len() >= 7,
    ensures
        SaveStage::Serialize.run(outcomes) == SaveStage::Done(save_outcome(outcomes)),
    decreases outcomes.len(),
{
    let first = SaveStage::Serialize;
    if outcomes.len() > 7 {
        lemma_save_ends(outcomes.drop_last());
    } else {
        let o6 = outcomes.drop_last();
        let o5 = o6.drop_last();
        let o4 = o5.drop_last();
        let o3 = o4.drop_last();
        let o2 = o3.drop_last();
        let o1 = o2.drop_last();
        let o0 = o1.drop_last();
        assert(first.run(o0) == first);
        assert(first.run(o1) == first.after(outcomes[0]));
        assert(first.run(o2) == first.run(o1).after(outcomes[1]));
        assert(first.run(o3) == first.run(o2).after(outcomes[2]));
        assert(first.run(o4) == first.run(o3).after(outcomes[3]));
        assert(first.run(o5) == first.run(o4).after(outcomes[4]));
        assert(first.run(o6) == first.run(o5).after(outcomes[5]));
        assert(first.run(outcomes) == first.run(o6).after(outcomes[6]));
    }
}

/// A step of loading. The caller does each step and says whether it
/// succeeded; [`LoadStage::next`] gives the step that follows.
#[derive(Clone, Copy, Debug)]
pub enum LoadStage {
    /// Open the file.
    Open,
    /// Read the text of the file.
    Read,
    /// Take the records out of the text, and the events out of the
    /// records.
    Parse,
    /// Loading has ended with this outcome.
    Done(Result<(), LoadError>),
}

impl LoadStage {
    /// The step after this one. A file that cannot be opened or read is a
    /// file error; a text that does not hold the events is a format error.
    pub open spec fn after(self, succeeded: bool) -> LoadStage {
        match self {
            LoadStage::Open => if succeeded {
                LoadStage::Read
            } else {
                LoadStage::Done(Err(LoadError::File))
            },
            LoadStage::Read => if succeeded {
                LoadStage::Parse
            } else {
                LoadStage::Done(Err(LoadError::File))
            },
            LoadStage::Parse => if succeeded {
                LoadStage::Done(Ok(()))
            } else {
                LoadStage::Done(Err(LoadError::Format))
            },
            LoadStage::Done(outcome) => LoadStage::Done(outcome),
        }
    }

    /// The first step of loading.
    pub fn first() -> (stage: LoadStage)
        ensures
            stage == LoadStage::Open,
    {
        LoadStage::Open
    }

    /// The step after this one, given whether this one succeeded.
    pub fn next(self, succeeded: bool) -> (stage: LoadStage)
        ensures
            stage == self.after(succeeded),
    {
        match self {
            LoadStage::Open => if succeeded {
                LoadStage::Read
            } else {
                LoadStage::Done(Err(LoadError::File))
            },
            LoadStage::Read => if succeeded {
                LoadStage::Parse
            } else {
                LoadStage::Done(Err(LoadError::File))
            },
            LoadStage::Parse => if succeeded {
                LoadStage::Done(Ok(()))
            } else {
                LoadStage::Done(Err(LoadError::Format))
            },
            LoadStage::Done(outcome) => LoadStage::Done(outcome),
        }
    }
}

/// Loading ends within three steps: with a file error where the file could
/// not be opened or read, with a format error where its text could not be
/// taken apart, and with success otherwise.
pub proof fn lemma_load_ends(opened: bool, read: bool, parsed: bool)
    ensures
        LoadStage::Open.after(opened).after(read).after(parsed) == LoadStage::Done(
            if !opened || !read {
                Err(LoadError::File)
            } else if !parsed {
                Err(LoadError::Format)
            } else {
                Ok(())
            },
        ),
{
}

/// The name of the file that holds the saved events.
pub fn file_name() -> (name: String)
    ensures
        name@ == "calendar.json"@,
{
    String::from_str("calendar.json")
}

/// The directory of the file: the data directory of the application where
/// there is one, else the working directory.
pub fn storage_dir(data_dir: Option<String>, working_dir: String) -> (dir: String)
    ensures
        dir@ == match data_dir {
            Some(found) => found@,
            None => working_dir@,
        },
{
    match data_dir {
        Some(found) => found,
        None => working_dir,
    }
}

} // verus!
