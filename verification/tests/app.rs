use date_picker::app::{CalendarApp, Command, Message, SaveState, State, SAVE_QUIET_SECS};
use date_picker::date::{Date, MAX_YEAR, MIN_YEAR};
use date_picker::event::{Event, EventMessage, EventState};
use date_picker::persist::{LoadError, SaveError, SavedState};

fn ymd(year: i32, month: u32, day: u32) -> Date {
    Date { year, month, day }
}

fn state(app: &CalendarApp) -> &State {
    match app {
        CalendarApp::Loaded(state) => state,
        CalendarApp::Loading => panic!("still loading"),
    }
}

fn titles(events: &[Event]) -> Vec<String> {
    events.iter().map(|event| event.title.clone()).collect()
}

fn saved_titles(command: &Command) -> Option<Vec<String>> {
    command.save.as_ref().map(|saved| titles(&saved.events))
}

/// A running calendar on `today` with no events, its first save finished.
fn running(today: Date) -> CalendarApp {
    let (mut app, _) = CalendarApp::new();
    app.apply(Message::Loaded(Err(LoadError::File)), today);
    app
}

/// Adds an event through the dialog, as a user would.
fn create(app: &mut CalendarApp, title: &str, date: Date) -> Vec<Command> {
    let today = ymd(2024, 3, 7);
    vec![
        app.apply(Message::OpenModal, today),
        app.apply(Message::ChooseDate, today),
        app.apply(Message::SubmitDate(date), today),
        app.apply(Message::TitleInputChanged(title.to_string()), today),
        app.apply(Message::CreateEvent, today),
    ]
}

#[test]
fn new_app_is_loading_and_asks_for_the_saved_events() {
    let (app, command) = CalendarApp::new();
    assert!(matches!(app, CalendarApp::Loading));
    assert!(command.load);
    assert!(command.focus.is_none());
    assert!(command.save.is_none());
}

#[test]
fn quiet_interval_is_two_seconds() {
    assert_eq!(SAVE_QUIET_SECS, 2);
}

#[test]
fn messages_while_loading_are_dropped() {
    let today = ymd(2024, 3, 7);
    let messages = vec![
        Message::Saved(Ok(())),
        Message::TitleInputChanged("x".to_string()),
        Message::CreateEvent,
        Message::OpenModal,
        Message::CloseModal,
        Message::ChooseDate,
        Message::SubmitDate(today),
        Message::CancelDate,
        Message::EventMessage(0, EventMessage::Delete),
        Message::EventMessage(0, EventMessage::Edit),
        Message::NextMonth,
        Message::PrevMonth,
    ];
    let (mut app, _) = CalendarApp::new();
    for message in messages {
        assert!(app.accepts(&message));
        let command = app.apply(message, today);
        assert!(matches!(app, CalendarApp::Loading));
        assert!(!command.load && command.focus.is_none() && command.save.is_none());
    }
}

#[test]
fn failed_load_starts_an_empty_calendar_on_today() {
    let today = ymd(2024, 3, 7);
    for error in [LoadError::File, LoadError::Format] {
        let (mut app, _) = CalendarApp::new();
        let command = app.apply(Message::Loaded(Err(error)), today);
        assert!(!command.load && command.focus.is_none() && command.save.is_none());
        let state = state(&app);
        assert_eq!(state.date(), today);
        assert_eq!(state.picked_date(), today);
        assert!(state.events().is_empty());
        assert!(!state.show_modal());
        assert!(!state.show_picker());
        assert!(!state.dirty());
        assert!(!state.saving());
        assert_eq!(state.input_value(), "");
    }
}

#[test]
fn load_brings_the_saved_events_at_rest() {
    let today = ymd(2024, 3, 7);
    let mut editing = Event::new("b".to_string(), ymd(2024, 2, 29));
    editing.update(EventMessage::Edit);
    let saved = SavedState { events: vec![Event::new("a".to_string(), ymd(2023, 1, 2)), editing] };
    let (mut app, _) = CalendarApp::new();
    let message = Message::Loaded(Ok(saved));
    assert!(app.accepts(&message));
    let command = app.apply(message, today);
    assert!(command.save.is_none());
    let state = state(&app);
    assert_eq!(titles(state.events()), vec!["a", "b"]);
    assert_eq!(state.events()[0].date, ymd(2023, 1, 2));
    assert_eq!(state.events()[1].date, ymd(2024, 2, 29));
    assert_eq!(state.events()[0].state, EventState::Idle);
    assert_eq!(state.events()[1].state, EventState::Idle);
    assert_eq!(state.date(), today);
    assert!(!state.dirty());
    assert!(!state.saving());
}

#[test]
fn load_with_an_invalid_date_is_not_accepted() {
    let saved = SavedState { events: vec![Event::new("a".to_string(), ymd(2023, 2, 29))] };
    let (app, _) = CalendarApp::new();
    assert!(!app.accepts(&Message::Loaded(Ok(saved))));
}

#[test]
fn update_loads_on_the_day_of_the_clock() {
    let (mut app, _) = CalendarApp::new();
    let command = app.update(Message::Loaded(Err(LoadError::File)));
    assert!(command.save.is_none());
    let today = state(&app).date();
    assert!(today.is_valid());
    assert!(today.year >= 2024);
    assert_eq!(state(&app).picked_date(), today);
    let command = app.update(Message::OpenModal);
    assert_eq!(saved_titles(&command), Some(vec![]));
    assert!(state(&app).show_modal());
    assert!(state(&app).saving());
}

#[test]
fn late_load_outcome_changes_nothing_but_the_marks() {
    let today = ymd(2024, 3, 7);
    let mut app = running(today);
    let saved = SavedState { events: vec![Event::new("a".to_string(), ymd(2023, 1, 2))] };
    let command = app.apply(Message::Loaded(Ok(saved)), ymd(2030, 1, 1));
    assert!(matches!(app, CalendarApp::Loaded(_)));
    assert!(state(&app).events().is_empty());
    assert_eq!(state(&app).date(), today);
    assert_eq!(saved_titles(&command), Some(vec![]));
}

#[test]
fn first_change_begins_a_save_at_once() {
    let mut app = running(ymd(2024, 3, 7));
    let command = app.apply(Message::OpenModal, ymd(2024, 3, 7));
    assert_eq!(saved_titles(&command), Some(vec![]));
    assert!(!command.load);
    assert!(state(&app).saving());
    assert!(!state(&app).dirty());
    assert!(state(&app).show_modal());
}

#[test]
fn three_changes_during_a_save_are_saved_once() {
    let today = ymd(2024, 3, 7);
    let mut app = running(today);
    let first = app.apply(Message::TitleInputChanged("one".to_string()), today);
    assert_eq!(saved_titles(&first), Some(vec![]));

    let mut saves = 0;
    for command in [
        app.apply(Message::CreateEvent, today),
        app.apply(Message::TitleInputChanged("two".to_string()), today),
        app.apply(Message::CreateEvent, today),
    ] {
        if command.save.is_some() {
            saves += 1;
        }
    }
    assert_eq!(saves, 0);
    assert!(state(&app).dirty());
    assert!(state(&app).saving());

    let command = app.apply(Message::Saved(Ok(())), today);
    assert_eq!(saved_titles(&command), Some(vec!["one".to_string(), "two".to_string()]));
    assert!(state(&app).saving());
    assert!(!state(&app).dirty());

    let command = app.apply(Message::Saved(Ok(())), today);
    assert!(command.save.is_none());
    assert!(!state(&app).saving());
    assert!(!state(&app).dirty());
}

#[test]
fn failed_save_does_not_block_the_next_one() {
    let today = ymd(2024, 3, 7);
    let mut app = running(today);
    assert!(app.apply(Message::OpenModal, today).save.is_some());
    for error in [SaveError::File, SaveError::Write, SaveError::Format] {
        assert!(app.apply(Message::CloseModal, today).save.is_none());
        let command = app.apply(Message::Saved(Err(error)), today);
        assert_eq!(saved_titles(&command), Some(vec![]));
        assert!(state(&app).saving());
        assert!(!state(&app).dirty());
    }
    assert!(app.apply(Message::Saved(Err(SaveError::Write)), today).save.is_none());
    assert!(!state(&app).saving());
    assert!(app.apply(Message::OpenModal, today).save.is_some());
}

#[test]
fn end_of_a_save_without_changes_begins_none() {
    let today = ymd(2024, 3, 7);
    let mut app = running(today);
    assert!(app.apply(Message::OpenModal, today).save.is_some());
    assert!(app.apply(Message::Saved(Ok(())), today).save.is_none());
    assert!(!state(&app).saving());
    assert!(!state(&app).dirty());
    assert!(app.apply(Message::Saved(Ok(())), today).save.is_none());
    assert!(!state(&app).saving());
}

#[test]
fn create_event_takes_the_typed_title_and_the_picked_date() {
    let mut app = running(ymd(2024, 3, 7));
    create(&mut app, "Dentist 🦷", ymd(2024, 4, 30));
    let state = state(&app);
    assert_eq!(titles(state.events()), vec!["Dentist 🦷"]);
    assert_eq!(state.events()[0].date, ymd(2024, 4, 30));
    assert_eq!(state.events()[0].state, EventState::Idle);
    assert_eq!(state.input_value(), "");
    assert!(!state.show_modal());
    assert!(!state.show_picker());
    assert_eq!(state.picked_date(), ymd(2024, 4, 30));
    assert_eq!(state.date(), ymd(2024, 3, 7));
}

#[test]
fn create_event_without_a_title_only_closes_the_dialog() {
    let today = ymd(2024, 3, 7);
    let mut app = running(today);
    app.apply(Message::OpenModal, today);
    assert!(state(&app).show_modal());
    app.apply(Message::CreateEvent, today);
    assert!(state(&app).events().is_empty());
    assert!(!state(&app).show_modal());
    assert!(state(&app).dirty());
}

#[test]
fn dialog_and_picker_open_and_close() {
    let today = ymd(2024, 3, 7);
    let mut app = running(today);
    app.apply(Message::OpenModal, today);
    assert!(state(&app).show_modal());
    app.apply(Message::ChooseDate, today);
    assert!(state(&app).show_picker());
    app.apply(Message::CancelDate, today);
    assert!(!state(&app).show_picker());
    assert_eq!(state(&app).picked_date(), today);
    app.apply(Message::ChooseDate, today);
    app.apply(Message::SubmitDate(ymd(2025, 1, 1)), today);
    assert!(!state(&app).show_picker());
    assert_eq!(state(&app).picked_date(), ymd(2025, 1, 1));
    assert!(state(&app).show_modal());
    app.apply(Message::CloseModal, today);
    assert!(!state(&app).show_modal());
    app.apply(Message::TitleInputChanged("abc".to_string()), today);
    assert_eq!(state(&app).input_value(), "abc");
}

#[test]
fn invalid_picked_date_is_not_accepted() {
    let app = running(ymd(2024, 3, 7));
    assert!(!app.accepts(&Message::SubmitDate(ymd(2023, 2, 29))));
    assert!(!app.accepts(&Message::SubmitDate(ymd(2023, 13, 1))));
    assert!(app.accepts(&Message::SubmitDate(ymd(2024, 2, 29))));
}

#[test]
fn next_month_clamps_the_day() {
    let mut app = running(ymd(2024, 1, 31));
    app.apply(Message::NextMonth, ymd(2024, 1, 31));
    assert_eq!(state(&app).date(), ymd(2024, 2, 29));
    app.apply(Message::NextMonth, ymd(2024, 1, 31));
    assert_eq!(state(&app).date(), ymd(2024, 3, 29));
    let mut app = running(ymd(2023, 12, 31));
    app.apply(Message::NextMonth, ymd(2024, 1, 31));
    assert_eq!(state(&app).date(), ymd(2024, 1, 31));
}

#[test]
fn prev_month_clamps_the_day() {
    let mut app = running(ymd(2024, 3, 31));
    app.apply(Message::PrevMonth, ymd(2024, 1, 31));
    assert_eq!(state(&app).date(), ymd(2024, 2, 29));
    app.apply(Message::PrevMonth, ymd(2024, 1, 31));
    assert_eq!(state(&app).date(), ymd(2024, 1, 29));
    app.apply(Message::PrevMonth, ymd(2024, 1, 31));
    assert_eq!(state(&app).date(), ymd(2023, 12, 29));
}

#[test]
fn months_past_the_calendar_are_not_accepted() {
    let last = running(ymd(MAX_YEAR, 12, 1));
    assert!(!last.accepts(&Message::NextMonth));
    assert!(last.accepts(&Message::PrevMonth));
    let first = running(ymd(MIN_YEAR, 1, 1));
    assert!(!first.accepts(&Message::PrevMonth));
    assert!(first.accepts(&Message::NextMonth));
}

#[test]
fn edit_puts_the_focus_on_the_event() {
    let today = ymd(2024, 3, 7);
    let mut app = running(today);
    create(&mut app, "a", today);
    create(&mut app, "b", today);
    let command = app.apply(Message::EventMessage(1, EventMessage::Edit), today);
    assert_eq!(command.focus, Some(1));
    assert_eq!(state(&app).events()[1].state, EventState::Editing);
    assert_eq!(state(&app).events()[0].state, EventState::Idle);
    let command =
        app.apply(Message::EventMessage(1, EventMessage::TitleEdited("c".to_string())), today);
    assert_eq!(command.focus, None);
    assert_eq!(titles(state(&app).events()), vec!["a", "c"]);
    let command = app.apply(Message::EventMessage(1, EventMessage::FinishEdition), today);
    assert_eq!(command.focus, None);
    assert_eq!(state(&app).events()[1].state, EventState::Idle);
}

#[test]
fn finish_edition_with_empty_title_keeps_the_event_open() {
    let today = ymd(2024, 3, 7);
    let mut app = running(today);
    create(&mut app, "a", today);
    app.apply(Message::EventMessage(0, EventMessage::Edit), today);
    app.apply(Message::EventMessage(0, EventMessage::TitleEdited(String::new())), today);
    app.apply(Message::EventMessage(0, EventMessage::FinishEdition), today);
    assert_eq!(state(&app).events()[0].state, EventState::Editing);
    assert_eq!(state(&app).events()[0].title, "");
}

#[test]
fn event_message_for_a_missing_event_changes_no_event() {
    let today = ymd(2024, 3, 7);
    let mut app = running(today);
    create(&mut app, "a", today);
    let message = Message::EventMessage(5, EventMessage::Edit);
    assert!(app.accepts(&message));
    let command = app.apply(message, today);
    assert_eq!(command.focus, None);
    assert_eq!(state(&app).events()[0].state, EventState::Idle);
    assert_eq!(titles(state(&app).events()), vec!["a"]);
}

#[test]
fn delete_removes_by_position() {
    let today = ymd(2024, 3, 7);
    let mut app = running(today);
    for title in ["a", "b", "c", "d"] {
        create(&mut app, title, today);
    }
    assert!(app.accepts(&Message::EventMessage(3, EventMessage::Delete)));
    assert!(!app.accepts(&Message::EventMessage(4, EventMessage::Delete)));
    let command = app.apply(Message::EventMessage(1, EventMessage::Delete), today);
    assert_eq!(command.focus, None);
    assert_eq!(titles(state(&app).events()), vec!["a", "c", "d"]);
    app.apply(Message::EventMessage(2, EventMessage::Delete), today);
    assert_eq!(titles(state(&app).events()), vec!["a", "c"]);
    app.apply(Message::EventMessage(0, EventMessage::Delete), today);
    assert_eq!(titles(state(&app).events()), vec!["c"]);
    assert!(!app.accepts(&Message::EventMessage(1, EventMessage::Delete)));
}

#[test]
fn save_carries_the_events_as_they_are_when_it_begins() {
    let today = ymd(2024, 3, 7);
    let mut app = running(today);
    app.apply(Message::OpenModal, today);
    app.apply(Message::Saved(Ok(())), today);
    app.apply(Message::TitleInputChanged("a".to_string()), today);
    app.apply(Message::CreateEvent, today);
    app.apply(Message::EventMessage(0, EventMessage::Edit), today);
    let command = app.apply(Message::Saved(Ok(())), today);
    let saved = command.save.expect("a save is due");
    assert_eq!(titles(&saved.events), vec!["a"]);
    assert_eq!(saved.events[0].date, today);
    assert_eq!(saved.events[0].state, EventState::Editing);
}

#[test]
fn events_on_gives_the_positions_of_a_day() {
    let today = ymd(2024, 3, 7);
    let mut app = running(today);
    create(&mut app, "a", ymd(2024, 3, 7));
    create(&mut app, "b", ymd(2024, 3, 8));
    create(&mut app, "c", ymd(2024, 3, 7));
    create(&mut app, "d", ymd(2023, 3, 7));
    assert_eq!(state(&app).events_on(ymd(2024, 3, 7)), vec![0, 2]);
    assert_eq!(state(&app).events_on(ymd(2024, 3, 8)), vec![1]);
    assert_eq!(state(&app).events_on(ymd(2023, 3, 7)), vec![3]);
    assert!(state(&app).events_on(ymd(2024, 3, 9)).is_empty());
}

#[test]
fn title_shows_unsaved_changes() {
    let today = ymd(2024, 3, 7);
    let (mut app, _) = CalendarApp::new();
    assert_eq!(app.title(), "Todos - Iced");
    app.apply(Message::Loaded(Err(LoadError::File)), today);
    assert_eq!(app.title(), "Todos - Iced");
    app.apply(Message::OpenModal, today);
    assert_eq!(app.title(), "Todos - Iced");
    app.apply(Message::CloseModal, today);
    assert_eq!(app.title(), "Todos*** - Iced");
    app.apply(Message::Saved(Ok(())), today);
    assert_eq!(app.title(), "Todos - Iced");
}

#[test]
fn save_state_follows_its_transitions() {
    assert_eq!(SaveState::Idle.touch(), SaveState::Dirty);
    assert_eq!(SaveState::Dirty.touch(), SaveState::Dirty);
    assert_eq!(SaveState::Saving.touch(), SaveState::DirtySaving);
    assert_eq!(SaveState::DirtySaving.touch(), SaveState::DirtySaving);
    assert_eq!(SaveState::Idle.finish_save(), SaveState::Idle);
    assert_eq!(SaveState::Saving.finish_save(), SaveState::Idle);
    assert_eq!(SaveState::Dirty.finish_save(), SaveState::Dirty);
    assert_eq!(SaveState::DirtySaving.finish_save(), SaveState::Dirty);
    assert!(!SaveState::Idle.is_dirty() && !SaveState::Idle.is_saving());
    assert!(SaveState::Dirty.is_dirty() && !SaveState::Dirty.is_saving());
    assert!(!SaveState::Saving.is_dirty() && SaveState::Saving.is_saving());
    assert!(SaveState::DirtySaving.is_dirty() && SaveState::DirtySaving.is_saving());
}

#[test]
fn messages_can_be_cloned() {
    let saved = SavedState { events: vec![Event::new("a".to_string(), ymd(2023, 1, 2))] };
    let message = Message::Loaded(Ok(saved));
    match message.clone() {
        Message::Loaded(Ok(copy)) => {
            assert_eq!(titles(&copy.events), vec!["a"]);
            assert_eq!(copy.events[0].date, ymd(2023, 1, 2));
        },
        _ => panic!("a clone is another message"),
    }
    assert!(matches!(Message::Loaded(Err(LoadError::Format)).clone(), Message::Loaded(Err(LoadError::Format))));
    assert!(matches!(Message::Saved(Err(SaveError::Write)).clone(), Message::Saved(Err(SaveError::Write))));
    assert!(matches!(Message::SubmitDate(ymd(2024, 1, 2)).clone(), Message::SubmitDate(date) if date == ymd(2024, 1, 2)));
    assert!(matches!(Message::EventMessage(3, EventMessage::Edit).clone(), Message::EventMessage(3, EventMessage::Edit)));
    assert!(matches!(Message::TitleInputChanged("t".to_string()).clone(), Message::TitleInputChanged(value) if value == "t"));
    assert!(matches!(Command::none(), Command { load: false, focus: None, save: None }));
}
