use commitlog::event_loop::{next_repository, select_event, select_source, updater, valid_path};
use commitlog::event_loop::{window_title, EventError, EventLoop, EventSource, QuitState};
use commitlog::event_loop::{AsyncAppNotification, AsyncGitNotification, AsyncNotification};
use commitlog::event_loop::{InputEvent, InputState, LoopAction, QueueEvent, Received};
use commitlog::event_loop::{SyntaxHighlightProgress, Updater};
use commitlog::navigation::{KeyCode, KeyEvent};

#[test]
fn sources_by_index() {
    let expected = [
        EventSource::Input,
        EventSource::Git,
        EventSource::App,
        EventSource::Ticker,
        EventSource::Notify,
        EventSource::Spinner,
    ];
    for (index, source) in expected.iter().enumerate() {
        assert_eq!(select_source(index), Ok(*source));
    }
    assert_eq!(select_source(6), Err(EventError::UnknownSource));
    assert_eq!(EventError::UnknownSource.message(), "unknown select source");
}

#[test]
fn events_by_what_was_received() {
    let key = InputEvent::Input(Some(KeyEvent { code: KeyCode::Char('q'), modifiers: 0 }));
    assert_eq!(select_event(Some(Received::Input(key))), Ok(QueueEvent::InputEvent(key)));
    let git = AsyncGitNotification::Log;
    assert_eq!(
        select_event(Some(Received::Git(git))),
        Ok(QueueEvent::AsyncEvent(AsyncNotification::Git(git)))
    );
    let app = AsyncAppNotification::SyntaxHighlighting(SyntaxHighlightProgress::Done);
    assert_eq!(
        select_event(Some(Received::App(app))),
        Ok(QueueEvent::AsyncEvent(AsyncNotification::App(app)))
    );
    assert_eq!(select_event(Some(Received::Ticker)), Ok(QueueEvent::Notify));
    assert_eq!(select_event(Some(Received::Notify)), Ok(QueueEvent::Notify));
    assert_eq!(select_event(Some(Received::Spinner)), Ok(QueueEvent::SpinnerUpdate));
    assert_eq!(select_event(None), Err(EventError::Disconnected));
    assert_eq!(
        EventError::Disconnected.message(),
        "receiving on an empty and disconnected channel"
    );
}

#[test]
fn the_loop_first_updates_then_draws() {
    let (mut events, action) = EventLoop::begin();
    assert_eq!(action, LoopAction::Update);
    assert_eq!(events.done(true, false), LoopAction::Draw);
    assert_eq!(events.done(true, false), LoopAction::SetSpinner(true));
    assert_eq!(events.done(true, false), LoopAction::DrawSpinner);
    assert_eq!(events.done(true, false), LoopAction::Select);
}

#[test]
fn the_loop_ends_only_after_a_draw() {
    let (mut events, _) = EventLoop::begin();
    assert_eq!(events.done(false, true), LoopAction::Draw);
    assert_eq!(events.done(false, true), LoopAction::SetSpinner(false));
    assert_eq!(events.done(false, true), LoopAction::DrawSpinner);
    assert_eq!(events.done(false, true), LoopAction::Finish);
    assert_eq!(events.done(false, false), LoopAction::Finish);
}

#[test]
fn a_turn_of_the_spinner_draws_nothing_else() {
    let (mut events, _) = EventLoop::begin();
    assert_eq!(events.handle(QueueEvent::SpinnerUpdate), LoopAction::TurnSpinner);
    assert_eq!(events.done(true, true), LoopAction::DrawSpinner);
    assert_eq!(events.done(true, true), LoopAction::Select);
}

#[test]
fn what_is_done_for_events() {
    let (mut events, _) = EventLoop::begin();
    assert_eq!(events.handle(QueueEvent::Tick), LoopAction::Update);
    assert_eq!(events.handle(QueueEvent::Notify), LoopAction::Update);
    let polling = InputEvent::State(InputState::Polling);
    assert_eq!(
        events.handle(QueueEvent::InputEvent(polling)),
        LoopAction::Input { event: polling, hide_cursor: true }
    );
    let paused = InputEvent::State(InputState::Paused);
    assert_eq!(
        events.handle(QueueEvent::InputEvent(paused)),
        LoopAction::Input { event: paused, hide_cursor: false }
    );
    let tags = AsyncNotification::Git(AsyncGitNotification::Tags);
    assert_eq!(events.handle(QueueEvent::AsyncEvent(tags)), LoopAction::UpdateAsync(tags));
    let unchanged = AsyncNotification::Git(AsyncGitNotification::FinishUnchanged);
    assert_eq!(events.handle(QueueEvent::AsyncEvent(unchanged)), LoopAction::Draw);
    assert_eq!(events.done(false, false), LoopAction::SetSpinner(false));
}

#[test]
fn updaters_and_repositories() {
    assert_eq!(updater(true), Updater::NotifyWatcher);
    assert_eq!(updater(false), Updater::Ticker);
    assert_eq!(next_repository(QuitState::OpenSubmodule("sub".into())), Some("sub".to_string()));
    assert_eq!(next_repository(QuitState::Close), None);
    assert_eq!(next_repository(QuitState::Open), None);
    assert!(valid_path(&None));
    assert!(!valid_path(&Some("not a repository".to_string())));
}

fn parts(path: &[&str]) -> Vec<String> {
    path.iter().map(|part| part.to_string()).collect()
}

#[test]
fn titles_shorten_the_home_directory() {
    let home = parts(&["/", "home", "me"]);
    let title = |path: &str, split: &[&str]| {
        window_title(&path.to_string(), &parts(split), &home, "/")
    };
    assert_eq!(title("/home/me/src/x", &["/", "home", "me", "src", "x"]), "gitui (~/src/x)");
    assert_eq!(title("/home/me", &["/", "home", "me"]), "gitui (~/)");
    assert_eq!(title("/home/mex", &["/", "home", "mex"]), "gitui (/home/mex)");
    assert_eq!(title("/srv", &["/", "srv"]), "gitui (/srv)");
}
