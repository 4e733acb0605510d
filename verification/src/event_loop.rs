//! What drives the view: the events that reach it, and what is done for each of them.

use vstd::prelude::*;

use crate::navigation::KeyEvent;
use crate::text::{join, joined, texts};

verus! {

/// Seconds between two ticks.
pub const TICK_INTERVAL_SECS: u64 = 5;

/// Milliseconds between two turns of the spinner.
pub const SPINNER_INTERVAL_MILLIS: u64 = 80;

/// Whether input is being read.
#[derive(Clone, Copy, Debug, PartialEq, Eq, Structural)]
pub enum InputState {
    /// It is not.
    Paused,
    /// It is.
    Polling,
}

/// What input brought.
#[derive(Clone, Copy, Debug, PartialEq, Eq, Structural)]
pub enum InputEvent {
    /// A key, or nothing for any other event of the terminal.
    Input(Option<KeyEvent>),
    /// Reading of input has stopped or started.
    State(InputState),
}

/// How far the highlighting of syntax is.
#[derive(Clone, Copy, Debug, PartialEq, Eq, Structural)]
pub enum SyntaxHighlightProgress {
    /// It goes on.
    Progress,
    /// It has come to its end.
    Done,
}

/// What a job of the view has to tell.
#[derive(Clone, Copy, Debug, PartialEq, Eq, Structural)]
pub enum AsyncAppNotification {
    /// Syntax is being highlighted.
    SyntaxHighlighting(SyntaxHighlightProgress),
}

/// What a job on the repository has to tell.
#[derive(Clone, Copy, Debug, PartialEq, Eq, Structural)]
pub enum AsyncGitNotification {
    /// It ended, and nothing changed.
    FinishUnchanged,
    /// The log changed.
    Log,
    /// The tags changed.
    Tags,
    /// The branches changed.
    Branches,
}

/// What a job has to tell.
#[derive(Clone, Copy, Debug, PartialEq, Eq, Structural)]
pub enum AsyncNotification {
    /// A job of the view.
    App(AsyncAppNotification),
    /// A job on the repository.
    Git(AsyncGitNotification),
}

/// An event in the queue.
#[derive(Clone, Copy, Debug, PartialEq, Eq, Structural)]
pub enum QueueEvent {
    /// Time has passed.
    Tick,
    /// Something may have changed.
    Notify,
    /// The spinner has to turn.
    SpinnerUpdate,
    /// A job has something to tell.
    AsyncEvent(AsyncNotification),
    /// Input has come.
    InputEvent(InputEvent),
}

/// What tells that the repository may have changed.
#[derive(Clone, Copy, Debug, PartialEq, Eq, Structural)]
pub enum Updater {
    /// A clock.
    Ticker,
    /// A watcher of its files.
    NotifyWatcher,
}

/// Where an event comes from.
#[derive(Clone, Copy, Debug, PartialEq, Eq, Structural)]
pub enum EventSource {
    /// Input.
    Input,
    /// A job on the repository.
    Git,
    /// A job of the view.
    App,
    /// The clock.
    Ticker,
    /// The watcher of files.
    Notify,
    /// The clock of the spinner.
    Spinner,
}

/// What came from a source.
#[derive(Clone, Copy, Debug, PartialEq, Eq, Structural)]
pub enum Received {
    /// Input.
    Input(InputEvent),
    /// From a job on the repository.
    Git(AsyncGitNotification),
    /// From a job of the view.
    App(AsyncAppNotification),
    /// From the clock.
    Ticker,
    /// From the watcher of files.
    Notify,
    /// From the clock of the spinner.
    Spinner,
}

/// Why there is no next event.
#[derive(Clone, Copy, Debug, PartialEq, Eq, Structural)]
pub enum EventError {
    /// There is no such source.
    UnknownSource,
    /// Nothing can come from the source any more.
    Disconnected,
}

impl EventError {
    /// The error in words.
    pub fn message(&self) -> (r: String)
        ensures
            r@ == (match *self {
                EventError::UnknownSource => "unknown select source"@,
                EventError::Disconnected => "receiving on an empty and disconnected channel"@,
            }),
    {
        match self {
            EventError::UnknownSource => "unknown select source".to_string(),
            EventError::Disconnected => {
                "receiving on an empty and disconnected channel".to_string()
            },
        }
    }
}

/// The sources, in the order in which they are listened to.
pub open spec fn sources() -> Seq<EventSource> {
    seq![
        EventSource::Input,
        EventSource::Git,
        EventSource::App,
        EventSource::Ticker,
        EventSource::Notify,
        EventSource::Spinner,
    ]
}

/// The event for what came from a source.
pub open spec fn event_of(received: Received) -> QueueEvent {
    match received {
        Received::Input(ev) => QueueEvent::InputEvent(ev),
        Received::Git(ev) => QueueEvent::AsyncEvent(AsyncNotification::Git(ev)),
        Received::App(ev) => QueueEvent::AsyncEvent(AsyncNotification::App(ev)),
        Received::Ticker => QueueEvent::Notify,
        Received::Notify => QueueEvent::Notify,
        Received::Spinner => QueueEvent::SpinnerUpdate,
    }
}

/// The source that stands at `index` in the order in which the sources are listened to.
pub fn select_source(index: usize) -> (r: Result<EventSource, EventError>)
    ensures
        r == (if index < sources().len() {
            Ok::<EventSource, EventError>(sources()[index as int])
        } else {
            Err::<EventSource, EventError>(EventError::UnknownSource)
        }),
{
    match index {
        0 => Ok(EventSource::Input),
        1 => Ok(EventSource::Git),
        2 => Ok(EventSource::App),
        3 => Ok(EventSource::Ticker),
        4 => Ok(EventSource::Notify),
        5 => Ok(EventSource::Spinner),
        _ => Err(EventError::UnknownSource),
    }
}

/// The event for what came from a source, if anything did.
pub fn select_event(received: Option<Received>) -> (r: Result<QueueEvent, EventError>)
    ensures
        r == (match received {
            Some(received) => Ok::<QueueEvent, EventError>(event_of(received)),
            None => Err::<QueueEvent, EventError>(EventError::Disconnected),
        }),
{
    match received {
        Some(Received::Input(ev)) => Ok(QueueEvent::InputEvent(ev)),
        Some(Received::Git(ev)) => Ok(QueueEvent::AsyncEvent(AsyncNotification::Git(ev))),
        Some(Received::App(ev)) => Ok(QueueEvent::AsyncEvent(AsyncNotification::App(ev))),
        Some(Received::Ticker) => Ok(QueueEvent::Notify),
        Some(Received::Notify) => Ok(QueueEvent::Notify),
        Some(Received::Spinner) => Ok(QueueEvent::SpinnerUpdate),
        None => Err(EventError::Disconnected),
    }
}

/// What the loop does next.
#[derive(Clone, Copy, Debug, PartialEq, Eq, Structural)]
pub enum LoopAction {
    /// Wait for an event.
    Select,
    /// Turn the spinner.
    TurnSpinner,
    /// Hand input to the view. The cursor is hidden first where reading of input has started:
    /// another program may have shown it.
    Input {
        /// The input.
        event: InputEvent,
        /// Whether the cursor is hidden first.
        hide_cursor: bool,
    },
    /// Bring the view up to date.
    Update,
    /// Tell the view what a job has to tell.
    UpdateAsync(AsyncNotification),
    /// Draw the view.
    Draw,
    /// Let the spinner show whether work is pending.
    SetSpinner(bool),
    /// Draw the spinner.
    DrawSpinner,
    /// End.
    Finish,
}

/// How far the loop is with an event.
#[derive(Clone, Copy, Debug, PartialEq, Eq, Structural)]
pub enum Round {
    /// It waits for one.
    Waiting,
    /// The spinner is turning.
    Turning,
    /// The spinner that has turned is being drawn.
    Turned,
    /// The view handles the event.
    Handling,
    /// The view is being drawn.
    Drawing,
    /// The spinner is being set.
    Setting,
    /// The spinner is being drawn, which ends the round.
    Closing,
    /// The loop has ended.
    Ended,
}

/// What is done for an event, and how far the loop is then. A job that changed nothing has the view
/// drawn, and nothing more.
pub open spec fn action_for(event: QueueEvent) -> (Round, LoopAction) {
    match event {
        QueueEvent::SpinnerUpdate => (Round::Turning, LoopAction::TurnSpinner),
        QueueEvent::InputEvent(event) => (
            Round::Handling,
            LoopAction::Input {
                event,
                hide_cursor: event == InputEvent::State(InputState::Polling),
            },
        ),
        QueueEvent::Tick => (Round::Handling, LoopAction::Update),
        QueueEvent::Notify => (Round::Handling, LoopAction::Update),
        QueueEvent::AsyncEvent(ev) => if ev == AsyncNotification::Git(
            AsyncGitNotification::FinishUnchanged,
        ) {
            (Round::Drawing, LoopAction::Draw)
        } else {
            (Round::Handling, LoopAction::UpdateAsync(ev))
        },
    }
}

/// What follows when what the loop asked for has been done.
pub open spec fn action_after(round: Round, work_pending: bool, is_quit: bool) -> (
    Round,
    LoopAction,
) {
    match round {
        Round::Waiting => (Round::Waiting, LoopAction::Select),
        Round::Turning => (Round::Turned, LoopAction::DrawSpinner),
        Round::Turned => (Round::Waiting, LoopAction::Select),
        Round::Handling => (Round::Drawing, LoopAction::Draw),
        Round::Drawing => (Round::Setting, LoopAction::SetSpinner(work_pending)),
        Round::Setting => (Round::Closing, LoopAction::DrawSpinner),
        Round::Closing => if is_quit {
            (Round::Ended, LoopAction::Finish)
        } else {
            (Round::Waiting, LoopAction::Select)
        },
        Round::Ended => (Round::Ended, LoopAction::Finish),
    }
}

/// The loop that handles events.
#[derive(Clone, Copy, Debug, PartialEq, Eq, Structural)]
pub struct EventLoop {
    /// How far the loop is.
    pub round: Round,
}

impl EventLoop {
    /// Begins the loop. First the view is brought up to date.
    pub fn begin() -> (r: (EventLoop, LoopAction))
        ensures
            (r.0.round, r.1) == action_for(QueueEvent::Notify),
            r.1 is Update,
    {
        let mut event_loop = EventLoop { round: Round::Waiting };
        let action = event_loop.handle(QueueEvent::Notify);
        (event_loop, action)
    }

    /// Takes in an event.
    pub fn handle(&mut self, event: QueueEvent) -> (r: LoopAction)
        ensures
            (final(self).round, r) == action_for(event),
            event matches QueueEvent::InputEvent(input) ==> r == (LoopAction::Input {
                event: input,
                hide_cursor: input == InputEvent::State(InputState::Polling),
            }),
            event is Tick || event is Notify ==> r is Update,
            event is SpinnerUpdate ==> r is TurnSpinner,
            event matches QueueEvent::AsyncEvent(ev) ==> r == if ev == AsyncNotification::Git(
                AsyncGitNotification::FinishUnchanged,
            ) {
                LoopAction::Draw
            } else {
                LoopAction::UpdateAsync(ev)
            },
    {
        let (round, action) = match event {
            QueueEvent::SpinnerUpdate => (Round::Turning, LoopAction::TurnSpinner),
            QueueEvent::InputEvent(event) => {
                let hide_cursor = matches!(event, InputEvent::State(InputState::Polling));
                (Round::Handling, LoopAction::Input { event, hide_cursor })
            },
            QueueEvent::Tick | QueueEvent::Notify => (Round::Handling, LoopAction::Update),
            QueueEvent::AsyncEvent(AsyncNotification::Git(
                AsyncGitNotification::FinishUnchanged,
            )) => (Round::Drawing, LoopAction::Draw),
            QueueEvent::AsyncEvent(ev) => (Round::Handling, LoopAction::UpdateAsync(ev)),
        };
        self.round = round;
        action
    }

    /// Takes in that what the loop asked for has been done, whether work is pending, and whether
    /// the view wants to end.
    pub fn done(&mut self, work_pending: bool, is_quit: bool) -> (r: LoopAction)
        ensures
            (final(self).round, r) == action_after(old(self).round, work_pending, is_quit),
            r is Finish <==> old(self).round is Ended || (old(self).round is Closing && is_quit),
            r matches LoopAction::SetSpinner(pending) ==> pending == work_pending,
    {
        let (round, action) = match self.round {
            Round::Waiting => (Round::Waiting, LoopAction::Select),
            Round::Turning => (Round::Turned, LoopAction::DrawSpinner),
            Round::Turned => (Round::Waiting, LoopAction::Select),
            Round::Handling => (Round::Drawing, LoopAction::Draw),
            Round::Drawing => (Round::Setting, LoopAction::SetSpinner(work_pending)),
            Round::Setting => (Round::Closing, LoopAction::DrawSpinner),
            Round::Closing => if is_quit {
                (Round::Ended, LoopAction::Finish)
            } else {
                (Round::Waiting, LoopAction::Select)
            },
            Round::Ended => (Round::Ended, LoopAction::Finish),
        };
        self.round = round;
        action
    }
}

/// A turn of the spinner has only the spinner drawn, and never ends the loop.
pub proof fn law_spinner_round(pending: bool, quit: bool)
    ensures
        ({
            let (turning, first) = action_for(QueueEvent::SpinnerUpdate);
            let (turned, second) = action_after(turning, pending, quit);
            let (waiting, third) = action_after(turned, pending, quit);
            &&& first is TurnSpinner
            &&& second is DrawSpinner
            &&& third is Select
            &&& waiting is Waiting
        }),
{
}

/// Every other event has the view drawn, then the spinner, and only then the loop ends or waits.
pub proof fn law_event_round(event: QueueEvent, pending: bool, quit: bool)
    requires
        event != QueueEvent::SpinnerUpdate,
    ensures
        ({
            let (start, first) = action_for(event);
            let drawing = if start is Drawing {
                (start, first)
            } else {
                action_after(start, pending, quit)
            };
            let setting = action_after(drawing.0, pending, quit);
            let closing = action_after(setting.0, pending, quit);
            let last = action_after(closing.0, pending, quit);
            &&& start is Handling || start is Drawing
            &&& drawing == (Round::Drawing, LoopAction::Draw)
            &&& setting == (Round::Setting, LoopAction::SetSpinner(pending))
            &&& closing == (Round::Closing, LoopAction::DrawSpinner)
            &&& last.1 == if quit {
                LoopAction::Finish
            } else {
                LoopAction::Select
            }
            &&& last.0 == if quit {
                Round::Ended
            } else {
                Round::Waiting
            }
        }),
{
}

/// What tells that the repository may have changed.
pub fn updater(notify_watcher: bool) -> (r: Updater)
    ensures
        r == (if notify_watcher {
            Updater::NotifyWatcher
        } else {
            Updater::Ticker
        }),
{
    if notify_watcher {
        Updater::NotifyWatcher
    } else {
        Updater::Ticker
    }
}

/// How the view ended.
#[derive(Clone, Debug)]
pub enum QuitState {
    /// It has not ended.
    Open,
    /// It was closed.
    Close,
    /// It goes on with the submodule at a path.
    OpenSubmodule(String),
}

/// The path of the repository to go on with, if any.
pub fn next_repository(quit_state: QuitState) -> (r: Option<String>)
    ensures
        r is Some <==> quit_state is OpenSubmodule,
        r matches Some(path) ==> path == quit_state->OpenSubmodule_0,
{
    match quit_state {
        QuitState::OpenSubmodule(path) => Some(path),
        _ => None,
    }
}

/// Whether a repository can be used, given the error of opening it.
pub fn valid_path(error: &Option<String>) -> (r: bool)
    ensures
        r == (error is None),
{
    error.is_none()
}

/// Whether the parts of a path begin with those of `home`.
pub open spec fn is_below(parts: Seq<Seq<char>>, home: Seq<Seq<char>>) -> bool {
    home.len() <= parts.len() && parts.take(home.len() as int) == home
}

/// A path as it is shown: `~` stands for the home directory.
pub open spec fn shown_path(
    path: Seq<char>,
    parts: Seq<Seq<char>>,
    home: Seq<Seq<char>>,
    separator: Seq<char>,
) -> Seq<char> {
    if is_below(parts, home) {
        seq!['~'] + separator + joined(parts.skip(home.len() as int), separator)
    } else {
        path
    }
}

/// The title of the window for the repository at `path`, which has the parts `parts`.
pub fn window_title(
    path: &String,
    parts: &Vec<String>,
    home: &Vec<String>,
    separator: &str,
) -> (r: String)
    ensures
        r@ == "gitui ("@ + shown_path(
            path@,
            texts(parts@),
            texts(home@),
            separator@,
        ) + ")"@,
{
    let ghost all = texts(parts@);
    let ghost base = texts(home@);
    let mut i: usize = 0;
    while i < home.len() && i < parts.len() && parts[i] == home[i]
        invariant
            i <= home@.len(),
            i <= parts@.len(),
            all == texts(parts@),
            base == texts(home@),
            forall|k: int| 0 <= k < i ==> #[trigger] all[k] == base[k],
        decreases home@.len() - i,
    {
        i = i + 1;
    }
    let mut title = "gitui (".to_string();
    if i == home.len() {
        assert(all.take(i as int) =~= base);
        let rest = rest_of(parts, i);
        assert(texts(rest@) =~= all.skip(i as int));
        title.append("~");
        title.append(separator);
        title.append(join(&rest, separator).as_str());
        proof {
            reveal_strlit("~");
            assert("~"@ =~= seq!['~']);
        }
    } else {
        proof {
            if is_below(all, base) {
                assert(all.take(base.len() as int)[i as int] == base[i as int]);
            }
        }
        title.append(path.as_str());
    }
    title.append(")");
    assert(title@ =~= "gitui ("@ + shown_path(path@, all, base, separator@) + ")"@);
    title
}

/// The strings from `start` on.
fn rest_of(strings: &Vec<String>, start: usize) -> (r: Vec<String>)
    requires
        start <= strings@.len(),
    ensures
        texts(r@) == texts(strings@).skip(start as int),
{
    let mut rest: Vec<String> = Vec::new();
    let mut i: usize = start;
    while i < strings.len()
        invariant
            start <= i <= strings@.len(),
            rest@.len() == i - start,
            forall|k: int| 0 <= k < rest@.len() ==> (#[trigger] rest@[k])@ == strings@[start + k]@,
        decreases strings@.len() - i,
    {
        rest.push(strings[i].clone());
        i = i + 1;
    }
    assert(texts(rest@) =~= texts(strings@).skip(start as int));
    rest
}

/// Every input event is handed to the view, as it came, before anything else is done for it, and
/// the cursor is hidden first exactly where reading of input has started. Other input asks for
/// another action.
pub proof fn law_input_reaches_the_view(input: InputEvent, other: InputEvent)
    ensures
        ({
            let first = action_for(QueueEvent::InputEvent(input)).1;
            let hidden = input matches InputEvent::State(InputState::Polling);
            &&& first is Input
            &&& first->event == input
            &&& first->hide_cursor <==> hidden
            &&& action_for(QueueEvent::InputEvent(input)).0 is Handling
            &&& input != other ==> first != action_for(QueueEvent::InputEvent(other)).1
        }),
{
}

/// Every tick and every notification has the view brought up to date before it is drawn.
pub proof fn law_ticks_update_the_view(pending: bool, quit: bool)
    ensures
        action_for(QueueEvent::Tick).1 is Update,
        action_for(QueueEvent::Notify).1 is Update,
        action_after(action_for(QueueEvent::Tick).0, pending, quit).1 is Draw,
        action_after(action_for(QueueEvent::Notify).0, pending, quit).1 is Draw,
{
}

/// The view is told what a job has to tell, and nothing else, except that nothing has changed: that
/// only has it drawn.
pub proof fn law_jobs_reach_the_view(told: AsyncNotification)
    ensures
        ({
            let (round, first) = action_for(QueueEvent::AsyncEvent(told));
            let unchanged = told == AsyncNotification::Git(AsyncGitNotification::FinishUnchanged);
            &&& first is UpdateAsync <==> !unchanged
            &&& first is UpdateAsync ==> first->UpdateAsync_0 == told && round is Handling
            &&& unchanged ==> first is Draw && round is Drawing
        }),
{
}

/// Input, and what jobs have to tell, come out of the queue as they went in. The clock and the
/// watcher of files both tell that something may have changed.
pub proof fn law_received_is_queued(
    input: InputEvent,
    git: AsyncGitNotification,
    app: AsyncAppNotification,
)
    ensures
        event_of(Received::Input(input)) is InputEvent,
        event_of(Received::Input(input))->InputEvent_0 == input,
        event_of(Received::Git(git)) is AsyncEvent,
        event_of(Received::Git(git))->AsyncEvent_0 is Git,
        event_of(Received::Git(git))->AsyncEvent_0->Git_0 == git,
        event_of(Received::App(app)) is AsyncEvent,
        event_of(Received::App(app))->AsyncEvent_0 is App,
        event_of(Received::App(app))->AsyncEvent_0->App_0 == app,
        event_of(Received::Ticker) is Notify,
        event_of(Received::Notify) is Notify,
        event_of(Received::Spinner) is SpinnerUpdate,
{
}

/// Every source is listened to, at one place of the order.
pub proof fn law_every_source_once(source: EventSource)
    ensures
        sources().contains(source),
        sources().no_duplicates(),
        sources().len() == 6,
        sources()[0] is Input,
        sources()[1] is Git,
        sources()[2] is App,
        sources()[3] is Ticker,
        sources()[4] is Notify,
        sources()[5] is Spinner,
{
    let i: int = match source {
        EventSource::Input => 0,
        EventSource::Git => 1,
        EventSource::App => 2,
        EventSource::Ticker => 3,
        EventSource::Notify => 4,
        EventSource::Spinner => 5,
    };
    assert(sources()[i] == source);
}

/// A path that lies below the home directory is shown as `~`, a separator and what is left of it.
/// Any other path is shown as it is.
pub proof fn law_home_is_abbreviated(
    path: Seq<char>,
    home: Seq<Seq<char>>,
    rest: Seq<Seq<char>>,
    parts: Seq<Seq<char>>,
    separator: Seq<char>,
)
    ensures
        shown_path(path, home + rest, home, separator) == seq!['~'] + separator + joined(
            rest,
            separator,
        ),
        parts.len() < home.len() ==> shown_path(path, parts, home, separator) == path,
        (exists|i: int| 0 <= i < parts.len() && i < home.len() && #[trigger] parts[i] != home[i])
            ==> shown_path(path, parts, home, separator) == path,
{
    assert((home + rest).take(home.len() as int) =~= home);
    assert((home + rest).skip(home.len() as int) =~= rest);
    if exists|i: int| 0 <= i < parts.len() && i < home.len() && #[trigger] parts[i] != home[i] {
        let i = choose|i: int|
            0 <= i < parts.len() && i < home.len() && #[trigger] parts[i] != home[i];
        if is_below(parts, home) {
            assert(parts.take(home.len() as int)[i] == home[i]);
        }
    }
}

/// A loop that waits goes on waiting until an event comes, and one that has ended stays so.
pub proof fn law_waiting_and_ended(pending: bool, quit: bool)
    ensures
        action_after(Round::Waiting, pending, quit) == (Round::Waiting, LoopAction::Select),
        action_after(Round::Ended, pending, quit) == (Round::Ended, LoopAction::Finish),
{
}

/// What comes from a source is told as it came, and nothing else is. A source that is not there,
/// and one from which nothing can come any more, are errors.
pub proof fn law_select(
    index: usize,
    source: Result<EventSource, EventError>,
    received: Option<Received>,
    event: Result<QueueEvent, EventError>,
)
    requires
        call_ensures(select_source, (index,), source),
        call_ensures(select_event, (received,), event),
    ensures
        source is Ok <==> index < 6,
        source is Err ==> source->Err_0 is UnknownSource,
        event is Ok <==> received is Some,
        event is Err ==> event->Err_0 is Disconnected,
        received is Some && received->0 is Input ==> event->Ok_0 == QueueEvent::InputEvent(
            received->0->Input_0,
        ),
{
}

/// A loop begins by bringing the view up to date.
pub proof fn law_begin(r: (EventLoop, LoopAction))
    requires
        call_ensures(EventLoop::begin, (), r),
    ensures
        r.1 is Update,
        r.0.round is Handling,
{
}

/// Whatever the loop was at, it hands input to the view as it came, updates the view on ticks and
/// notifications, tells it what jobs have to tell, and turns the spinner when it is time.
pub proof fn law_events_are_handled(
    before: EventLoop,
    event: QueueEvent,
    after: EventLoop,
    r: LoopAction,
)
    requires
        exists|m: &mut EventLoop|
            *m == before && *final(m) == after && #[trigger] call_ensures(
                EventLoop::handle,
                (m, event),
                r,
            ),
    ensures
        match event {
            QueueEvent::Tick => r is Update,
            QueueEvent::Notify => r is Update,
            QueueEvent::SpinnerUpdate => r is TurnSpinner,
            QueueEvent::InputEvent(input) => {
                &&& r is Input
                &&& r->event == input
                &&& r->hide_cursor <==> input is State && input->State_0 is Polling
            },
            QueueEvent::AsyncEvent(AsyncNotification::App(told)) => r == LoopAction::UpdateAsync(
                AsyncNotification::App(told),
            ),
            QueueEvent::AsyncEvent(AsyncNotification::Git(told)) => if told is FinishUnchanged {
                r is Draw
            } else {
                r == LoopAction::UpdateAsync(AsyncNotification::Git(told))
            },
        },
{
}

/// A round goes on from what was done: the view is drawn when it has handled an event, then the
/// spinner is set to whether work is pending, and drawn. The loop ends only there.
pub proof fn law_rounds_go_on(
    before: EventLoop,
    pending: bool,
    quit: bool,
    after: EventLoop,
    r: LoopAction,
)
    requires
        exists|m: &mut EventLoop|
            *m == before && *final(m) == after && #[trigger] call_ensures(
                EventLoop::done,
                (m, pending, quit),
                r,
            ),
    ensures
        before.round is Handling ==> r is Draw && after.round is Drawing,
        before.round is Drawing ==> r == LoopAction::SetSpinner(pending) && after.round is Setting,
        before.round is Setting ==> r is DrawSpinner && after.round is Closing,
        before.round is Turning ==> r is DrawSpinner && after.round is Turned,
        before.round is Turned ==> r is Select && after.round is Waiting,
        before.round is Closing && !quit ==> r is Select && after.round is Waiting,
        before.round is Closing && quit ==> r is Finish && after.round is Ended,
{
}

/// The title of the window names the program and, in brackets, the path: with `~` for the home
/// directory where the path lies in it.
pub proof fn law_window_title(
    path: &String,
    parts: &Vec<String>,
    home: &Vec<String>,
    separator: &str,
    rest: Seq<Seq<char>>,
    r: String,
)
    requires
        call_ensures(window_title, (path, parts, home, separator), r),
    ensures
        texts(parts@) == texts(home@) + rest ==> r@ == "gitui ("@ + (seq!['~'] + separator@
            + joined(rest, separator@)) + ")"@,
        parts@.len() < home@.len() ==> r@ == "gitui ("@ + path@ + ")"@,
{
    law_home_is_abbreviated(path@, texts(home@), rest, texts(parts@), separator@);
}

} // verus!
