//! A reconciliation run, one step at a time.
//!
//! The run decides; its caller acts. Each step takes the [`Event`] with which
//! the caller answers the last [`Action`], and gives the next action. What a
//! run does is fixed by [`begin`] and [`next`] over plain values.

use crate::cli::Command;
use crate::config::{Data, DataView};
use crate::table::Table;
use crate::traits::OperatingSystem;
use vstd::prelude::*;

verus! {

/// Why a run ended without success.
#[derive(Debug, Clone, Copy, PartialEq, Eq, Structural)]
pub enum Failure {
    /// The description could not be read.
    ConfigUnreadable,
    /// The description could not be understood.
    ConfigInvalid,
    /// Neither the system nor the users were selected.
    NothingSelected,
    /// The installation command reported failure.
    InstallFailed,
    /// The command that creates a user reported failure.
    UserCreateFailed,
    /// The command that updates a user reported failure.
    UserUpdateFailed,
    /// A command could not be started at all.
    CommandNotStarted,
    /// The event does not answer the action that was issued last.
    UnexpectedEvent,
}

impl Failure {
    /// The exit code of a process whose run ended with this failure.
    pub fn exit_code(&self) -> (code: i32)
        ensures
            code == 1,
    {
        1
    }
}

/// What the caller reports back.
pub enum Event {
    /// The text of the description, or nothing where it could not be read.
    ConfigRead(Option<String>),
    /// The description, or the reason why the text is not one.
    ConfigParsed(Result<Data, String>),
    /// The command ran to its end; the flag says whether it reported success.
    Exited(bool),
    /// The command could not be started, for the reason given.
    NotStarted(String),
    /// The links were reported.
    Reported,
}

/// An [`Event`] as plain values.
pub enum EventView {
    ConfigRead(Option<Seq<char>>),
    ConfigParsed(Result<DataView, Seq<char>>),
    Exited(bool),
    NotStarted(Seq<char>),
    Reported,
}

impl View for Event {
    type V = EventView;

    open spec fn view(&self) -> EventView {
        match self {
            Event::ConfigRead(Some(text)) => EventView::ConfigRead(Some(text@)),
            Event::ConfigRead(None) => EventView::ConfigRead(None),
            Event::ConfigParsed(Ok(data)) => EventView::ConfigParsed(Ok(data@)),
            Event::ConfigParsed(Err(cause)) => EventView::ConfigParsed(Err(cause@)),
            Event::Exited(success) => EventView::Exited(*success),
            Event::NotStarted(reason) => EventView::NotStarted(reason@),
            Event::Reported => EventView::Reported,
        }
    }
}

/// What the caller is to do next.
pub enum Action {
    /// Read the description at this path.
    ReadConfig(String),
    /// Parse this text as a description.
    ParseConfig(String),
    /// Run this command line and wait for it.
    Run(String),
    /// Report these links as the ones intended; none is created or removed.
    ReportLinks(Table<String>),
    /// Stop: all that was selected is done.
    Succeed,
    /// Stop: the run failed, with this message for the user.
    Fail { failure: Failure, message: String },
}

/// An [`Action`] as plain values.
pub enum ActionView {
    ReadConfig(Seq<char>),
    ParseConfig(Seq<char>),
    Run(Seq<char>),
    ReportLinks(Seq<(Seq<char>, Seq<char>)>),
    Succeed,
    Fail { failure: Failure, message: Seq<char> },
}

impl View for Action {
    type V = ActionView;

    open spec fn view(&self) -> ActionView {
        match self {
            Action::ReadConfig(path) => ActionView::ReadConfig(path@),
            Action::ParseConfig(text) => ActionView::ParseConfig(text@),
            Action::Run(command) => ActionView::Run(command@),
            Action::ReportLinks(links) => ActionView::ReportLinks(links.deep_view()),
            Action::Succeed => ActionView::Succeed,
            Action::Fail { failure, message } => ActionView::Fail {
                failure: *failure,
                message: message@,
            },
        }
    }
}

impl Action {
    /// The exit code with which the process ends after this action, where the
    /// action ends the run: zero after success, the failure's code otherwise.
    pub fn exit_code(&self) -> (code: Option<i32>)
        ensures
            code == match self@ {
                ActionView::Succeed => Some(0i32),
                ActionView::Fail { .. } => Some(1i32),
                _ => None,
            },
    {
        match self {
            Action::Succeed => Some(0),
            Action::Fail { failure, .. } => Some(failure.exit_code()),
            _ => None,
        }
    }
}

/// Where a run stands: what the last action was.
#[derive(Debug, Clone, Copy, PartialEq, Eq, Structural)]
pub enum Stage {
    /// The description is being read.
    Reading,
    /// The description is being parsed.
    Parsing,
    /// The packages are being installed.
    Installing,
    /// The user at this place is being looked up.
    Checking { user: usize },
    /// The user at this place is being created, or updated where it existed.
    Applying { user: usize, existed: bool },
    /// The links of the user at this place are being reported.
    Reporting { user: usize },
    /// The run is over.
    Finished,
}

/// A run as plain values: what was asked, the description once it is known,
/// and where the run stands.
pub struct Run<O> {
    pub os: O,
    pub config_path: Seq<char>,
    pub system: bool,
    pub home: bool,
    pub data: DataView,
    pub stage: Stage,
}

impl<O> Run<O> {
    /// Whether the users can be counted by the machine and the stage points
    /// at one of them.
    pub open spec fn wf(self) -> bool {
        &&& self.data.users.len() <= usize::MAX
        &&& match self.stage {
            Stage::Checking { user } => user < self.data.users.len(),
            Stage::Applying { user, .. } => user < self.data.users.len(),
            Stage::Reporting { user } => user < self.data.users.len(),
            _ => true,
        }
    }

    /// The run, moved to `stage`.
    pub open spec fn at(self, stage: Stage) -> Self {
        Run { stage, ..self }
    }

    /// The run, ended with a failure.
    pub open spec fn failed(self, failure: Failure, message: Seq<char>) -> (Self, ActionView) {
        (self.at(Stage::Finished), ActionView::Fail { failure, message })
    }
}

/// The message for a description that could not be read.
pub open spec fn unreadable_message(config_path: Seq<char>) -> Seq<char> {
    "Could not read file `"@ + config_path + "`"@
}

/// The message for a description that could not be understood.
pub open spec fn invalid_message(config_path: Seq<char>, cause: Seq<char>) -> Seq<char> {
    "Unable to load data from `"@ + config_path + "` "@ + cause
}

/// The message for a user that could not be created.
pub open spec fn create_failed_message(user: Seq<char>) -> Seq<char> {
    "Could not create user "@ + user
}

/// The message for a user that could not be updated.
pub open spec fn update_failed_message(user: Seq<char>) -> Seq<char> {
    "Could not update user "@ + user
}

/// How a run starts: by asking for the description.
pub open spec fn begin<O: OperatingSystem>(
    os: O,
    config_path: Seq<char>,
    system: bool,
    home: bool,
) -> (Run<O>, ActionView) {
    (
        Run {
            os,
            config_path,
            system,
            home,
            data: DataView { packages: Seq::empty(), users: Seq::empty() },
            stage: Stage::Reading,
        },
        ActionView::ReadConfig(config_path),
    )
}

/// The system phase: one installation of all the packages of the description.
pub open spec fn system_phase<O: OperatingSystem>(run: Run<O>) -> (Run<O>, ActionView) {
    (run.at(Stage::Installing), ActionView::Run(run.os.install_command(run.data.packages)))
}

/// The home phase from the user at place `from` on: the user is looked up, or
/// the run has succeeded where no user is left.
pub open spec fn home_phase<O: OperatingSystem>(run: Run<O>, from: int) -> (Run<O>, ActionView) {
    if 0 <= from < run.data.users.len() {
        (
            run.at(Stage::Checking { user: from as usize }),
            ActionView::Run(run.os.user_exists_command(run.data.users[from].0)),
        )
    } else {
        (run.at(Stage::Finished), ActionView::Succeed)
    }
}

/// What a run does when `event` comes in: where it stands afterwards and the
/// action it asks for.
pub open spec fn next<O: OperatingSystem>(run: Run<O>, event: EventView) -> (Run<O>, ActionView) {
    let users = run.data.users;
    match (run.stage, event) {
        (Stage::Reading, EventView::ConfigRead(Some(text))) => (
            run.at(Stage::Parsing),
            ActionView::ParseConfig(text),
        ),
        (Stage::Reading, EventView::ConfigRead(None)) => run.failed(
            Failure::ConfigUnreadable,
            unreadable_message(run.config_path),
        ),
        (Stage::Parsing, EventView::ConfigParsed(Ok(data))) => {
            let run = Run { data, ..run };
            if !run.system && !run.home {
                run.failed(
                    Failure::NothingSelected,
                    "Neither system sync nor home sync are selected"@,
                )
            } else if run.system {
                system_phase(run)
            } else {
                home_phase(run, 0)
            }
        },
        (Stage::Parsing, EventView::ConfigParsed(Err(cause))) => run.failed(
            Failure::ConfigInvalid,
            invalid_message(run.config_path, cause),
        ),
        (Stage::Installing, EventView::Exited(true)) => if run.home {
            home_phase(run, 0)
        } else {
            (run.at(Stage::Finished), ActionView::Succeed)
        },
        (Stage::Installing, EventView::Exited(false)) => run.failed(
            Failure::InstallFailed,
            "Could not install system packages"@,
        ),
        (Stage::Checking { user }, EventView::Exited(existed)) if user < users.len() => (
            run.at(Stage::Applying { user, existed }),
            ActionView::Run(
                if existed {
                    run.os.user_update_command(
                        users[user as int].0,
                        users[user as int].1.groups,
                        users[user as int].1.default_shell,
                    )
                } else {
                    run.os.user_create_command(
                        users[user as int].0,
                        users[user as int].1.groups,
                        users[user as int].1.default_shell,
                    )
                },
            ),
        ),
        (Stage::Applying { user, existed }, EventView::Exited(true)) if user < users.len() => (
            run.at(Stage::Reporting { user }),
            ActionView::ReportLinks(users[user as int].1.links),
        ),
        (Stage::Applying { user, existed }, EventView::Exited(false)) if user < users.len() => {
            if existed {
                run.failed(Failure::UserUpdateFailed, update_failed_message(users[user as int].0))
            } else {
                run.failed(Failure::UserCreateFailed, create_failed_message(users[user as int].0))
            }
        },
        (Stage::Installing, EventView::NotStarted(reason)) => run.failed(
            Failure::CommandNotStarted,
            reason,
        ),
        (Stage::Checking { .. }, EventView::NotStarted(reason)) => run.failed(
            Failure::CommandNotStarted,
            reason,
        ),
        (Stage::Applying { .. }, EventView::NotStarted(reason)) => run.failed(
            Failure::CommandNotStarted,
            reason,
        ),
        (Stage::Reporting { user }, EventView::Reported) => home_phase(run, user + 1),
        _ => run.failed(Failure::UnexpectedEvent, "Unexpected event"@),
    }
}

/// The actions that a run asks for while `events` come in, one for each
/// event.
pub open spec fn actions<O: OperatingSystem>(run: Run<O>, events: Seq<EventView>) -> Seq<
    ActionView,
>
    decreases events.len(),
{
    if events.len() == 0 {
        Seq::empty()
    } else {
        seq![next(run, events[0]).1] + actions(next(run, events[0]).0, events.drop_first())
    }
}

/// How many actions a run can still ask for, once the description is known.
pub open spec fn actions_left<O>(run: Run<O>) -> int {
    let users = run.data.users.len() as int;
    match run.stage {
        Stage::Reading => 3 * users + 4,
        Stage::Parsing => 3 * users + 3,
        Stage::Installing => 3 * users + 2,
        Stage::Checking { user } => 3 * (users - user) + 1,
        Stage::Applying { user, .. } => 3 * (users - user),
        Stage::Reporting { user } => 3 * (users - user) - 1,
        Stage::Finished => 0,
    }
}

/// A step leaves a well-formed run well formed, whatever the event, as long
/// as a description that comes in has countable users.
pub proof fn lemma_next_keeps_wf<O: OperatingSystem>(run: Run<O>, event: EventView)
    requires
        run.wf(),
        event matches EventView::ConfigParsed(Ok(data)) ==> data.users.len() <= usize::MAX,
    ensures
        next(run, event).0.wf(),
{
}

/// A step changes nothing of a run but its stage and, when a description
/// comes in, the description.
pub proof fn lemma_next_keeps_request<O: OperatingSystem>(run: Run<O>, event: EventView)
    ensures
        next(run, event).0.os == run.os,
        next(run, event).0.config_path == run.config_path,
        next(run, event).0.system == run.system,
        next(run, event).0.home == run.home,
        !(run.stage == Stage::Parsing && event is ConfigParsed) ==> next(run, event).0.data
            == run.data,
{
}

/// Once the description is known, every step brings the run nearer to its
/// end: a run over `n` users asks for at most `3 * n + 2` further actions.
pub proof fn lemma_next_makes_progress<O: OperatingSystem>(run: Run<O>, event: EventView)
    requires
        run.wf(),
        run.stage != Stage::Reading,
        run.stage != Stage::Parsing,
        run.stage != Stage::Finished,
    ensures
        0 <= actions_left(next(run, event).0) < actions_left(run),
        actions_left(run) <= 3 * run.data.users.len() + 2,
{
}

/// A run that is over stays over: whatever comes in, it asks for nothing
/// but to stop.
pub proof fn lemma_finished_is_final<O: OperatingSystem>(run: Run<O>, events: Seq<EventView>)
    requires
        run.stage == Stage::Finished,
    ensures
        forall|k: int|
            0 <= k < actions(run, events).len() ==> #[trigger] actions(run, events)[k]
                is Fail,
        actions(run, events).len() == events.len(),
    decreases events.len(),
{
    if events.len() > 0 {
        lemma_finished_is_final(next(run, events[0]).0, events.drop_first());
    }
}

/// A step ends the run exactly when it asks to stop.
pub proof fn lemma_stops_when_finished<O: OperatingSystem>(run: Run<O>, event: EventView)
    ensures
        next(run, event).0.stage == Stage::Finished <==> (next(run, event).1 is Succeed || next(
            run,
            event,
        ).1 is Fail),
{
}

/// Whether a user exists decides between the two commands: a user that the
/// lookup found is updated and never created, one that it did not find is
/// created and never updated.
pub proof fn lemma_lookup_decides<O: OperatingSystem>(run: Run<O>, user: usize, existed: bool)
    requires
        run.wf(),
        run.stage == (Stage::Checking { user }),
    ensures
        next(run, EventView::Exited(existed)).0.stage == (Stage::Applying { user, existed }),
        existed ==> next(run, EventView::Exited(existed)).1 == ActionView::Run(
            run.os.user_update_command(
                run.data.users[user as int].0,
                run.data.users[user as int].1.groups,
                run.data.users[user as int].1.default_shell,
            ),
        ),
        !existed ==> next(run, EventView::Exited(existed)).1 == ActionView::Run(
            run.os.user_create_command(
                run.data.users[user as int].0,
                run.data.users[user as int].1.groups,
                run.data.users[user as int].1.default_shell,
            ),
        ),
{
}

/// With neither the system nor the users selected, a run ends as soon as the
/// description is known: it fails for want of a selection and asks for no
/// command, then or later.
pub proof fn lemma_nothing_selected<O: OperatingSystem>(
    run: Run<O>,
    data: DataView,
    later: Seq<EventView>,
)
    requires
        run.stage == Stage::Parsing,
        !run.system,
        !run.home,
    ensures
        next(run, EventView::ConfigParsed(Ok(data))).1 == (ActionView::Fail {
            failure: Failure::NothingSelected,
            message: "Neither system sync nor home sync are selected"@,
        }),
        forall|k: int|
            0 <= k < later.len() ==> #[trigger] actions(
                next(run, EventView::ConfigParsed(Ok(data))).0,
                later,
            )[k] is Fail,
{
    lemma_finished_is_final(next(run, EventView::ConfigParsed(Ok(data))).0, later);
}

/// A description that cannot be read ends the run with exit code 1, and the
/// run never asks for anything to be parsed.
pub proof fn lemma_unreadable_is_never_parsed<O: OperatingSystem>(
    run: Run<O>,
    later: Seq<EventView>,
)
    requires
        run.stage == Stage::Reading,
    ensures
        next(run, EventView::ConfigRead(None)).1 == (ActionView::Fail {
            failure: Failure::ConfigUnreadable,
            message: unreadable_message(run.config_path),
        }),
        forall|k: int|
            0 <= k < later.len() ==> #[trigger] actions(
                next(run, EventView::ConfigRead(None)).0,
                later,
            )[k] is Fail,
{
    lemma_finished_is_final(next(run, EventView::ConfigRead(None)).0, later);
}

/// With only the system selected, a run asks for one command, the
/// installation of the packages of the description, and ends as that command
/// ends; no user is touched.
pub proof fn lemma_system_only<O: OperatingSystem>(run: Run<O>, data: DataView, success: bool)
    requires
        run.stage == Stage::Parsing,
        run.system,
        !run.home,
    ensures
        actions(run, seq![EventView::ConfigParsed(Ok(data)), EventView::Exited(success)]) == seq![
            ActionView::Run(run.os.install_command(data.packages)),
            if success {
                ActionView::Succeed
            } else {
                ActionView::Fail {
                    failure: Failure::InstallFailed,
                    message: "Could not install system packages"@,
                }
            },
        ],
{
    reveal_with_fuel(actions, 3);
    let events = seq![EventView::ConfigParsed(Ok(data)), EventView::Exited(success)];
    let first = next(run, events[0]);
    let rest = events.drop_first();
    assert(rest.drop_first().len() == 0);
    assert(actions(first.0, rest) =~= seq![next(first.0, rest[0]).1]);
    assert(actions(run, events) =~= seq![first.1, next(first.0, rest[0]).1]);
}

/// What a run does about one user: it looks the user up, creates or updates
/// the user as the lookup says, reports the links, and turns to the next
/// user.
pub proof fn lemma_one_user<O: OperatingSystem>(run: Run<O>, user: usize, existed: bool)
    requires
        run.wf(),
        run.stage == (Stage::Checking { user }),
    ensures
        actions(run, seq![EventView::Exited(existed), EventView::Exited(true), EventView::Reported])
            == seq![
            next(run, EventView::Exited(existed)).1,
            ActionView::ReportLinks(run.data.users[user as int].1.links),
            home_phase(run, user + 1).1,
        ],
{
    reveal_with_fuel(actions, 4);
    let events = seq![EventView::Exited(existed), EventView::Exited(true), EventView::Reported];
    let first = next(run, events[0]);
    let rest = events.drop_first();
    let second = next(first.0, rest[0]);
    let last = rest.drop_first();
    let third = next(second.0, last[0]);
    assert(last.drop_first().len() == 0);
    assert(actions(second.0, last) =~= seq![third.1]);
    assert(actions(first.0, rest) =~= seq![second.1, third.1]);
    assert(actions(run, events) =~= seq![first.1, second.1, third.1]);
    assert(third.1 == home_phase(run, user + 1).1);
}

/// The run after `events` came in.
pub open spec fn after<O: OperatingSystem>(run: Run<O>, events: Seq<EventView>) -> Run<O>
    decreases events.len(),
{
    if events.len() == 0 {
        run
    } else {
        after(next(run, events[0]).0, events.drop_first())
    }
}

/// The events of a home phase in which every command can be started and
/// every creation and update succeeds: for each user the answer of the
/// lookup, as `found` gives it, the success of the command that follows, and
/// the report of the links.
pub open spec fn home_events(found: Seq<bool>) -> Seq<EventView>
    decreases found.len(),
{
    if found.len() == 0 {
        Seq::empty()
    } else {
        seq![EventView::Exited(found[0]), EventView::Exited(true), EventView::Reported]
            + home_events(found.drop_first())
    }
}

/// The actions of such a home phase from the user at place `from` on, after
/// that user's lookup was asked for: the user is updated where the lookup
/// found it and created where it did not, the links are reported, and the
/// next user is looked up; after the last user the run succeeds.
pub open spec fn home_actions<O: OperatingSystem>(run: Run<O>, from: int, found: Seq<bool>) -> Seq<
    ActionView,
>
    decreases found.len(),
{
    let users = run.data.users;
    if found.len() == 0 {
        Seq::empty()
    } else {
        seq![
            ActionView::Run(
                if found[0] {
                    run.os.user_update_command(
                        users[from].0,
                        users[from].1.groups,
                        users[from].1.default_shell,
                    )
                } else {
                    run.os.user_create_command(
                        users[from].0,
                        users[from].1.groups,
                        users[from].1.default_shell,
                    )
                },
            ),
            ActionView::ReportLinks(users[from].1.links),
            home_phase(run, from + 1).1,
        ] + home_actions(run, from + 1, found.drop_first())
    }
}

/// The actions over two stretches of events are those over the first,
/// followed by those that the run asks for from where the first left it.
pub proof fn lemma_actions_of_concat<O: OperatingSystem>(
    run: Run<O>,
    first: Seq<EventView>,
    second: Seq<EventView>,
)
    ensures
        actions(run, first + second) == actions(run, first) + actions(after(run, first), second),
        after(run, first + second) == after(after(run, first), second),
    decreases first.len(),
{
    if first.len() == 0 {
        assert(first + second == second);
    } else {
        let moved = next(run, first[0]).0;
        assert((first + second).drop_first() == first.drop_first() + second);
        lemma_actions_of_concat(moved, first.drop_first(), second);
    }
}

/// A whole home phase: from the lookup of the user at place `from`, with
/// every command started and every creation and update successful, a run
/// asks for exactly the actions of [`home_actions`], one creation or update
/// for each user that is left and none for any other, and then it is over.
pub proof fn lemma_home_phase<O: OperatingSystem>(run: Run<O>, from: usize, found: Seq<bool>)
    requires
        run.wf(),
        run.stage == (Stage::Checking { user: from }),
        found.len() == run.data.users.len() - from,
    ensures
        actions(run, home_events(found)) == home_actions(run, from as int, found),
        after(run, home_events(found)).stage == Stage::Finished,
        home_actions(run, from as int, found).last() == ActionView::Succeed,
    decreases found.len(),
{
    let one = seq![EventView::Exited(found[0]), EventView::Exited(true), EventView::Reported];
    let rest = home_events(found.drop_first());
    lemma_one_user(run, from, found[0]);
    lemma_actions_of_concat(run, one, rest);
    reveal_with_fuel(after, 4);
    let moved = after(run, one);
    assert(moved == home_phase(run, from + 1).0);
    if found.len() == 1 {
        assert(found.drop_first().len() == 0);
        assert(rest.len() == 0);
        assert(actions(moved, rest).len() == 0);
        assert(home_actions(run, from + 1, found.drop_first()).len() == 0);
        assert(actions(run, home_events(found)) =~= home_actions(run, from as int, found));
    } else {
        lemma_home_phase(moved, (from + 1) as usize, found.drop_first());
        lemma_home_actions_ignore_stage(run, moved, from + 1, found.drop_first());
    }
}

/// The actions of a home phase depend on the backend and the description,
/// not on where the run stands.
pub proof fn lemma_home_actions_ignore_stage<O: OperatingSystem>(
    run: Run<O>,
    other: Run<O>,
    from: int,
    found: Seq<bool>,
)
    requires
        other.os == run.os,
        other.data == run.data,
    ensures
        home_actions(other, from, found) == home_actions(run, from, found),
    decreases found.len(),
{
    if found.len() > 0 {
        lemma_home_actions_ignore_stage(run, other, from + 1, found.drop_first());
    }
}

/// A reconciliation run on the backend `O`.
pub struct Reconciler<O: OperatingSystem> {
    os: O,
    config_path: String,
    system: bool,
    home: bool,
    data: Data,
    stage: Stage,
}

impl<O: OperatingSystem> View for Reconciler<O> {
    type V = Run<O>;

    closed spec fn view(&self) -> Run<O> {
        Run {
            os: self.os,
            config_path: self.config_path@,
            system: self.system,
            home: self.home,
            data: self.data@,
            stage: self.stage,
        }
    }
}

impl<O: OperatingSystem> Reconciler<O> {
    #[verifier::type_invariant]
    spec fn inv(self) -> bool {
        self@.wf()
    }

    /// Starts the run that `command` asks for, on the backend `os`.
    pub fn new(os: O, command: Command) -> (started: (Self, Action))
        ensures
            command matches Command::Sync { config_path, system, home } && (
            started.0@,
            started.1@,
            ) == begin(os, config_path@, system, home),
            started.0@.wf(),
    {
        match command {
            Command::Sync { config_path, system, home } => {
                let action = Action::ReadConfig(config_path.clone());
                let run = Reconciler {
                    os,
                    config_path,
                    system,
                    home,
                    data: Data::empty(),
                    stage: Stage::Reading,
                };
                assert(run@.data.packages =~= Seq::<Seq<char>>::empty());
                assert(run@.data.users =~= Seq::empty());
                (run, action)
            },
        }
    }

    /// Where the run stands.
    pub fn stage(&self) -> (stage: Stage)
        ensures
            stage == self@.stage,
            self@.wf(),
    {
        proof {
            use_type_invariant(self);
        }
        self.stage
    }

    /// Whether the run is over.
    pub fn is_finished(&self) -> (over: bool)
        ensures
            over == (self@.stage == Stage::Finished),
    {
        match self.stage {
            Stage::Finished => true,
            _ => false,
        }
    }

    fn finish(self) -> (ended: (Self, Action))
        ensures
            ended.0@ == self@.at(Stage::Finished),
            ended.1@ == ActionView::Succeed,
    {
        proof {
            use_type_invariant(&self);
        }
        (Reconciler { stage: Stage::Finished, ..self }, Action::Succeed)
    }

    fn fail(self, failure: Failure, message: String) -> (ended: (Self, Action))
        ensures
            (ended.0@, ended.1@) == self@.failed(failure, message@),
    {
        proof {
            use_type_invariant(&self);
        }
        (Reconciler { stage: Stage::Finished, ..self }, Action::Fail { failure, message })
    }

    fn unexpected(self) -> (ended: (Self, Action))
        ensures
            (ended.0@, ended.1@) == self@.failed(Failure::UnexpectedEvent, "Unexpected event"@),
    {
        self.fail(Failure::UnexpectedEvent, String::from_str("Unexpected event"))
    }

    /// Opens the system phase: asks for the packages to be installed.
    fn sync_system(self) -> (moved: (Self, Action))
        ensures
            (moved.0@, moved.1@) == system_phase(self@),
    {
        proof {
            use_type_invariant(&self);
        }
        let command = self.os.install_packages(&self.data.system.packages);
        (Reconciler { stage: Stage::Installing, ..self }, Action::Run(command))
    }

    /// Goes on with the home phase at the user at place `from`: asks whether
    /// that user exists, or ends the run where no user is left.
    fn sync_home(self, from: usize) -> (moved: (Self, Action))
        ensures
            (moved.0@, moved.1@) == home_phase(self@, from as int),
    {
        if from < self.data.users.len() {
            let command = self.os.user_exists(self.data.users.name(from).as_str());
            (Reconciler { stage: Stage::Checking { user: from }, ..self }, Action::Run(command))
        } else {
            self.finish()
        }
    }

    /// Takes the event that answers the last action and gives the next
    /// action.
    pub fn step(self, event: Event) -> (moved: (Self, Action))
        ensures
            (moved.0@, moved.1@) == next(self@, event@),
            moved.0@.wf(),
    {
        proof {
            use_type_invariant(&self);
        }
        let moved = match self.stage {
            Stage::Reading => match event {
                Event::ConfigRead(Some(text)) => (
                    Reconciler { stage: Stage::Parsing, ..self },
                    Action::ParseConfig(text),
                ),
                Event::ConfigRead(None) => {
                    let mut message = String::from_str("Could not read file `");
                    message.append(self.config_path.as_str());
                    message.append("`");
                    self.fail(Failure::ConfigUnreadable, message)
                },
                _ => self.unexpected(),
            },
            Stage::Parsing => match event {
                Event::ConfigParsed(Ok(data)) => {
                    let count = data.users.len();
                    assert(count == data@.users.len());
                    let run = Reconciler { data, ..self };
                    if !run.system && !run.home {
                        run.fail(
                            Failure::NothingSelected,
                            String::from_str("Neither system sync nor home sync are selected"),
                        )
                    } else if run.system {
                        run.sync_system()
                    } else {
                        run.sync_home(0)
                    }
                },
                Event::ConfigParsed(Err(cause)) => {
                    let mut message = String::from_str("Unable to load data from `");
                    message.append(self.config_path.as_str());
                    message.append("` ");
                    message.append(cause.as_str());
                    self.fail(Failure::ConfigInvalid, message)
                },
                _ => self.unexpected(),
            },
            Stage::Installing => match event {
                Event::Exited(true) => if self.home {
                    self.sync_home(0)
                } else {
                    self.finish()
                },
                Event::Exited(false) => self.fail(
                    Failure::InstallFailed,
                    String::from_str("Could not install system packages"),
                ),
                Event::NotStarted(reason) => self.fail(Failure::CommandNotStarted, reason),
                _ => self.unexpected(),
            },
            Stage::Checking { user } => match event {
                Event::Exited(existed) => {
                    let name = self.data.users.name(user);
                    let home = self.data.users.value(user);
                    let command = if existed {
                        self.os.user_update(
                            name.as_str(),
                            &home.groups,
                            home.default_shell.as_str(),
                        )
                    } else {
                        self.os.user_create(
                            name.as_str(),
                            &home.groups,
                            home.default_shell.as_str(),
                        )
                    };
                    (
                        Reconciler { stage: Stage::Applying { user, existed }, ..self },
                        Action::Run(command),
                    )
                },
                Event::NotStarted(reason) => self.fail(Failure::CommandNotStarted, reason),
                _ => self.unexpected(),
            },
            Stage::Applying { user, existed } => match event {
                Event::Exited(true) => {
                    let links = self.data.users.value(user).links.duplicate();
                    (Reconciler { stage: Stage::Reporting { user }, ..self }, Action::ReportLinks(links))
                },
                Event::Exited(false) => {
                    let name = self.data.users.name(user);
                    if existed {
                        let mut message = String::from_str("Could not update user ");
                        message.append(name.as_str());
                        self.fail(Failure::UserUpdateFailed, message)
                    } else {
                        let mut message = String::from_str("Could not create user ");
                        message.append(name.as_str());
                        self.fail(Failure::UserCreateFailed, message)
                    }
                },
                Event::NotStarted(reason) => self.fail(Failure::CommandNotStarted, reason),
                _ => self.unexpected(),
            },
            Stage::Reporting { user } => match event {
                Event::Reported => {
                    let count = self.data.users.len();
                    assert(user < count);
                    self.sync_home(user + 1)
                },
                _ => self.unexpected(),
            },
            Stage::Finished => self.unexpected(),
        };
        moved
    }
}

} // verus!
