//! What the program does from its start to its end: the settings it runs with, and the order in
//! which it loads, saves and sleeps.

use vstd::prelude::*;

use crate::error::{ErrorView, SessionError};

verus! {

/// What the program is run for.
#[derive(Debug, Clone, Copy)]
pub enum Mode {
    /// Load the session, then save it again and again.
    Default,
    /// Save the session again and again.
    SaveOnly,
    /// Save the session once.
    SaveAndExit,
    /// Load the session once.
    LoadAndExit,
}

/// What the user asked for on the command line.
pub struct Options {
    pub mode: Option<Mode>,
    pub skip_duplicate_pids: bool,
    pub save_interval: Option<u64>,
    pub session_path: Option<String>,
    pub simulate: bool,
}

/// What the program runs with.
pub struct Settings {
    pub mode: Mode,
    pub skip_duplicate_pids: bool,
    pub save_interval: u64,
    pub session_path: String,
    pub simulate: bool,
}

/// The number of seconds between two saves, unless the user asks for another.
pub const DEFAULT_SAVE_INTERVAL: u64 = 60;

/// Where in the home directory sessions are kept, unless the user asks for another place.
pub const DEFAULT_SESSION_PATH: &'static str = "/.local/share/hyprsession";

/// What the user is told when the home directory is not known.
pub const HOME_UNKNOWN: &'static str =
    "HOME environment variable not set; unable to determine default session path";

/// What the user is told of an interval of no seconds.
pub const INTERVAL_NOT_POSITIVE: &'static str = "Save interval needs to be a positive integer";

/// The settings for what the user asked for, or what the user is told is wrong with it.
pub fn configure(home: Option<String>, options: Options) -> (r: Result<Settings, String>)
    ensures
        match r {
            Ok(settings) => {
                &&& home is Some
                &&& options.save_interval != Some(0u64)
                &&& settings.mode == (match options.mode {
                    Some(mode) => mode,
                    None => Mode::Default,
                })
                &&& settings.skip_duplicate_pids == options.skip_duplicate_pids
                &&& settings.save_interval == (match options.save_interval {
                    Some(seconds) => seconds,
                    None => DEFAULT_SAVE_INTERVAL,
                })
                &&& settings.save_interval > 0
                &&& settings.session_path@ == (match options.session_path {
                    Some(path) => path@,
                    None => home->0@ + DEFAULT_SESSION_PATH@,
                })
                &&& settings.simulate == options.simulate
            },
            Err(told) => {
                ||| home is None && told@ == HOME_UNKNOWN@
                ||| home is Some && options.save_interval == Some(0u64) && told@
                    == INTERVAL_NOT_POSITIVE@
            },
        },
{
    let default_path = match home {
        Some(home) => home.concat(DEFAULT_SESSION_PATH),
        None => return Err(HOME_UNKNOWN.to_owned()),
    };
    let session_path = match options.session_path {
        Some(path) => path,
        None => default_path,
    };
    let save_interval: u64 = match options.save_interval {
        Some(seconds) => seconds,
        None => DEFAULT_SAVE_INTERVAL,
    };
    if save_interval < 1 {
        return Err(INTERVAL_NOT_POSITIVE.to_owned());
    }
    let mode = match options.mode {
        Some(mode) => mode,
        None => Mode::Default,
    };
    Ok(
        Settings {
            mode,
            skip_duplicate_pids: options.skip_duplicate_pids,
            save_interval,
            session_path,
            simulate: options.simulate,
        },
    )
}

/// What the program is busy with, of what can fail with a [`SessionError`]. The first save is
/// the one that a mode without loading begins with.
#[derive(Debug, Clone, Copy)]
pub enum Activity {
    ReadPassphrase,
    InitializeAuthentication,
    LoadSession,
    FirstSave,
    Save,
}

/// How far the program has come.
pub enum Stage {
    CreatingDirectory,
    Active(Activity),
    /// The directory could not be created, for this reason.
    ReportingDirectory(String),
    Reporting(Activity, SessionError),
    Sleeping,
    Stopped(i32),
}

/// A [`Stage`] by the views of what it holds.
pub enum StageView {
    CreatingDirectory,
    Active(Activity),
    ReportingDirectory(Seq<char>),
    Reporting(Activity, ErrorView),
    Sleeping,
    Stopped(i32),
}

impl View for Stage {
    type V = StageView;

    open spec fn view(&self) -> StageView {
        match *self {
            Stage::CreatingDirectory => StageView::CreatingDirectory,
            Stage::Active(activity) => StageView::Active(activity),
            Stage::ReportingDirectory(reason) => StageView::ReportingDirectory(reason@),
            Stage::Reporting(activity, e) => StageView::Reporting(activity, e@),
            Stage::Sleeping => StageView::Sleeping,
            Stage::Stopped(code) => StageView::Stopped(code),
        }
    }
}

/// What the program has to do next.
pub enum Task<'a> {
    /// Create the session directory, and those above it.
    CreateDirectory(&'a String),
    ObtainPassphrase,
    /// Set up the authentication in the session directory with the passphrase, and forget the
    /// passphrase.
    Authenticate(&'a String),
    /// Load the session from this directory; only in appearance if so asked.
    Load(&'a String, bool),
    /// Save the session to this directory; with one window for each process if so asked.
    Save(&'a String, bool),
    /// Tell the user a line.
    Tell(String),
    /// Tell the user that an action failed.
    Report(String, &'a SessionError),
    /// Do nothing for this many seconds.
    Sleep(u64),
    /// End with this status.
    Exit(i32),
}

/// A [`Task`] by the views of what it holds.
pub enum TaskView {
    CreateDirectory(Seq<char>),
    ObtainPassphrase,
    Authenticate(Seq<char>),
    Load(Seq<char>, bool),
    Save(Seq<char>, bool),
    Tell(Seq<char>),
    Report(Seq<char>, ErrorView),
    Sleep(u64),
    Exit(i32),
}

impl<'a> View for Task<'a> {
    type V = TaskView;

    open spec fn view(&self) -> TaskView {
        match *self {
            Task::CreateDirectory(path) => TaskView::CreateDirectory(path@),
            Task::ObtainPassphrase => TaskView::ObtainPassphrase,
            Task::Authenticate(path) => TaskView::Authenticate(path@),
            Task::Load(path, simulate) => TaskView::Load(path@, simulate),
            Task::Save(path, skip_duplicate_pids) => TaskView::Save(path@, skip_duplicate_pids),
            Task::Tell(line) => TaskView::Tell(line@),
            Task::Report(action, e) => TaskView::Report(action@, e@),
            Task::Sleep(seconds) => TaskView::Sleep(seconds),
            Task::Exit(code) => TaskView::Exit(code),
        }
    }
}

/// What became of a task.
pub enum Outcome {
    /// The directory was created, or why not.
    Directory(Result<(), String>),
    /// An operation came to its end.
    Finished(Result<(), SessionError>),
    /// The user was told.
    Told,
    /// The time has passed.
    Slept,
}

/// An [`Outcome`] by the views of what it holds.
pub enum OutcomeView {
    Directory(Option<Seq<char>>),
    Finished(Option<ErrorView>),
    Told,
    Slept,
}

impl View for Outcome {
    type V = OutcomeView;

    open spec fn view(&self) -> OutcomeView {
        match *self {
            Outcome::Directory(Ok(_)) => OutcomeView::Directory(None),
            Outcome::Directory(Err(reason)) => OutcomeView::Directory(Some(reason@)),
            Outcome::Finished(Ok(_)) => OutcomeView::Finished(None),
            Outcome::Finished(Err(e)) => OutcomeView::Finished(Some(e@)),
            Outcome::Told => OutcomeView::Told,
            Outcome::Slept => OutcomeView::Slept,
        }
    }
}

/// What an activity is called when it failed.
pub open spec fn action_of(activity: Activity) -> Seq<char> {
    match activity {
        Activity::ReadPassphrase => "read passphrase"@,
        Activity::InitializeAuthentication => "initialize authentication"@,
        Activity::LoadSession => "load session"@,
        Activity::FirstSave => "save session"@,
        Activity::Save => "save session"@,
    }
}

/// What the program has to do next.
pub open spec fn task_at(settings: Settings, stage: StageView) -> TaskView {
    let path = settings.session_path@;
    match stage {
        StageView::CreatingDirectory => TaskView::CreateDirectory(path),
        StageView::Active(Activity::ReadPassphrase) => TaskView::ObtainPassphrase,
        StageView::Active(Activity::InitializeAuthentication) => TaskView::Authenticate(path),
        StageView::Active(Activity::LoadSession) => TaskView::Load(path, settings.simulate),
        StageView::Active(Activity::FirstSave) => TaskView::Save(
            path,
            settings.skip_duplicate_pids,
        ),
        StageView::Active(Activity::Save) => TaskView::Save(path, settings.skip_duplicate_pids),
        StageView::ReportingDirectory(reason) => TaskView::Tell(
            "Failed to create session directory "@ + path + ": "@ + reason,
        ),
        StageView::Reporting(activity, e) => TaskView::Report(action_of(activity), e),
        StageView::Sleeping => TaskView::Sleep(settings.save_interval),
        StageView::Stopped(code) => TaskView::Exit(code),
    }
}

/// The stage after an activity that succeeded.
pub open spec fn stage_past(mode: Mode, activity: Activity) -> StageView {
    match activity {
        Activity::ReadPassphrase => StageView::Active(Activity::InitializeAuthentication),
        Activity::InitializeAuthentication => match mode {
            Mode::Default => StageView::Active(Activity::LoadSession),
            Mode::LoadAndExit => StageView::Active(Activity::LoadSession),
            Mode::SaveOnly => StageView::Active(Activity::FirstSave),
            Mode::SaveAndExit => StageView::Active(Activity::FirstSave),
        },
        Activity::LoadSession => if mode == Mode::LoadAndExit {
            StageView::Stopped(0)
        } else {
            StageView::Active(Activity::Save)
        },
        Activity::FirstSave => if mode == Mode::SaveAndExit {
            StageView::Stopped(0)
        } else {
            StageView::Active(Activity::Save)
        },
        Activity::Save => StageView::Sleeping,
    }
}

/// The stage after an activity that failed, once the user was told.
pub open spec fn stage_past_failure(mode: Mode, activity: Activity) -> StageView {
    match activity {
        Activity::ReadPassphrase => StageView::Stopped(1),
        Activity::InitializeAuthentication => StageView::Stopped(1),
        Activity::LoadSession => if mode == Mode::LoadAndExit {
            StageView::Stopped(1)
        } else {
            StageView::Active(Activity::Save)
        },
        Activity::FirstSave => StageView::Stopped(1),
        Activity::Save => StageView::Sleeping,
    }
}

/// The program after an outcome. One that is not of the task at hand changes nothing.
pub open spec fn stage_after(mode: Mode, stage: StageView, outcome: OutcomeView) -> StageView {
    match (stage, outcome) {
        (StageView::CreatingDirectory, OutcomeView::Directory(failure)) => match failure {
            None => StageView::Active(Activity::ReadPassphrase),
            Some(reason) => StageView::ReportingDirectory(reason),
        },
        (StageView::ReportingDirectory(_), OutcomeView::Told) => StageView::Stopped(1),
        (StageView::Active(activity), OutcomeView::Finished(failure)) => match failure {
            None => stage_past(mode, activity),
            Some(e) => StageView::Reporting(activity, e),
        },
        (StageView::Reporting(activity, _), OutcomeView::Told) => stage_past_failure(
            mode,
            activity,
        ),
        (StageView::Sleeping, OutcomeView::Slept) => StageView::Active(Activity::Save),
        _ => stage,
    }
}

/// The program once all of `outcomes` have come.
pub open spec fn stage_run(mode: Mode, outcomes: Seq<OutcomeView>) -> StageView
    decreases outcomes.len(),
{
    if outcomes.len() == 0 {
        StageView::CreatingDirectory
    } else {
        stage_after(mode, stage_run(mode, outcomes.drop_last()), outcomes.last())
    }
}

/// Each mode does what it is for, whatever comes of its tasks: only the default mode and the one
/// that loads and exits load, the latter never saves, only the modes that save again and again
/// sleep, and only the others end with success.
pub proof fn modes_keep_to_their_purpose(settings: Settings, outcomes: Seq<OutcomeView>)
    ensures
        ({
            let mode = settings.mode;
            let again_and_again = mode == Mode::Default || mode == Mode::SaveOnly;
            match task_at(settings, stage_run(mode, outcomes)) {
                TaskView::Load(_, _) => mode == Mode::Default || mode == Mode::LoadAndExit,
                TaskView::Save(_, _) => mode != Mode::LoadAndExit,
                TaskView::Sleep(seconds) => again_and_again && seconds == settings.save_interval,
                TaskView::Exit(code) => code == 1 || (code == 0 && !again_and_again),
                _ => true,
            }
        }),
{
    lemma_stage_fits_mode(settings.mode, outcomes);
}

/// Whether a stage can be reached in a mode.
spec fn fits_mode(mode: Mode, stage: StageView) -> bool {
    let again_and_again = mode == Mode::Default || mode == Mode::SaveOnly;
    match stage {
        StageView::Active(activity) => activity_fits_mode(mode, activity),
        StageView::Reporting(activity, _) => activity_fits_mode(mode, activity),
        StageView::Sleeping => again_and_again,
        StageView::Stopped(code) => code == 1 || (code == 0 && !again_and_again),
        _ => true,
    }
}

spec fn activity_fits_mode(mode: Mode, activity: Activity) -> bool {
    match activity {
        Activity::LoadSession => mode == Mode::Default || mode == Mode::LoadAndExit,
        Activity::FirstSave => mode == Mode::SaveOnly || mode == Mode::SaveAndExit,
        Activity::Save => mode == Mode::Default || mode == Mode::SaveOnly,
        _ => true,
    }
}

proof fn lemma_stage_fits_mode(mode: Mode, outcomes: Seq<OutcomeView>)
    ensures
        fits_mode(mode, stage_run(mode, outcomes)),
    decreases outcomes.len(),
{
    if outcomes.len() > 0 {
        lemma_stage_fits_mode(mode, outcomes.drop_last());
    }
}

/// Whether the outcome at `k` was the success of an activity.
pub open spec fn succeeded_at(
    mode: Mode,
    outcomes: Seq<OutcomeView>,
    activity: Activity,
    k: int,
) -> bool {
    &&& 0 <= k < outcomes.len()
    &&& stage_run(mode, outcomes.take(k)) == StageView::Active(activity)
    &&& outcomes[k] == OutcomeView::Finished(None)
}

/// A session is neither loaded nor saved before the passphrase was read and, with it, the
/// authentication was set up.
pub proof fn sessions_wait_for_authentication(settings: Settings, outcomes: Seq<OutcomeView>)
    ensures
        ({
            let task = task_at(settings, stage_run(settings.mode, outcomes));
            task is Load || task is Save ==> exists|i: int, k: int|
                #![trigger
                    succeeded_at(settings.mode, outcomes, Activity::ReadPassphrase, i),
                    succeeded_at(settings.mode, outcomes, Activity::InitializeAuthentication, k)
                ]
                i < k && succeeded_at(settings.mode, outcomes, Activity::ReadPassphrase, i)
                    && succeeded_at(
                    settings.mode,
                    outcomes,
                    Activity::InitializeAuthentication,
                    k,
                )
        }),
{
    let (i, k) = lemma_authenticated(settings.mode, outcomes);
    let task = task_at(settings, stage_run(settings.mode, outcomes));
    if task is Load || task is Save {
        assert(succeeded_at(settings.mode, outcomes, Activity::ReadPassphrase, i));
        assert(succeeded_at(settings.mode, outcomes, Activity::InitializeAuthentication, k));
    }
}

/// Whether a stage lies behind the authentication, unless it is the last one.
spec fn is_late(stage: StageView) -> bool {
    match stage {
        StageView::Active(activity) => activity is LoadSession || activity is FirstSave
            || activity is Save,
        StageView::Reporting(activity, _) => activity is LoadSession || activity is FirstSave
            || activity is Save,
        StageView::Sleeping => true,
        _ => false,
    }
}

proof fn lemma_authenticated(mode: Mode, outcomes: Seq<OutcomeView>) -> (r: (int, int))
    ensures
        stage_run(mode, outcomes) == StageView::Active(Activity::InitializeAuthentication)
            ==> succeeded_at(mode, outcomes, Activity::ReadPassphrase, r.0),
        is_late(stage_run(mode, outcomes)) ==> r.0 < r.1 && succeeded_at(
            mode,
            outcomes,
            Activity::ReadPassphrase,
            r.0,
        ) && succeeded_at(mode, outcomes, Activity::InitializeAuthentication, r.1),
    decreases outcomes.len(),
{
    if outcomes.len() == 0 {
        (0, 0)
    } else {
        let earlier = outcomes.drop_last();
        let last = outcomes.len() - 1;
        let (i, k) = lemma_authenticated(mode, earlier);
        assert(outcomes.take(last) =~= earlier);
        if 0 <= i < last {
            assert(earlier.take(i) =~= outcomes.take(i));
        }
        if 0 <= k < last {
            assert(earlier.take(k) =~= outcomes.take(k));
        }
        match stage_run(mode, earlier) {
            StageView::Active(Activity::ReadPassphrase) => (last, last),
            StageView::Active(Activity::InitializeAuthentication) => (i, last),
            _ => (i, k),
        }
    }
}

/// Once the program saves again and again, nothing stops it: neither a save that fails nor
/// anything else.
pub proof fn saving_goes_on(mode: Mode, outcomes: Seq<OutcomeView>, k: int)
    requires
        0 <= k <= outcomes.len(),
        stage_run(mode, outcomes.take(k)) == StageView::Active(Activity::Save),
    ensures
        stage_run(mode, outcomes) == StageView::Active(Activity::Save) || stage_run(mode, outcomes)
            is Sleeping || (stage_run(mode, outcomes) matches StageView::Reporting(activity, _)
            && activity is Save),
    decreases outcomes.len(),
{
    if k == outcomes.len() {
        assert(outcomes.take(k) =~= outcomes);
    } else {
        assert(outcomes.drop_last().take(k) =~= outcomes.take(k));
        saving_goes_on(mode, outcomes.drop_last(), k);
    }
}

/// Between two saves the program tells of a failure, if there was one, and sleeps for the
/// interval that was asked for.
pub proof fn saves_are_an_interval_apart(settings: Settings, failure: Option<ErrorView>)
    ensures
        ({
            let saved = stage_after(
                settings.mode,
                StageView::Active(Activity::Save),
                OutcomeView::Finished(failure),
            );
            let told = stage_after(settings.mode, saved, OutcomeView::Told);
            let rested = if failure is Some {
                told
            } else {
                saved
            };
            &&& failure matches Some(e) ==> task_at(settings, saved) == TaskView::Report(
                "save session"@,
                e,
            )
            &&& task_at(settings, rested) == TaskView::Sleep(settings.save_interval)
            &&& stage_after(settings.mode, rested, OutcomeView::Slept) == StageView::Active(
                Activity::Save,
            )
        }),
{
}

/// A load that fails is reported; the default mode then saves as it would have, the mode that
/// only loads ends with failure.
pub proof fn failed_load_is_survived(settings: Settings, e: ErrorView)
    ensures
        ({
            let failed = stage_after(
                settings.mode,
                StageView::Active(Activity::LoadSession),
                OutcomeView::Finished(Some(e)),
            );
            let told = stage_after(settings.mode, failed, OutcomeView::Told);
            &&& task_at(settings, failed) == TaskView::Report("load session"@, e)
            &&& settings.mode == Mode::Default ==> told == stage_after(
                settings.mode,
                StageView::Active(Activity::LoadSession),
                OutcomeView::Finished(None),
            )
            &&& settings.mode == Mode::LoadAndExit ==> told == StageView::Stopped(1)
        }),
{
}

/// Whether an outcome is one of a task.
pub open spec fn comes_of(task: TaskView, outcome: OutcomeView) -> bool {
    match task {
        TaskView::CreateDirectory(_) => outcome is Directory,
        TaskView::ObtainPassphrase => outcome is Finished,
        TaskView::Authenticate(_) => outcome is Finished,
        TaskView::Load(_, _) => outcome is Finished,
        TaskView::Save(_, _) => outcome is Finished,
        TaskView::Tell(_) => outcome is Told,
        TaskView::Report(_, _) => outcome is Told,
        TaskView::Sleep(_) => outcome is Slept,
        TaskView::Exit(_) => false,
    }
}

/// The program moves on exactly with an outcome of its task.
pub proof fn program_moves_on_with_an_outcome(
    settings: Settings,
    stage: StageView,
    outcome: OutcomeView,
)
    ensures
        stage_after(settings.mode, stage, outcome) == stage <==> !comes_of(
            task_at(settings, stage),
            outcome,
        ),
{
}

/// Every task is the one that the user asked for, in every mode and whatever came before: what is
/// created, set up, loaded and saved is in the directory of the settings, a load is simulated
/// exactly if the settings say so, a save leaves out windows of the same process exactly if they
/// say so, and a sleep is as long as they say.
pub proof fn tasks_follow_the_settings(settings: Settings, outcomes: Seq<OutcomeView>)
    ensures
        match task_at(settings, stage_run(settings.mode, outcomes)) {
            TaskView::CreateDirectory(path) => path == settings.session_path@,
            TaskView::Authenticate(path) => path == settings.session_path@,
            TaskView::Load(path, simulate) => path == settings.session_path@ && simulate
                == settings.simulate,
            TaskView::Save(path, skip) => path == settings.session_path@ && skip
                == settings.skip_duplicate_pids,
            TaskView::Sleep(seconds) => seconds == settings.save_interval,
            _ => true,
        },
{
}

proof fn lemma_one_more(mode: Mode, outcomes: Seq<OutcomeView>, outcome: OutcomeView)
    ensures
        stage_run(mode, outcomes.push(outcome)) == stage_after(
            mode,
            stage_run(mode, outcomes),
            outcome,
        ),
{
    assert(outcomes.push(outcome).drop_last() =~= outcomes);
}

/// What the program does when all goes well: it creates the directory, obtains the passphrase and
/// sets up the authentication. Then it loads, in the default mode and the one that loads and
/// exits, or else saves. In the two modes that exit it then ends with success. In the others it
/// then saves and sleeps, and saves again.
pub proof fn program_goes_task_by_task(settings: Settings)
    ensures
        ({
            let mode = settings.mode;
            let path = settings.session_path@;
            let load = TaskView::Load(path, settings.simulate);
            let save = TaskView::Save(path, settings.skip_duplicate_pids);
            let fine = OutcomeView::Finished(None);
            let created = seq![OutcomeView::Directory(None)];
            let obtained = created.push(fine);
            let ready = obtained.push(fine);
            let begun = ready.push(fine);
            let saved = begun.push(fine);
            let slept = saved.push(OutcomeView::Slept);
            &&& task_at(settings, stage_run(mode, Seq::empty())) == TaskView::CreateDirectory(path)
            &&& task_at(settings, stage_run(mode, created)) == TaskView::ObtainPassphrase
            &&& task_at(settings, stage_run(mode, obtained)) == TaskView::Authenticate(path)
            &&& task_at(settings, stage_run(mode, ready)) == (if mode == Mode::Default || mode
                == Mode::LoadAndExit {
                load
            } else {
                save
            })
            &&& mode == Mode::LoadAndExit || mode == Mode::SaveAndExit ==> task_at(
                settings,
                stage_run(mode, begun),
            ) == TaskView::Exit(0)
            &&& mode == Mode::Default || mode == Mode::SaveOnly ==> {
                &&& task_at(settings, stage_run(mode, begun)) == save
                &&& task_at(settings, stage_run(mode, saved)) == TaskView::Sleep(
                    settings.save_interval,
                )
                &&& task_at(settings, stage_run(mode, slept)) == save
            }
        }),
{
    let mode = settings.mode;
    let fine = OutcomeView::Finished(None);
    let created = seq![OutcomeView::Directory(None)];
    let obtained = created.push(fine);
    let ready = obtained.push(fine);
    let begun = ready.push(fine);
    let saved = begun.push(fine);
    assert(Seq::empty().push(OutcomeView::Directory(None)) =~= created);
    lemma_one_more(mode, Seq::empty(), OutcomeView::Directory(None));
    lemma_one_more(mode, created, fine);
    lemma_one_more(mode, obtained, fine);
    lemma_one_more(mode, ready, fine);
    lemma_one_more(mode, begun, fine);
    lemma_one_more(mode, saved, OutcomeView::Slept);
}

/// What the program does when it cannot begin: it tells the user what failed, and why, and ends
/// with failure. That goes for the directory, the passphrase, the authentication, and the save that
/// a mode without loading begins with.
pub proof fn failed_beginning_ends_the_program(settings: Settings, reason: Seq<char>, e: ErrorView)
    ensures
        ({
            let mode = settings.mode;
            let fine = OutcomeView::Finished(None);
            let failed = OutcomeView::Finished(Some(e));
            let unmade = seq![OutcomeView::Directory(Some(reason))];
            let created = seq![OutcomeView::Directory(None)];
            let obtained = created.push(fine);
            let ready = obtained.push(fine);
            &&& task_at(settings, stage_run(mode, unmade)) == TaskView::Tell(
                "Failed to create session directory "@ + settings.session_path@ + ": "@ + reason,
            )
            &&& task_at(settings, stage_run(mode, unmade.push(OutcomeView::Told)))
                == TaskView::Exit(1)
            &&& task_at(settings, stage_run(mode, created.push(failed))) == TaskView::Report(
                "read passphrase"@,
                e,
            )
            &&& task_at(settings, stage_run(mode, created.push(failed).push(OutcomeView::Told)))
                == TaskView::Exit(1)
            &&& task_at(settings, stage_run(mode, obtained.push(failed))) == TaskView::Report(
                "initialize authentication"@,
                e,
            )
            &&& task_at(settings, stage_run(mode, obtained.push(failed).push(OutcomeView::Told)))
                == TaskView::Exit(1)
            &&& mode == Mode::SaveOnly || mode == Mode::SaveAndExit ==> {
                &&& task_at(settings, stage_run(mode, ready.push(failed))) == TaskView::Report(
                    "save session"@,
                    e,
                )
                &&& task_at(settings, stage_run(mode, ready.push(failed).push(OutcomeView::Told)))
                    == TaskView::Exit(1)
            }
        }),
{
    let mode = settings.mode;
    let fine = OutcomeView::Finished(None);
    let failed = OutcomeView::Finished(Some(e));
    let unmade = seq![OutcomeView::Directory(Some(reason))];
    let created = seq![OutcomeView::Directory(None)];
    let obtained = created.push(fine);
    let ready = obtained.push(fine);
    assert(Seq::empty().push(OutcomeView::Directory(Some(reason))) =~= unmade);
    assert(Seq::empty().push(OutcomeView::Directory(None)) =~= created);
    lemma_one_more(mode, Seq::empty(), OutcomeView::Directory(Some(reason)));
    lemma_one_more(mode, Seq::empty(), OutcomeView::Directory(None));
    lemma_one_more(mode, unmade, OutcomeView::Told);
    lemma_one_more(mode, created, failed);
    lemma_one_more(mode, created.push(failed), OutcomeView::Told);
    lemma_one_more(mode, created, fine);
    lemma_one_more(mode, obtained, failed);
    lemma_one_more(mode, obtained.push(failed), OutcomeView::Told);
    lemma_one_more(mode, obtained, fine);
    lemma_one_more(mode, ready, failed);
    lemma_one_more(mode, ready.push(failed), OutcomeView::Told);
}

/// The first stage of the program.
pub fn start_program() -> (r: Stage)
    ensures
        r@ == StageView::CreatingDirectory,
{
    Stage::CreatingDirectory
}

/// What an activity is called when it failed.
fn action_name(activity: Activity) -> (r: String)
    ensures
        r@ == action_of(activity),
{
    match activity {
        Activity::ReadPassphrase => "read passphrase".to_owned(),
        Activity::InitializeAuthentication => "initialize authentication".to_owned(),
        Activity::LoadSession => "load session".to_owned(),
        Activity::FirstSave => "save session".to_owned(),
        Activity::Save => "save session".to_owned(),
    }
}

/// What the program has to do next.
pub fn program_task<'a>(settings: &'a Settings, stage: &'a Stage) -> (r: Task<'a>)
    ensures
        r@ == task_at(*settings, stage@),
{
    let path = &settings.session_path;
    match stage {
        Stage::CreatingDirectory => Task::CreateDirectory(path),
        Stage::Active(activity) => match *activity {
            Activity::ReadPassphrase => Task::ObtainPassphrase,
            Activity::InitializeAuthentication => Task::Authenticate(path),
            Activity::LoadSession => Task::Load(path, settings.simulate),
            Activity::FirstSave => Task::Save(path, settings.skip_duplicate_pids),
            Activity::Save => Task::Save(path, settings.skip_duplicate_pids),
        },
        Stage::ReportingDirectory(reason) => Task::Tell(
            "Failed to create session directory ".to_owned().concat(path.as_str()).concat(
                ": ",
            ).concat(reason.as_str()),
        ),
        Stage::Reporting(activity, e) => Task::Report(action_name(*activity), e),
        Stage::Sleeping => Task::Sleep(settings.save_interval),
        Stage::Stopped(code) => Task::Exit(*code),
    }
}

/// The stage after an activity that succeeded.
fn past(mode: Mode, activity: Activity) -> (r: Stage)
    ensures
        r@ == stage_past(mode, activity),
{
    match (activity, mode) {
        (Activity::ReadPassphrase, _) => Stage::Active(Activity::InitializeAuthentication),
        (Activity::InitializeAuthentication, Mode::Default) => Stage::Active(Activity::LoadSession),
        (Activity::InitializeAuthentication, Mode::LoadAndExit) => Stage::Active(
            Activity::LoadSession,
        ),
        (Activity::InitializeAuthentication, _) => Stage::Active(Activity::FirstSave),
        (Activity::LoadSession, Mode::LoadAndExit) => Stage::Stopped(0),
        (Activity::FirstSave, Mode::SaveAndExit) => Stage::Stopped(0),
        (Activity::Save, _) => Stage::Sleeping,
        _ => Stage::Active(Activity::Save),
    }
}

/// The stage after an activity that failed, once the user was told.
fn past_failure(mode: Mode, activity: Activity) -> (r: Stage)
    ensures
        r@ == stage_past_failure(mode, activity),
{
    match (activity, mode) {
        (Activity::LoadSession, Mode::LoadAndExit) => Stage::Stopped(1),
        (Activity::LoadSession, _) => Stage::Active(Activity::Save),
        (Activity::Save, _) => Stage::Sleeping,
        _ => Stage::Stopped(1),
    }
}

/// Moves the program on.
pub fn program_step(settings: &Settings, stage: Stage, outcome: Outcome) -> (r: Stage)
    ensures
        r@ == stage_after(settings.mode, stage@, outcome@),
{
    match (stage, outcome) {
        (Stage::CreatingDirectory, Outcome::Directory(Ok(_))) => Stage::Active(
            Activity::ReadPassphrase,
        ),
        (Stage::CreatingDirectory, Outcome::Directory(Err(reason))) => Stage::ReportingDirectory(
            reason,
        ),
        (Stage::ReportingDirectory(_), Outcome::Told) => Stage::Stopped(1),
        (Stage::Active(activity), Outcome::Finished(Ok(_))) => past(settings.mode, activity),
        (Stage::Active(activity), Outcome::Finished(Err(e))) => Stage::Reporting(activity, e),
        (Stage::Reporting(activity, _), Outcome::Told) => past_failure(settings.mode, activity),
        (Stage::Sleeping, Outcome::Slept) => Stage::Active(Activity::Save),
        (stage, _) => stage,
    }
}

/// The stages of the program, its tasks and their outcomes are seen in full.
pub proof fn program_is_seen_in_full<'a>(
    activity: Activity,
    text: String,
    e: SessionError,
    code: i32,
    path: &'a String,
    yes: bool,
    error: &'a SessionError,
    seconds: u64,
)
    ensures
        Stage::CreatingDirectory@ == StageView::CreatingDirectory,
        Stage::Active(activity)@ == StageView::Active(activity),
        Stage::ReportingDirectory(text)@ == StageView::ReportingDirectory(text@),
        Stage::Reporting(activity, e)@ == StageView::Reporting(activity, e@),
        Stage::Sleeping@ == StageView::Sleeping,
        Stage::Stopped(code)@ == StageView::Stopped(code),
        Task::CreateDirectory(path)@ == TaskView::CreateDirectory(path@),
        Task::ObtainPassphrase@ == TaskView::ObtainPassphrase,
        Task::Authenticate(path)@ == TaskView::Authenticate(path@),
        Task::Load(path, yes)@ == TaskView::Load(path@, yes),
        Task::Save(path, yes)@ == TaskView::Save(path@, yes),
        Task::Tell(text)@ == TaskView::Tell(text@),
        Task::Report(text, error)@ == TaskView::Report(text@, error@),
        Task::Sleep(seconds)@ == TaskView::Sleep(seconds),
        Task::Exit(code)@ == TaskView::Exit(code),
        Outcome::Directory(Ok(()))@ == OutcomeView::Directory(None),
        Outcome::Directory(Err(text))@ == OutcomeView::Directory(Some(text@)),
        Outcome::Finished(Ok(()))@ == OutcomeView::Finished(None),
        Outcome::Finished(Err(e))@ == OutcomeView::Finished(Some(e@)),
        Outcome::Told@ == OutcomeView::Told,
        Outcome::Slept@ == OutcomeView::Slept,
{
}

} // verus!
