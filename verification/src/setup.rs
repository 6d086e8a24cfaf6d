//! Installing and removing the program, and restarting Explorer, step by step.
//!
//! Each step is an action for the program to perform. Where the next step
//! depends on how one went, the program reports that back.
use vstd::prelude::*;
use crate::commands::{
    create_task, delete_later, end_other_instances, remove_task, start_explorer, start_task,
    stop_explorer, CommandLine, Invocation, RESTART_PAUSE_MS, TASK_NAME,
};
use crate::path::{install_dir, installed_exe, same_location, Location};
use crate::registry::UNINSTALL_KEY;
use crate::text::to_wide;

verus! {

pub const ERROR_TITLE: &'static str = "eee - Error";

pub const INSTALLED_TITLE: &'static str = "eee - Installed";

pub const UNINSTALLED_TITLE: &'static str = "eee - Uninstalled";

pub const UNINSTALLED_TEXT: &'static str = "eee uninstalled successfully.";

/// A message box, its text and its title as wide strings.
#[derive(Debug, PartialEq, Eq)]
pub struct MessageBox {
    pub text: Vec<u16>,
    pub title: Vec<u16>,
}

/// Something for the program to do.
#[derive(Debug, PartialEq, Eq)]
pub enum Action {
    /// Create a folder and those above it. Whether that worked is ignored.
    CreateFolder { path: String },
    /// Copy the running program to this path.
    CopyProgram { to: String },
    /// Run a program.
    Run { command: CommandLine },
    /// Write the entry in the list of installed apps, under this key of the
    /// current user's, a wide string.
    RegisterEntry { key: Vec<u16>, exe: String, folder: String },
    /// Remove the entry under this key.
    RemoveEntry { key: Vec<u16> },
    /// Show a message, and wait until it is dismissed.
    ShowMessage { message: MessageBox },
    /// Wait.
    Pause { millis: u64 },
    /// There is nothing more to do.
    Finish,
}

/// The model of an action.
pub enum Deed {
    CreateFolder { path: Seq<char> },
    CopyProgram { to: Seq<char> },
    Run { command: Invocation },
    RegisterEntry { key: Seq<u16>, exe: Seq<char>, folder: Seq<char> },
    RemoveEntry { key: Seq<u16> },
    ShowMessage { text: Seq<u16>, title: Seq<u16> },
    Pause { millis: u64 },
    Finish,
}

impl View for Action {
    type V = Deed;

    open spec fn view(&self) -> Deed {
        match *self {
            Action::CreateFolder { path } => Deed::CreateFolder { path: path@ },
            Action::CopyProgram { to } => Deed::CopyProgram { to: to@ },
            Action::Run { command } => Deed::Run { command: command@ },
            Action::RegisterEntry { key, exe, folder } => Deed::RegisterEntry {
                key: key@,
                exe: exe@,
                folder: folder@,
            },
            Action::RemoveEntry { key } => Deed::RemoveEntry { key: key@ },
            Action::ShowMessage { message } => Deed::ShowMessage {
                text: message.text@,
                title: message.title@,
            },
            Action::Pause { millis } => Deed::Pause { millis },
            Action::Finish => Deed::Finish,
        }
    }
}

/// The actions of a list.
pub open spec fn deeds(actions: Seq<Action>) -> Seq<Deed> {
    actions.map_values(|action: Action| action@)
}

/// Showing a message.
pub open spec fn message(text: Seq<char>, title: Seq<char>) -> Deed {
    Deed::ShowMessage { text: crate::text::wide(text), title: crate::text::wide(title) }
}

/// Makes a message box.
pub fn show_message(text: &str, title: &str) -> (action: Action)
    ensures
        action@ == message(text@, title@),
        match action {
            Action::ShowMessage { message } => {
                &&& message.text@ == crate::text::wide(text@)
                &&& message.title@ == crate::text::wide(title@)
            },
            _ => false,
        },
{
    Action::ShowMessage { message: MessageBox { text: to_wide(text), title: to_wide(title) } }
}

/// The text of UTF-8 bytes, what is no UTF-8 replaced by U+FFFD.
pub uninterp spec fn utf8_lossy(bytes: Seq<u8>) -> Seq<char>;

/// Calls `String::from_utf8_lossy`. The result depends on the bytes alone;
/// bytes that are valid UTF-8 come out as the text that they encode.
#[verifier::external_body]
fn from_utf8_lossy(bytes: &Vec<u8>) -> (text: String)
    ensures
        text@ == utf8_lossy(bytes@),
        vstd::utf8::valid_utf8(bytes@) ==> text@ == vstd::utf8::decode_utf8(bytes@),
{
    String::from_utf8_lossy(bytes).into_owned()
}

/// How far an installation has come: the action that is being performed.
#[derive(Clone, Copy, Debug, PartialEq, Eq, Structural)]
pub enum Stage {
    /// The folder is created, and it is found out where the program lies.
    Locating,
    /// The program is copied.
    Copying,
    /// A task from before is removed.
    RemovingTask,
    /// The task is created.
    CreatingTask,
    /// The entry in the list of installed apps is written.
    Registering,
    /// The task is started.
    StartingTask,
    /// It is announced that all went well.
    Announcing,
    /// It is announced what went wrong.
    Failing,
    /// All is done.
    Finished,
}

/// How an action went.
#[derive(Debug, PartialEq, Eq)]
pub enum Report {
    /// It is done, or nobody can tell.
    Done,
    /// Where the running program lies, and where the installed one does or
    /// will.
    Located { program: Location, installed: Location },
    /// It could not be done at all, for the reason given.
    Failed { reason: String },
    /// The program ran and failed; what it wrote to its standard error.
    Refused { stderr: Vec<u8> },
}

/// The reports that can come back at a stage.
pub open spec fn expected(stage: Stage, report: Report) -> bool {
    match stage {
        Stage::Locating => report is Located,
        Stage::Copying => report is Done || report is Failed,
        Stage::RemovingTask | Stage::CreatingTask | Stage::StartingTask => {
            report is Done || report is Failed || report is Refused
        },
        Stage::Registering | Stage::Announcing | Stage::Failing => report is Done,
        Stage::Finished => false,
    }
}

/// Whether a report says that the program lies where it is to be installed.
pub open spec fn already_there(report: Report) -> bool {
    match report {
        Report::Located { program, installed } => program.resolved() == installed.resolved(),
        _ => false,
    }
}

/// The stage that follows a report.
pub open spec fn stage_after(stage: Stage, report: Report) -> Stage {
    match stage {
        Stage::Locating => if already_there(report) {
            Stage::RemovingTask
        } else {
            Stage::Copying
        },
        Stage::Copying => if report is Done {
            Stage::RemovingTask
        } else {
            Stage::Failing
        },
        Stage::RemovingTask => Stage::CreatingTask,
        Stage::CreatingTask => if report is Done {
            Stage::Registering
        } else {
            Stage::Failing
        },
        Stage::Registering => Stage::StartingTask,
        Stage::StartingTask => Stage::Announcing,
        Stage::Announcing => Stage::Finished,
        Stage::Failing => Stage::Finished,
        Stage::Finished => Stage::Finished,
    }
}

/// What is announced after a failure.
pub open spec fn failure_text(stage: Stage, report: Report) -> Seq<char> {
    match report {
        Report::Failed { reason } => if stage == Stage::Copying {
            "Failed to copy exe: "@ + reason@
        } else {
            "Failed to run schtasks: "@ + reason@
        },
        Report::Refused { stderr } => refusal_text(utf8_lossy(stderr@)),
        _ => seq![],
    }
}

/// What is announced when the task scheduler refuses the task.
pub open spec fn refusal_text(stderr: Seq<char>) -> Seq<char> {
    "Failed to create scheduled task:\n"@ + stderr
}

/// What is announced when all went well.
pub open spec fn success_text(exe: Seq<char>) -> Seq<char> {
    "eee installed successfully.\n\nLocation: "@ + exe + "\nStartup: Scheduled Task \""@ + TASK_NAME@
        + "\"\n\nHold Ctrl+Alt+Shift+E for 10s to restart Explorer.\nUninstall from Settings > Apps or run \"eee uninstall\"."@
}

/// The key of the entry in the list of installed apps.
pub open spec fn entry_key() -> Seq<u16> {
    crate::text::wide(UNINSTALL_KEY@)
}

/// What is done on entering a stage, after a report at the stage before.
pub open spec fn deed_entering(
    stage: Stage,
    folder: Seq<char>,
    exe: Seq<char>,
    before: Stage,
    report: Report,
) -> Deed {
    match stage {
        Stage::Locating => Deed::CreateFolder { path: folder },
        Stage::Copying => Deed::CopyProgram { to: exe },
        Stage::RemovingTask => Deed::Run { command: crate::commands::task_removal() },
        Stage::CreatingTask => Deed::Run { command: crate::commands::task_creation(exe) },
        Stage::Registering => Deed::RegisterEntry { key: entry_key(), exe, folder },
        Stage::StartingTask => Deed::Run { command: crate::commands::task_start() },
        Stage::Announcing => message(success_text(exe), INSTALLED_TITLE@),
        Stage::Failing => message(failure_text(before, report), ERROR_TITLE@),
        Stage::Finished => Deed::Finish,
    }
}

/// The text that announces that the task scheduler refused the task.
pub fn refusal(stderr: &str) -> (text: String)
    ensures
        text@ == refusal_text(stderr@),
        text@ == "Failed to create scheduled task:\n"@ + stderr@,
{
    let mut text = "Failed to create scheduled task:\n".to_string();
    text.append(stderr);
    text
}

fn success(exe: &str) -> (text: String)
    ensures
        text@ == success_text(exe@),
{
    let mut text = "eee installed successfully.\n\nLocation: ".to_string();
    text.append(exe);
    text.append("\nStartup: Scheduled Task \"");
    text.append(TASK_NAME);
    text.append(
        "\"\n\nHold Ctrl+Alt+Shift+E for 10s to restart Explorer.\nUninstall from Settings > Apps or run \"eee uninstall\".",
    );
    text
}

/// An installation under way. Only copying the program and creating the task
/// have to succeed; how the other steps went makes no difference.
#[derive(Debug, PartialEq, Eq)]
pub struct Installer {
    stage: Stage,
    folder: String,
    exe: String,
}

impl Installer {
    pub closed spec fn stage_spec(self) -> Stage {
        self.stage
    }

    /// The path of the folder to install into.
    pub closed spec fn folder_spec(self) -> Seq<char> {
        self.folder@
    }

    /// The path of the program to install.
    pub closed spec fn exe_spec(self) -> Seq<char> {
        self.exe@
    }

    /// Starts to install the program as `exe` in `folder`.
    pub fn begin(folder: String, exe: String) -> (begun: (Installer, Action))
        ensures
            begun.0.stage_spec() == Stage::Locating,
            begun.0.folder_spec() == folder@,
            begun.0.exe_spec() == exe@,
            begun.1@ == (Deed::CreateFolder { path: folder@ }),
    {
        let path = folder.clone();
        (Installer { stage: Stage::Locating, folder, exe }, Action::CreateFolder { path })
    }

    /// Starts to install the program, given what the environment says about the
    /// folder for local application data.
    pub fn begin_at(variable: Option<String>) -> (started: (Installer, Action))
        ensures
            started.0.stage_spec() == Stage::Locating,
            crate::path::is_placed(variable, started.0.folder_spec(), started.0.exe_spec()),
            started.1@ == (Deed::CreateFolder { path: started.0.folder_spec() }),
            variable is Some ==> crate::path::is_joined(
                started.0.folder_spec(),
                variable->0@,
                "eee"@,
            ),
            variable is None ==> crate::path::is_joined(
                started.0.folder_spec(),
                r"C:\Users\Med\AppData\Local"@,
                "eee"@,
            ),
            crate::path::is_joined(started.0.exe_spec(), started.0.folder_spec(), "eee.exe"@),
    {
        let folder = install_dir(variable);
        let exe = installed_exe(folder.as_str());
        Installer::begin(folder, exe)
    }

    /// The path of the program to install.
    pub fn exe(&self) -> (exe: &str)
        ensures
            exe@ == self.exe_spec(),
    {
        self.exe.as_str()
    }

    /// How far the installation has come.
    pub fn stage(&self) -> (stage: Stage)
        ensures
            stage == self.stage_spec(),
    {
        self.stage
    }

    /// Whether a report can come back at this stage.
    pub fn expects(&self, report: &Report) -> (yes: bool)
        ensures
            yes == expected(self.stage_spec(), *report),
    {
        let (done, located, refused) = match report {
            Report::Done => (true, false, false),
            Report::Located { .. } => (false, true, false),
            Report::Failed { .. } => (false, false, false),
            Report::Refused { .. } => (false, false, true),
        };
        match self.stage {
            Stage::Locating => located,
            Stage::Copying => !located && !refused,
            Stage::RemovingTask | Stage::CreatingTask | Stage::StartingTask => !located,
            Stage::Registering | Stage::Announcing | Stage::Failing => done,
            Stage::Finished => false,
        }
    }

    /// The text that announces a failure at this stage.
    fn failure(&self, report: &Report) -> (text: String)
        requires
            report is Failed || report is Refused,
        ensures
            text@ == failure_text(self.stage_spec(), *report),
            report matches Report::Refused { stderr } ==> (vstd::utf8::valid_utf8(stderr@)
                ==> text@ == refusal_text(vstd::utf8::decode_utf8(stderr@))),
    {
        match report {
            Report::Failed { reason } => {
                let mut text = match self.stage {
                    Stage::Copying => "Failed to copy exe: ".to_string(),
                    _ => "Failed to run schtasks: ".to_string(),
                };
                text.append(reason.as_str());
                text
            },
            Report::Refused { stderr } => refusal(from_utf8_lossy(stderr).as_str()),
            _ => String::new(),
        }
    }

    /// Takes in how the last action went and decides on the next one.
    pub fn next(&mut self, report: &Report) -> (action: Action)
        requires
            expected(old(self).stage_spec(), *report),
        ensures
            final(self).stage_spec() == stage_after(old(self).stage_spec(), *report),
            final(self).folder_spec() == old(self).folder_spec(),
            final(self).exe_spec() == old(self).exe_spec(),
            action@ == deed_entering(
                final(self).stage_spec(),
                old(self).folder_spec(),
                old(self).exe_spec(),
                old(self).stage_spec(),
                *report,
            ),
            old(self).stage_spec() == Stage::CreatingTask ==> (report matches Report::Refused {
                stderr,
            } ==> (vstd::utf8::valid_utf8(stderr@) ==> action@ == message(
                refusal_text(vstd::utf8::decode_utf8(stderr@)),
                ERROR_TITLE@,
            ))),
    {
        let (stage, action) = match (self.stage, report) {
            (Stage::Locating, Report::Located { program, installed }) => {
                if same_location(program, installed) {
                    (Stage::RemovingTask, Action::Run { command: remove_task() })
                } else {
                    (Stage::Copying, Action::CopyProgram { to: self.exe.clone() })
                }
            },
            (Stage::Copying, Report::Done) => {
                (Stage::RemovingTask, Action::Run { command: remove_task() })
            },
            (Stage::RemovingTask, _) => {
                (Stage::CreatingTask, Action::Run { command: create_task(self.exe.as_str()) })
            },
            (Stage::CreatingTask, Report::Done) => {
                (
                    Stage::Registering,
                    Action::RegisterEntry {
                        key: to_wide(UNINSTALL_KEY),
                        exe: self.exe.clone(),
                        folder: self.folder.clone(),
                    },
                )
            },
            (Stage::Registering, _) => {
                (Stage::StartingTask, Action::Run { command: start_task() })
            },
            (Stage::StartingTask, _) => {
                (
                    Stage::Announcing,
                    show_message(success(self.exe.as_str()).as_str(), INSTALLED_TITLE),
                )
            },
            (Stage::Copying, _) | (Stage::CreatingTask, _) => {
                (Stage::Failing, show_message(self.failure(report).as_str(), ERROR_TITLE))
            },
            _ => (Stage::Finished, Action::Finish),
        };
        self.stage = stage;
        action
    }
}

/// The steps that remove the program, run by the process `pid`.
pub open spec fn uninstall_deeds(pid: nat, folder: Seq<char>, exe: Seq<char>) -> Seq<Deed> {
    seq![
        Deed::Run { command: crate::commands::task_removal() },
        Deed::RemoveEntry { key: entry_key() },
        Deed::Run { command: crate::commands::other_instances_end(pid) },
        message(UNINSTALLED_TEXT@, UNINSTALLED_TITLE@),
        Deed::Run { command: crate::commands::delayed_deletion(exe, folder) },
    ]
}

/// Lists the steps that remove the program. None depends on how another went.
pub fn uninstall(pid: u32, folder: &str, exe: &str) -> (actions: Vec<Action>)
    ensures
        deeds(actions@) == uninstall_deeds(pid as nat, folder@, exe@),
{
    let actions: Vec<Action> = vec![
        Action::Run { command: remove_task() },
        Action::RemoveEntry { key: to_wide(UNINSTALL_KEY) },
        Action::Run { command: end_other_instances(pid) },
        show_message(UNINSTALLED_TEXT, UNINSTALLED_TITLE),
        Action::Run { command: delete_later(exe, folder) },
    ];
    assert(deeds(actions@) =~= uninstall_deeds(pid as nat, folder@, exe@));
    actions
}

/// Lists the steps that remove the program, given what the environment says
/// about the folder for local application data.
pub fn uninstall_at(pid: u32, variable: Option<String>) -> (actions: Vec<Action>)
    ensures
        exists|folder: Seq<char>, exe: Seq<char>|
            crate::path::is_placed(variable, folder, exe) && deeds(actions@)
                == #[trigger] uninstall_deeds(pid as nat, folder, exe) && (variable is Some
                ==> crate::path::is_joined(folder, variable->0@, "eee"@)) && (variable is None
                ==> crate::path::is_joined(folder, r"C:\Users\Med\AppData\Local"@, "eee"@))
                && crate::path::is_joined(exe, folder, "eee.exe"@),
{
    let folder = install_dir(variable);
    let exe = installed_exe(folder.as_str());
    uninstall(pid, folder.as_str(), exe.as_str())
}

/// The steps that restart Explorer.
pub open spec fn restart_deeds() -> Seq<Deed> {
    seq![
        Deed::Run { command: crate::commands::explorer_stop() },
        Deed::Pause { millis: RESTART_PAUSE_MS },
        Deed::Run { command: crate::commands::explorer_start() },
    ]
}

/// Lists the steps that restart Explorer. None depends on how another went.
pub fn restart_explorer() -> (actions: Vec<Action>)
    ensures
        deeds(actions@) == restart_deeds(),
{
    let actions: Vec<Action> = vec![
        Action::Run { command: stop_explorer() },
        Action::Pause { millis: RESTART_PAUSE_MS },
        Action::Run { command: start_explorer() },
    ];
    assert(deeds(actions@) =~= restart_deeds());
    actions
}

} // verus!
