//! The programs that are run: the task scheduler's tool, the shell, Explorer.
use vstd::prelude::*;
use crate::text::to_decimal;

verus! {

/// The name of the scheduled task that starts the program at logon.
pub const TASK_NAME: &'static str = "eee";

/// How long to wait between stopping and starting Explorer, in milliseconds.
pub const RESTART_PAUSE_MS: u64 = 500;

/// How a program is run.
#[derive(Clone, Copy, Debug, PartialEq, Eq, Structural)]
pub enum RunMode {
    /// Wait for it to end, and collect what it writes.
    Output,
    /// Wait for it to end.
    Status,
    /// Start it, and do not wait.
    Spawn,
}

/// A program to run, with its arguments.
#[derive(Debug, PartialEq, Eq)]
pub struct CommandLine {
    pub program: String,
    pub args: Vec<String>,
    /// Whether the program gets no console window.
    pub hidden: bool,
    pub mode: RunMode,
}

/// The model of a program to run.
pub struct Invocation {
    pub program: Seq<char>,
    pub args: Seq<Seq<char>>,
    pub hidden: bool,
    pub mode: RunMode,
}

/// The arguments of a list.
pub open spec fn arguments(args: Seq<String>) -> Seq<Seq<char>> {
    args.map_values(|arg: String| arg@)
}

impl View for CommandLine {
    type V = Invocation;

    open spec fn view(&self) -> Invocation {
        Invocation {
            program: self.program@,
            args: arguments(self.args@),
            hidden: self.hidden,
            mode: self.mode,
        }
    }
}

/// A hidden run of a program.
pub open spec fn hidden_run(program: Seq<char>, args: Seq<Seq<char>>, mode: RunMode) -> Invocation {
    Invocation { program, args, hidden: true, mode }
}

/// Removes the scheduled task.
pub open spec fn task_removal() -> Invocation {
    hidden_run("schtasks"@, seq!["/delete"@, "/tn"@, TASK_NAME@, "/f"@], RunMode::Output)
}

/// Creates the scheduled task: run the program at every logon, with the
/// highest rights, replacing a task of that name.
pub open spec fn task_creation(exe: Seq<char>) -> Invocation {
    hidden_run(
        "schtasks"@,
        seq![
            "/create"@,
            "/tn"@,
            TASK_NAME@,
            "/tr"@,
            "\""@ + exe + "\""@,
            "/sc"@,
            "onlogon"@,
            "/rl"@,
            "highest"@,
            "/f"@,
        ],
        RunMode::Output,
    )
}

/// Starts the scheduled task.
pub open spec fn task_start() -> Invocation {
    hidden_run("schtasks"@, seq!["/run"@, "/tn"@, TASK_NAME@], RunMode::Output)
}

/// Ends every instance of the program but the one with the given process id.
pub open spec fn other_instances_end(pid: nat) -> Invocation {
    hidden_run(
        "cmd"@,
        seq![
            "/c"@,
            "wmic process where \"name='eee.exe' and processid!="@ + crate::text::decimal(pid)
                + "\" call terminate >nul 2>&1"@,
        ],
        RunMode::Output,
    )
}

/// Deletes the program and its folder a moment later, when it has ended.
pub open spec fn delayed_deletion(exe: Seq<char>, folder: Seq<char>) -> Invocation {
    hidden_run(
        "cmd"@,
        seq![
            "/c"@,
            "ping -n 2 127.0.0.1 >nul & del /q \""@ + exe + "\" & rmdir \""@ + folder + "\""@,
        ],
        RunMode::Spawn,
    )
}

/// Stops Explorer.
pub open spec fn explorer_stop() -> Invocation {
    hidden_run("taskkill"@, seq!["/F"@, "/IM"@, "explorer.exe"@], RunMode::Status)
}

/// Starts Explorer, with its windows.
pub open spec fn explorer_start() -> Invocation {
    Invocation {
        program: "explorer.exe"@,
        args: seq![],
        hidden: false,
        mode: RunMode::Spawn,
    }
}

/// The command that removes the scheduled task.
pub fn remove_task() -> (command: CommandLine)
    ensures
        command@ == task_removal(),
{
    let args: Vec<String> = vec![
        "/delete".to_string(),
        "/tn".to_string(),
        TASK_NAME.to_string(),
        "/f".to_string(),
    ];
    assert(arguments(args@) =~= task_removal().args);
    CommandLine { program: "schtasks".to_string(), args, hidden: true, mode: RunMode::Output }
}

/// The command that creates the scheduled task for a program.
pub fn create_task(exe: &str) -> (command: CommandLine)
    ensures
        command@ == task_creation(exe@),
        command.program@ == "schtasks"@,
        command.hidden,
        command.mode == RunMode::Output,
        command.args@.len() == 10,
        command.args@[0]@ == "/create"@,
        command.args@[1]@ == "/tn"@ && command.args@[2]@ == "eee"@,
        command.args@[3]@ == "/tr"@ && command.args@[4]@ == "\""@ + exe@ + "\""@,
        command.args@[5]@ == "/sc"@ && command.args@[6]@ == "onlogon"@,
        command.args@[7]@ == "/rl"@ && command.args@[8]@ == "highest"@,
        command.args@[9]@ == "/f"@,
{
    let mut target = "\"".to_string();
    target.append(exe);
    target.append("\"");
    let args: Vec<String> = vec![
        "/create".to_string(),
        "/tn".to_string(),
        TASK_NAME.to_string(),
        "/tr".to_string(),
        target,
        "/sc".to_string(),
        "onlogon".to_string(),
        "/rl".to_string(),
        "highest".to_string(),
        "/f".to_string(),
    ];
    assert(arguments(args@) =~= task_creation(exe@).args);
    CommandLine { program: "schtasks".to_string(), args, hidden: true, mode: RunMode::Output }
}

/// The command that starts the scheduled task.
pub fn start_task() -> (command: CommandLine)
    ensures
        command@ == task_start(),
{
    let args: Vec<String> = vec!["/run".to_string(), "/tn".to_string(), TASK_NAME.to_string()];
    assert(arguments(args@) =~= task_start().args);
    CommandLine { program: "schtasks".to_string(), args, hidden: true, mode: RunMode::Output }
}

/// The command that ends every other instance of the program.
pub fn end_other_instances(pid: u32) -> (command: CommandLine)
    ensures
        command@ == other_instances_end(pid as nat),
        command.program@ == "cmd"@,
        command.hidden,
        command.mode == RunMode::Output,
        command.args@.len() == 2,
        command.args@[0]@ == "/c"@,
        command.args@[1]@ == "wmic process where \"name='eee.exe' and processid!="@
            + crate::text::decimal(pid as nat) + "\" call terminate >nul 2>&1"@,
{
    let mut script = "wmic process where \"name='eee.exe' and processid!=".to_string();
    script.append(to_decimal(pid).as_str());
    script.append("\" call terminate >nul 2>&1");
    let args: Vec<String> = vec!["/c".to_string(), script];
    assert(arguments(args@) =~= other_instances_end(pid as nat).args);
    CommandLine { program: "cmd".to_string(), args, hidden: true, mode: RunMode::Output }
}

/// The command that deletes the program and its folder a moment later.
pub fn delete_later(exe: &str, folder: &str) -> (command: CommandLine)
    ensures
        command@ == delayed_deletion(exe@, folder@),
        command.program@ == "cmd"@,
        command.hidden,
        command.mode == RunMode::Spawn,
        command.args@.len() == 2,
        command.args@[0]@ == "/c"@,
        command.args@[1]@ == "ping -n 2 127.0.0.1 >nul & del /q \""@ + exe@ + "\" & rmdir \""@
            + folder@ + "\""@,
{
    let mut script = "ping -n 2 127.0.0.1 >nul & del /q \"".to_string();
    script.append(exe);
    script.append("\" & rmdir \"");
    script.append(folder);
    script.append("\"");
    let args: Vec<String> = vec!["/c".to_string(), script];
    assert(arguments(args@) =~= delayed_deletion(exe@, folder@).args);
    CommandLine { program: "cmd".to_string(), args, hidden: true, mode: RunMode::Spawn }
}

/// The command that stops Explorer.
pub fn stop_explorer() -> (command: CommandLine)
    ensures
        command@ == explorer_stop(),
{
    let args: Vec<String> = vec![
        "/F".to_string(),
        "/IM".to_string(),
        "explorer.exe".to_string(),
    ];
    assert(arguments(args@) =~= explorer_stop().args);
    CommandLine { program: "taskkill".to_string(), args, hidden: true, mode: RunMode::Status }
}

/// The command that starts Explorer.
pub fn start_explorer() -> (command: CommandLine)
    ensures
        command@ == explorer_start(),
{
    let args: Vec<String> = Vec::new();
    assert(arguments(args@) =~= explorer_start().args);
    CommandLine {
        program: "explorer.exe".to_string(),
        args,
        hidden: false,
        mode: RunMode::Spawn,
    }
}

/// The model of a program to run holds what is handed to the system: its name,
/// its arguments in their order, and how it is run.
pub proof fn law_command_is_run_as_modelled(command: CommandLine, i: int)
    requires
        0 <= i < command.args@.len(),
    ensures
        command@.program == command.program@,
        command@.args.len() == command.args@.len(),
        command@.args[i] == command.args@[i]@,
        command@.hidden == command.hidden,
        command@.mode == command.mode,
{
}

/// Wherever the program lies, the task that is created starts it, its path in
/// quotes, at every logon and with the highest rights, under the name by which
/// the task is started and removed. Nothing else about the task depends on
/// where the program lies.
pub proof fn law_task_starts_the_program_at_logon(exe: Seq<char>, other: Seq<char>)
    ensures
        ({
            let command = task_creation(exe);
            &&& command.program == "schtasks"@ && command.hidden
            &&& command.mode == RunMode::Output
            &&& command.args.len() == 10
            &&& command.args[0] == "/create"@
            &&& command.args[1] == "/tn"@ && command.args[2] == "eee"@
            &&& command.args[3] == "/tr"@ && command.args[4] == "\""@ + exe + "\""@
            &&& command.args[5] == "/sc"@ && command.args[6] == "onlogon"@
            &&& command.args[7] == "/rl"@ && command.args[8] == "highest"@
            &&& command.args[9] == "/f"@
            &&& command == (Invocation {
                args: task_creation(other).args.update(4, command.args[4]),
                ..task_creation(other)
            })
        }),
        task_start().program == "schtasks"@,
        task_start().args == seq!["/run"@, "/tn"@, "eee"@],
        task_removal().program == "schtasks"@,
        task_removal().args == seq!["/delete"@, "/tn"@, "eee"@, "/f"@],
        task_start().hidden && task_removal().hidden,
        task_start().mode == RunMode::Output && task_removal().mode == RunMode::Output,
{
    assert(task_creation(exe).args =~= task_creation(other).args.update(
        4,
        task_creation(exe).args[4],
    ));
}

/// The last command of a removal waits, deletes the program's file and then,
/// empty by now, its folder; both by their paths in quotes, whatever they are.
pub proof fn law_file_and_folder_are_deleted(exe: Seq<char>, folder: Seq<char>)
    ensures
        ({
            let command = delayed_deletion(exe, folder);
            let script = command.args[1];
            let wait = "ping -n 2 127.0.0.1 >nul & "@;
            let file = "del /q "@ + ("\""@ + exe + "\""@);
            let dir = "rmdir "@ + ("\""@ + folder + "\""@);
            &&& command.program == "cmd"@ && command.hidden && command.mode == RunMode::Spawn
            &&& command.args.len() == 2 && command.args[0] == "/c"@
            &&& script == wait + file + " & "@ + dir
            &&& script.subrange(wait.len() as int, (wait + file).len() as int) == file
            &&& dir.is_suffix_of(script)
            &&& (wait + file).len() < script.len() - dir.len()
        }),
{
    reveal_strlit("ping -n 2 127.0.0.1 >nul & del /q \"");
    reveal_strlit("\" & rmdir \"");
    reveal_strlit("\"");
    reveal_strlit("ping -n 2 127.0.0.1 >nul & ");
    reveal_strlit("del /q ");
    reveal_strlit("rmdir ");
    reveal_strlit(" & ");
    let script = delayed_deletion(exe, folder).args[1];
    let wait = "ping -n 2 127.0.0.1 >nul & "@;
    let file = "del /q "@ + ("\""@ + exe + "\""@);
    let dir = "rmdir "@ + ("\""@ + folder + "\""@);
    assert("ping -n 2 127.0.0.1 >nul & del /q \""@ =~= wait + "del /q "@ + "\""@);
    assert("\" & rmdir \""@ =~= "\""@ + " & "@ + "rmdir "@ + "\""@);
    assert(script =~= wait + file + " & "@ + dir);
    assert(script.subrange(wait.len() as int, (wait + file).len() as int) =~= file);
}

/// Every other instance of the program is ended, and not the process that is
/// given: the query leaves out this one number.
pub proof fn law_own_process_is_spared(pid: nat)
    ensures
        ({
            let command = other_instances_end(pid);
            &&& command.program == "cmd"@ && command.hidden && command.mode == RunMode::Output
            &&& command.args.len() == 2 && command.args[0] == "/c"@
            &&& exists|digits: Seq<char>|
                command.args[1] == "wmic process where \"name='eee.exe' and processid!="@
                    + #[trigger] (digits + "\" call terminate >nul 2>&1"@)
                    && crate::text::value_of(digits) == pid && digits.len() > 0
        }),
{
    let digits = crate::text::decimal(pid);
    crate::text::law_decimal_reads_back(pid);
    assert(other_instances_end(pid).args[1]
        =~= "wmic process where \"name='eee.exe' and processid!="@ + (digits
        + "\" call terminate >nul 2>&1"@));
}

/// Explorer is stopped by its name, by force, and started by its name with its
/// windows.
pub proof fn law_explorer_is_named()
    ensures
        explorer_stop().program == "taskkill"@,
        explorer_stop().args == seq!["/F"@, "/IM"@, "explorer.exe"@],
        explorer_stop().hidden && explorer_stop().mode == RunMode::Status,
        explorer_start().program == "explorer.exe"@,
        explorer_start().args.len() == 0,
        !explorer_start().hidden && explorer_start().mode == RunMode::Spawn,
{
}

} // verus!
