use eee::commands::{CommandLine, RunMode};
use eee::path::Location;
use eee::setup::{
    refusal, restart_explorer, show_message, uninstall, uninstall_at, Action, Installer,
    MessageBox, Report, Stage,
};
use eee::text::to_wide;

const FOLDER: &str = "C:\\L\\eee";
const EXE: &str = "C:\\L\\eee\\eee.exe";
const KEY: &str = "Software\\Microsoft\\Windows\\CurrentVersion\\Uninstall\\eee";

fn run(program: &str, args: &[&str], hidden: bool, mode: RunMode) -> Action {
    Action::Run {
        command: CommandLine {
            program: program.to_string(),
            args: args.iter().map(|arg| arg.to_string()).collect(),
            hidden,
            mode,
        },
    }
}

fn boxed(text: &str, title: &str) -> Action {
    Action::ShowMessage { message: MessageBox { text: to_wide(text), title: to_wide(title) } }
}

fn location(name: &str) -> Location {
    Location { given: vec![name.encode_utf16().collect()], canonical: None }
}

fn located(program: &str) -> Report {
    Report::Located { program: location(program), installed: location("there") }
}

fn remove_task() -> Action {
    run("schtasks", &["/delete", "/tn", "eee", "/f"], true, RunMode::Output)
}

fn create_task() -> Action {
    let target = "\"C:\\L\\eee\\eee.exe\"";
    run(
        "schtasks",
        &["/create", "/tn", "eee", "/tr", target, "/sc", "onlogon", "/rl", "highest", "/f"],
        true,
        RunMode::Output,
    )
}

fn start_task() -> Action {
    run("schtasks", &["/run", "/tn", "eee"], true, RunMode::Output)
}

/// Installs with these reports, and lists the actions.
fn install(reports: Vec<Report>) -> Vec<Action> {
    let (mut installer, first) = Installer::begin(FOLDER.to_string(), EXE.to_string());
    let mut actions = vec![first];
    for report in reports {
        assert!(installer.expects(&report));
        actions.push(installer.next(&report));
    }
    assert_eq!(installer.stage(), Stage::Finished);
    actions
}

fn announcement() -> Action {
    boxed(
        "eee installed successfully.\n\n\
         Location: C:\\L\\eee\\eee.exe\n\
         Startup: Scheduled Task \"eee\"\n\n\
         Hold Ctrl+Alt+Shift+E for 10s to restart Explorer.\n\
         Uninstall from Settings > Apps or run \"eee uninstall\".",
        "eee - Installed",
    )
}

#[test]
fn an_installation_goes_through_all_steps() {
    let actions = install(vec![
        located("here"),
        Report::Done,
        Report::Done,
        Report::Done,
        Report::Done,
        Report::Done,
        Report::Done,
    ]);
    assert_eq!(
        actions,
        vec![
            Action::CreateFolder { path: FOLDER.to_string() },
            Action::CopyProgram { to: EXE.to_string() },
            remove_task(),
            create_task(),
            Action::RegisterEntry {
                key: to_wide(KEY),
                exe: EXE.to_string(),
                folder: FOLDER.to_string(),
            },
            start_task(),
            announcement(),
            Action::Finish,
        ]
    );
}

#[test]
fn a_program_in_place_is_not_copied() {
    let mut reports = vec![located("there")];
    for _ in 0..5 {
        reports.push(Report::Done);
    }
    let actions = install(reports);
    assert_eq!(actions[1], remove_task());
    assert_eq!(actions.len(), 7);
    assert_eq!(actions[5], announcement());
}

#[test]
fn a_failed_copy_ends_the_installation() {
    let actions = install(vec![
        located("here"),
        Report::Failed { reason: "Access is denied. (os error 5)".to_string() },
        Report::Done,
    ]);
    assert_eq!(
        actions[2..],
        [
            boxed("Failed to copy exe: Access is denied. (os error 5)", "eee - Error"),
            Action::Finish,
        ]
    );
}

#[test]
fn a_refused_task_ends_the_installation() {
    let actions = install(vec![
        located("there"),
        Report::Done,
        Report::Refused { stderr: b"ERROR: Access is denied.\r\n".to_vec() },
        Report::Done,
    ]);
    assert_eq!(
        actions[3..],
        [
            boxed(
                "Failed to create scheduled task:\nERROR: Access is denied.\r\n",
                "eee - Error",
            ),
            Action::Finish,
        ]
    );
}

#[test]
fn what_is_no_utf8_is_replaced() {
    let actions = install(vec![
        located("there"),
        Report::Done,
        Report::Refused { stderr: vec![0x5A, 0xFF, 0x81, 0x5A, 0xC3, 0xBC] },
        Report::Done,
    ]);
    assert_eq!(
        actions[3],
        boxed("Failed to create scheduled task:\nZ\u{FFFD}\u{FFFD}Z\u{fc}", "eee - Error")
    );
}

#[test]
fn a_scheduler_that_does_not_run_ends_the_installation() {
    let actions = install(vec![
        located("there"),
        Report::Done,
        Report::Failed { reason: "program not found".to_string() },
        Report::Done,
    ]);
    assert_eq!(actions[3], boxed("Failed to run schtasks: program not found", "eee - Error"));
}

#[test]
fn removing_and_starting_the_task_may_fail() {
    let actions = install(vec![
        located("there"),
        Report::Refused { stderr: b"no such task".to_vec() },
        Report::Done,
        Report::Done,
        Report::Failed { reason: "no".to_string() },
        Report::Done,
    ]);
    assert_eq!(actions[2], create_task());
    assert_eq!(actions[5], announcement());
}

#[test]
fn only_fitting_reports_are_expected() {
    let (mut installer, _) = Installer::begin(FOLDER.to_string(), EXE.to_string());
    assert!(!installer.expects(&Report::Done));
    installer.next(&located("here"));
    assert_eq!(installer.stage(), Stage::Copying);
    assert!(!installer.expects(&located("here")));
    assert!(!installer.expects(&Report::Refused { stderr: vec![] }));
    assert!(installer.expects(&Report::Failed { reason: String::new() }));
    installer.next(&Report::Failed { reason: String::new() });
    assert_eq!(installer.stage(), Stage::Failing);
    assert!(!installer.expects(&Report::Failed { reason: String::new() }));
    installer.next(&Report::Done);
    assert!(!installer.expects(&Report::Done));
}

#[test]
fn a_finished_installation_has_shown_one_message() {
    for reports in [
        vec![located("here"), Report::Failed { reason: String::new() }, Report::Done],
        vec![located("there"), Report::Done, Report::Refused { stderr: vec![] }, Report::Done],
    ] {
        let actions = install(reports);
        let shown = actions.iter().filter(|a| matches!(a, Action::ShowMessage { .. })).count();
        assert_eq!(shown, 1);
        assert!(matches!(actions[actions.len() - 2], Action::ShowMessage { .. }));
    }
}

#[test]
fn uninstalling_goes_through_all_steps() {
    assert_eq!(
        uninstall(4711, FOLDER, EXE),
        vec![
            remove_task(),
            Action::RemoveEntry { key: to_wide(KEY) },
            run(
                "cmd",
                &[
                    "/c",
                    "wmic process where \"name='eee.exe' and processid!=4711\" call terminate >nul 2>&1",
                ],
                true,
                RunMode::Output,
            ),
            boxed("eee uninstalled successfully.", "eee - Uninstalled"),
            run(
                "cmd",
                &[
                    "/c",
                    "ping -n 2 127.0.0.1 >nul & del /q \"C:\\L\\eee\\eee.exe\" & rmdir \"C:\\L\\eee\"",
                ],
                true,
                RunMode::Spawn,
            ),
        ]
    );
}

/// The program's folder and file below this folder for local application data.
fn places(data: &str) -> (String, String) {
    let folder = std::path::Path::new(data).join("eee");
    let exe = folder.join("eee.exe");
    (folder.to_str().unwrap().to_string(), exe.to_str().unwrap().to_string())
}

#[test]
fn an_installation_begins_where_the_environment_says() {
    let (folder, exe) = places("/home/data");
    let (mut installer, first) = Installer::begin_at(Some("/home/data".to_string()));
    assert_eq!(installer.stage(), Stage::Locating);
    assert_eq!(installer.exe(), exe);
    assert_eq!(first, Action::CreateFolder { path: folder.clone() });
    assert_eq!(installer.next(&located("here")), Action::CopyProgram { to: exe.clone() });
    installer.next(&Report::Done);
    installer.next(&Report::Done);
    assert_eq!(
        installer.next(&Report::Done),
        Action::RegisterEntry { key: to_wide(KEY), exe, folder }
    );
}

#[test]
fn without_an_environment_the_program_goes_to_the_default_folder() {
    let (folder, exe) = places("C:\\Users\\Med\\AppData\\Local");
    let (installer, first) = Installer::begin_at(None);
    assert_eq!(installer.exe(), exe);
    assert_eq!(first, Action::CreateFolder { path: folder });
}

#[test]
fn uninstalling_finds_what_was_installed() {
    for data in [None, Some("/home/data".to_string()), Some("/data/".to_string())] {
        let (installer, first) = Installer::begin_at(data.clone());
        let Action::CreateFolder { path } = first else {
            panic!("the folder is created first");
        };
        assert_eq!(uninstall_at(4711, data), uninstall(4711, &path, installer.exe()));
    }
}

#[test]
fn the_entry_is_removed_by_the_key_it_was_written_to() {
    let mut reports = vec![located("there")];
    for _ in 0..5 {
        reports.push(Report::Done);
    }
    let written = install(reports).into_iter().find_map(|action| match action {
        Action::RegisterEntry { key, .. } => Some(key),
        _ => None,
    });
    let removed = uninstall(1, FOLDER, EXE).into_iter().find_map(|action| match action {
        Action::RemoveEntry { key } => Some(key),
        _ => None,
    });
    assert_eq!(written, Some(to_wide(KEY)));
    assert_eq!(written, removed);
}

#[test]
fn success_is_announced_exactly_if_earned() {
    let failed = || Report::Failed { reason: String::new() };
    for copied in [true, false] {
        for removed in [true, false] {
            for created in [true, false] {
                for started in [true, false] {
                    let report = |good: bool| if good { Report::Done } else { failed() };
                    let mut reports = vec![located("here"), report(copied)];
                    if copied {
                        reports.push(report(removed));
                        reports.push(report(created));
                        if created {
                            reports.push(Report::Done);
                            reports.push(report(started));
                        }
                    }
                    reports.push(Report::Done);
                    let actions = install(reports);
                    let shown = &actions[actions.len() - 2];
                    assert_eq!(*shown == announcement(), copied && created);
                    let Action::ShowMessage { message } = shown else {
                        panic!("a message is shown");
                    };
                    assert_eq!(message.title == to_wide("eee - Error"), !(copied && created));
                }
            }
        }
    }
}

#[test]
fn explorer_is_stopped_and_started() {
    assert_eq!(
        restart_explorer(),
        vec![
            run("taskkill", &["/F", "/IM", "explorer.exe"], true, RunMode::Status),
            Action::Pause { millis: 500 },
            run("explorer.exe", &[], false, RunMode::Spawn),
        ]
    );
}

#[test]
fn messages_are_wide() {
    assert_eq!(show_message("a\u{2014}", "t"), boxed("a\u{2014}", "t"));
    assert_eq!(refusal("why"), "Failed to create scheduled task:\nwhy");
}
