//! What holds of every installation, however its steps go, and of its removal.
use vstd::prelude::*;
use crate::launch::Launch;
use crate::path::Platform;
use crate::setup::{
    deed_entering, failure_text, message, success_text, Action, Deed, Report, Stage, ERROR_TITLE,
    INSTALLED_TITLE,
};

verus! {

/// The stage of an installation after its first `k` reports.
pub open spec fn stage_at(reports: Seq<Report>, k: int) -> Stage
    decreases k,
{
    if k <= 0 {
        Stage::Locating
    } else {
        crate::setup::stage_after(stage_at(reports, k - 1), reports[k - 1])
    }
}

/// Whether each report is one that can come back at its stage.
pub open spec fn proper(reports: Seq<Report>) -> bool {
    forall|k: int|
        0 <= k < reports.len() ==> crate::setup::expected(
            stage_at(reports, k),
            #[trigger] reports[k],
        )
}

/// The action of an installation after its first `k` reports.
pub open spec fn deed_at(
    folder: Seq<char>,
    exe: Seq<char>,
    reports: Seq<Report>,
    k: int,
) -> Deed {
    crate::setup::deed_entering(
        stage_at(reports, k),
        folder,
        exe,
        stage_at(reports, k - 1),
        reports[k - 1],
    )
}

/// Whether the program ended up where it is to be installed: it was there, or
/// it was copied.
pub open spec fn in_place(reports: Seq<Report>) -> bool {
    crate::setup::already_there(reports[0]) || reports[1] is Done
}

/// How many reports come back before the old task is removed.
pub open spec fn preparation(reports: Seq<Report>) -> int {
    if crate::setup::already_there(reports[0]) {
        1
    } else {
        2
    }
}

/// Whether the task scheduler took the task.
pub open spec fn task_taken(reports: Seq<Report>) -> bool {
    reports[preparation(reports) + 1] is Done
}

/// How many reports an installation at this stage still waits for, at most.
pub open spec fn steps_left(stage: Stage) -> int {
    match stage {
        Stage::Locating => 7,
        Stage::Copying => 6,
        Stage::RemovingTask => 5,
        Stage::CreatingTask => 4,
        Stage::Registering => 3,
        Stage::StartingTask => 2,
        Stage::Announcing => 1,
        Stage::Failing => 1,
        Stage::Finished => 0,
    }
}

proof fn lemma_shape(reports: Seq<Report>, k: int)
    requires
        proper(reports),
        0 <= k <= reports.len(),
    ensures
        k + steps_left(stage_at(reports, k)) <= 7,
        ({
            let base = preparation(reports);
            match stage_at(reports, k) {
                Stage::Locating => k == 0,
                Stage::Copying => k == 1 && base == 2,
                Stage::RemovingTask => k == base && in_place(reports),
                Stage::CreatingTask => k == base + 1 && in_place(reports),
                Stage::Registering => k == base + 2 && in_place(reports)
                    && reports[base + 1] is Done,
                Stage::StartingTask => k == base + 3 && in_place(reports)
                    && reports[base + 1] is Done,
                Stage::Announcing => k == base + 4 && in_place(reports)
                    && reports[base + 1] is Done,
                Stage::Failing => {
                    ||| k == 2 && base == 2 && !in_place(reports)
                    ||| k == base + 2 && in_place(reports) && !(reports[base + 1] is Done)
                },
                Stage::Finished => {
                    ||| k == 3 && base == 2 && !in_place(reports)
                    ||| k == base + 3 && in_place(reports) && !(reports[base + 1] is Done)
                    ||| k == base + 5 && in_place(reports) && reports[base + 1] is Done
                },
            }
        }),
    decreases k,
{
    if k > 0 {
        lemma_shape(reports, k - 1);
        assert(crate::setup::expected(stage_at(reports, k - 1), reports[k - 1]));
    }
}

/// An installation comes to an end: no more than seven reports come back, and
/// as long as it has not finished, some report can.
pub proof fn law_installation_ends(reports: Seq<Report>)
    requires
        proper(reports),
    ensures
        reports.len() <= 7,
        stage_at(reports, reports.len() as int) != Stage::Finished ==> exists|report: Report|
            crate::setup::expected(stage_at(reports, reports.len() as int), report),
{
    lemma_shape(reports, reports.len() as int);
    let stage = stage_at(reports, reports.len() as int);
    if stage == Stage::Locating {
        let nowhere = crate::path::Location { given: arbitrary(), canonical: None };
        let report = Report::Located { program: nowhere, installed: nowhere };
        assert(crate::setup::expected(stage, report));
    } else if stage != Stage::Finished {
        assert(crate::setup::expected(stage, Report::Done));
    }
}

/// A finished installation has announced success exactly if the program is in
/// place and the task scheduler took the task, and an error otherwise.
pub proof fn law_success_is_earned(folder: Seq<char>, exe: Seq<char>, reports: Seq<Report>)
    requires
        proper(reports),
        stage_at(reports, reports.len() as int) == Stage::Finished,
    ensures
        ({
            let last = reports.len() - 1;
            let before = stage_at(reports, last - 1);
            let shown = deed_at(folder, exe, reports, last);
            if in_place(reports) && task_taken(reports) {
                &&& stage_at(reports, last) == Stage::Announcing
                &&& shown == message(success_text(exe), INSTALLED_TITLE@)
            } else {
                &&& stage_at(reports, last) == Stage::Failing
                &&& shown == message(failure_text(before, reports[last - 1]), ERROR_TITLE@)
                &&& !in_place(reports) ==> before == Stage::Copying
                &&& in_place(reports) ==> before == Stage::CreatingTask
            }
        }),
{
    let last = reports.len() - 1;
    lemma_shape(reports, reports.len() as int);
    lemma_shape(reports, last);
    lemma_shape(reports, last - 1);
    assert(crate::setup::expected(stage_at(reports, last), reports[last]));
    assert(crate::setup::expected(stage_at(reports, last - 1), reports[last - 1]));
}

/// A finished installation has shown one message, and that was the last thing
/// it did.
pub proof fn law_one_message(folder: Seq<char>, exe: Seq<char>, reports: Seq<Report>, k: int)
    requires
        proper(reports),
        stage_at(reports, reports.len() as int) == Stage::Finished,
        0 <= k <= reports.len(),
    ensures
        deed_at(folder, exe, reports, k) is ShowMessage <==> k == reports.len() - 1,
{
    lemma_shape(reports, reports.len() as int);
    lemma_shape(reports, k);
    lemma_shape(reports, reports.len() - 1);
    if k < reports.len() {
        assert(crate::setup::expected(stage_at(reports, k), reports[k]));
    }
    assert(crate::setup::expected(
        stage_at(reports, reports.len() - 1),
        reports[reports.len() - 1],
    ));
}

/// After a failure nothing more is done but announcing it: the entry in the
/// list of installed apps is never written and the task is never started; and
/// where the program could not be copied, the task scheduler is never asked
/// for anything.
pub proof fn law_failure_stops(
    folder: Seq<char>,
    exe: Seq<char>,
    reports: Seq<Report>,
    failed: int,
    k: int,
)
    requires
        proper(reports),
        0 <= failed <= reports.len(),
        0 <= k <= reports.len(),
        stage_at(reports, failed) == Stage::Failing,
    ensures
        !(deed_at(folder, exe, reports, k) is RegisterEntry),
        stage_at(reports, k) != Stage::StartingTask,
        k > failed ==> deed_at(folder, exe, reports, k) is Finish,
        stage_at(reports, failed - 1) == Stage::Copying ==> !(deed_at(
            folder,
            exe,
            reports,
            k,
        ) is Run),
{
    lemma_shape(reports, failed);
    lemma_shape(reports, k);
    if failed > 0 {
        lemma_shape(reports, failed - 1);
    }
}

/// A task is created only right after one of that name was removed.
pub proof fn law_old_task_goes_first(
    folder: Seq<char>,
    exe: Seq<char>,
    reports: Seq<Report>,
    k: int,
)
    requires
        proper(reports),
        0 <= k <= reports.len(),
        stage_at(reports, k) == Stage::CreatingTask,
    ensures
        k > 0,
        deed_at(folder, exe, reports, k - 1) == (Deed::Run {
            command: crate::commands::task_removal(),
        }),
{
    lemma_shape(reports, k);
    lemma_shape(reports, k - 1);
    assert(crate::setup::expected(stage_at(reports, k - 1), reports[k - 1]));
}

/// The command in the list of installed apps is one that the program
/// understands: it names the installed program and a word that removes it.
pub proof fn law_entry_removes_the_program(exe: Seq<char>, folder: Seq<char>)
    ensures
        crate::registry::entry_values(exe, folder)[3] == crate::registry::text_value(
            "UninstallString"@,
            "\""@ + exe + "\" "@ + "uninstall"@,
        ),
        crate::launch::meaning("uninstall"@) == Some(Launch::Uninstall),
{
    reveal_strlit("install");
    reveal_strlit("uninstall");
    reveal_strlit("\" uninstall");
    reveal_strlit("\" ");
    assert("\" uninstall"@ =~= "\" "@ + "uninstall"@);
    assert("\""@ + exe + "\" "@ + "uninstall"@ =~= "\""@ + exe + ("\" "@ + "uninstall"@));
}

/// Whether an action runs a script that deletes this file and, after it, this
/// folder.
pub open spec fn deletes(deed: Deed, file: Seq<char>, folder: Seq<char>) -> bool {
    match deed {
        Deed::Run { command } => {
            &&& command.program == "cmd"@
            &&& command.args.len() == 2 && command.args[0] == "/c"@
            &&& exists|wait: Seq<char>| #[trigger]
                (wait + ("del /q \""@ + file + "\" & rmdir \""@ + folder + "\""@))
                    == command.args[1]
        },
        _ => false,
    }
}

proof fn lemma_deletes(exe: Seq<char>, folder: Seq<char>)
    ensures
        deletes(
            Deed::Run { command: crate::commands::delayed_deletion(exe, folder) },
            exe,
            folder,
        ),
{
    let wait = "ping -n 2 127.0.0.1 >nul & "@;
    reveal_strlit("ping -n 2 127.0.0.1 >nul & ");
    reveal_strlit("ping -n 2 127.0.0.1 >nul & del /q \"");
    reveal_strlit("del /q \"");
    assert("ping -n 2 127.0.0.1 >nul & del /q \""@ =~= wait + "del /q \""@);
    assert(wait + ("del /q \""@ + exe + "\" & rmdir \""@ + folder + "\""@)
        =~= crate::commands::delayed_deletion(exe, folder).args[1]);
}

/// Removing the program undoes what installing it did. An installation begins
/// by creating the folder, and copies the program, if at all, to the file that
/// removing deletes, the folder with it. The task is removed by the name that
/// it was created under, and the entry in the list of installed apps by the key
/// that it was written to. Besides, an installation starts the task and shows
/// messages, and leaves nothing else behind.
pub proof fn law_uninstall_undoes_install(
    pid: nat,
    folder: Seq<char>,
    exe: Seq<char>,
    reports: Seq<Report>,
    k: int,
)
    requires
        proper(reports),
        0 <= k <= reports.len(),
    ensures
        ({
            let removal = crate::setup::uninstall_deeds(pid, folder, exe);
            let deed = deed_at(folder, exe, reports, k);
            let created = crate::commands::task_creation(exe);
            let removed = crate::commands::task_removal();
            let deleted = crate::commands::delayed_deletion(exe, folder);
            &&& created.args[1] == "/tn"@ && removed.args[1] == "/tn"@
            &&& created.args[2] == removed.args[2]
            &&& removal.contains(Deed::Run { command: removed })
            &&& removal.last() == (Deed::Run { command: deleted })
            &&& deletes(removal.last(), exe, folder)
            &&& match stage_at(reports, k) {
                Stage::Locating => k == 0 && deed == (Deed::CreateFolder { path: folder }),
                Stage::Copying => match deed {
                    Deed::CopyProgram { to } => to == exe && deletes(removal.last(), to, folder),
                    _ => false,
                },
                Stage::RemovingTask => deed == (Deed::Run { command: removed }),
                Stage::CreatingTask => deed == (Deed::Run { command: created }),
                Stage::Registering => deed matches Deed::RegisterEntry { key, .. }
                    && removal.contains(Deed::RemoveEntry { key }),
                Stage::StartingTask => deed == (Deed::Run {
                    command: crate::commands::task_start(),
                }),
                Stage::Announcing | Stage::Failing => deed is ShowMessage,
                Stage::Finished => deed is Finish,
            }
        }),
{
    let removal = crate::setup::uninstall_deeds(pid, folder, exe);
    lemma_shape(reports, k);
    lemma_deletes(exe, folder);
    assert(removal[0] == (Deed::Run { command: crate::commands::task_removal() }));
    assert(removal[1] == (Deed::RemoveEntry { key: crate::setup::entry_key() }));
}

/// Installing and removing the program find it at the same place, as long as
/// they run on one platform and the environment names the same folder for
/// local application data: what is removed is what was installed.
pub proof fn law_uninstall_finds_install(
    pid: nat,
    platform: Platform,
    variable: Option<String>,
    installed: (Seq<char>, Seq<char>),
    removed: (Seq<char>, Seq<char>),
)
    requires
        crate::path::lies_at(platform, variable, installed.0, installed.1),
        crate::path::lies_at(platform, variable, removed.0, removed.1),
    ensures
        installed == removed,
        crate::setup::uninstall_deeds(pid, removed.0, removed.1)
            == crate::setup::uninstall_deeds(pid, installed.0, installed.1),
{
}

/// The model of an action holds what the program is told to do.
pub proof fn law_actions_are_performed_as_modelled(action: Action, actions: Seq<Action>, i: int)
    requires
        0 <= i < actions.len(),
    ensures
        match (action, action@) {
            (Action::CreateFolder { path }, Deed::CreateFolder { path: p }) => path@ == p,
            (Action::CopyProgram { to }, Deed::CopyProgram { to: t }) => to@ == t,
            (Action::Run { command }, Deed::Run { command: c }) => command@ == c,
            (
                Action::RegisterEntry { key, exe, folder },
                Deed::RegisterEntry { key: k, exe: e, folder: f },
            ) => key@ == k && exe@ == e && folder@ == f,
            (Action::RemoveEntry { key }, Deed::RemoveEntry { key: k }) => key@ == k,
            (Action::ShowMessage { message }, Deed::ShowMessage { text, title }) => {
                message.text@ == text && message.title@ == title
            },
            (Action::Pause { millis }, Deed::Pause { millis: m }) => millis == m,
            (Action::Finish, Deed::Finish) => true,
            _ => false,
        },
        crate::setup::deeds(actions).len() == actions.len(),
        crate::setup::deeds(actions)[i] == actions[i]@,
{
}

/// What an installation does at each stage, wherever it installs to.
pub proof fn law_each_stage_does_its_part(
    folder: Seq<char>,
    exe: Seq<char>,
    before: Stage,
    report: Report,
)
    ensures
        deed_entering(Stage::Locating, folder, exe, before, report) == (Deed::CreateFolder {
            path: folder,
        }),
        deed_entering(Stage::Copying, folder, exe, before, report) == (Deed::CopyProgram {
            to: exe,
        }),
        deed_entering(Stage::RemovingTask, folder, exe, before, report) == (Deed::Run {
            command: crate::commands::task_removal(),
        }),
        deed_entering(Stage::CreatingTask, folder, exe, before, report) == (Deed::Run {
            command: crate::commands::task_creation(exe),
        }),
        deed_entering(Stage::Registering, folder, exe, before, report) == (Deed::RegisterEntry {
            key: crate::text::wide(r"Software\Microsoft\Windows\CurrentVersion\Uninstall\eee"@),
            exe,
            folder,
        }),
        deed_entering(Stage::StartingTask, folder, exe, before, report) == (Deed::Run {
            command: crate::commands::task_start(),
        }),
        deed_entering(Stage::Announcing, folder, exe, before, report) == (Deed::ShowMessage {
            text: crate::text::wide(
                "eee installed successfully.\n\nLocation: "@ + exe
                    + "\nStartup: Scheduled Task \""@ + "eee"@
                    + "\"\n\nHold Ctrl+Alt+Shift+E for 10s to restart Explorer.\nUninstall from Settings > Apps or run \"eee uninstall\"."@,
            ),
            title: crate::text::wide("eee - Installed"@),
        }),
        deed_entering(Stage::Failing, folder, exe, before, report) is ShowMessage,
        deed_entering(Stage::Failing, folder, exe, before, report)->title == crate::text::wide(
            "eee - Error"@,
        ),
        deed_entering(Stage::Finished, folder, exe, before, report) == Deed::Finish,
{
}

/// A failure is announced with the reason that came back: why the program could
/// not be copied, why the task scheduler could not be run, or what it wrote
/// when it refused.
pub proof fn law_failure_is_explained(
    folder: Seq<char>,
    exe: Seq<char>,
    before: Stage,
    report: Report,
)
    requires
        before == Stage::Copying || before == Stage::CreatingTask,
        report is Failed || report is Refused,
    ensures
        ({
            let shown = deed_entering(Stage::Failing, folder, exe, before, report);
            &&& report is Failed && before == Stage::Copying ==> shown->text == crate::text::wide(
                "Failed to copy exe: "@ + report->reason@,
            )
            &&& report is Failed && before == Stage::CreatingTask ==> shown->text
                == crate::text::wide("Failed to run schtasks: "@ + report->reason@)
            &&& report is Refused ==> shown->text == crate::text::wide(
                "Failed to create scheduled task:\n"@ + crate::setup::utf8_lossy(report->stderr@),
            )
        }),
{
}

/// How an installation goes on after each report: a program that is where it is
/// to be installed is not copied; a failure to copy it, or to create the task,
/// is announced; and nothing else stops the installation.
pub proof fn law_reports_decide_the_next_stage(stage: Stage, report: Report)
    requires
        crate::setup::expected(stage, report),
    ensures
        ({
            let next = crate::setup::stage_after(stage, report);
            match stage {
                Stage::Locating => {
                    let there = report->program.resolved() == report->installed.resolved();
                    &&& there ==> next == Stage::RemovingTask
                    &&& !there ==> next == Stage::Copying
                },
                Stage::Copying => {
                    &&& report is Done ==> next == Stage::RemovingTask
                    &&& report is Failed ==> next == Stage::Failing
                },
                Stage::RemovingTask => next == Stage::CreatingTask,
                Stage::CreatingTask => {
                    &&& report is Done ==> next == Stage::Registering
                    &&& !(report is Done) ==> next == Stage::Failing
                },
                Stage::Registering => next == Stage::StartingTask,
                Stage::StartingTask => next == Stage::Announcing,
                Stage::Announcing | Stage::Failing => next == Stage::Finished,
                Stage::Finished => false,
            }
        }),
{
}

/// Which reports can come back at a stage: where the program lies, after it was
/// looked for; that it was copied or why not; that a program ran, why it did
/// not or what it complained of; and of anything else only that it is done.
pub proof fn law_stages_expect_their_reports(stage: Stage, report: Report)
    ensures
        report is Located ==> (crate::setup::expected(stage, report) <==> stage
            == Stage::Locating),
        report is Done ==> (crate::setup::expected(stage, report) <==> stage != Stage::Locating
            && stage != Stage::Finished),
        report is Failed ==> (crate::setup::expected(stage, report) <==> stage == Stage::Copying
            || stage == Stage::RemovingTask || stage == Stage::CreatingTask || stage
            == Stage::StartingTask),
        report is Refused ==> (crate::setup::expected(stage, report) <==> stage
            == Stage::RemovingTask || stage == Stage::CreatingTask || stage
            == Stage::StartingTask),
{
}

/// A successful installation, action by action: the folder is created, the
/// program copied unless it is there, the old task removed and the new one
/// created, the entry in the list of installed apps written, the task started
/// and success announced.
pub proof fn law_success_goes_through_all_steps(
    folder: Seq<char>,
    exe: Seq<char>,
    reports: Seq<Report>,
)
    requires
        proper(reports),
        stage_at(reports, reports.len() as int) == Stage::Finished,
        deed_at(folder, exe, reports, reports.len() - 1) == message(
            success_text(exe),
            INSTALLED_TITLE@,
        ),
    ensures
        ({
            let there = reports[0]->program.resolved() == reports[0]->installed.resolved();
            let base = if there {
                1int
            } else {
                2int
            };
            &&& reports.len() == base + 5
            &&& deed_at(folder, exe, reports, 0) == (Deed::CreateFolder { path: folder })
            &&& !there ==> deed_at(folder, exe, reports, 1) == (Deed::CopyProgram { to: exe })
                && reports[1] is Done
            &&& deed_at(folder, exe, reports, base) == (Deed::Run {
                command: crate::commands::task_removal(),
            })
            &&& deed_at(folder, exe, reports, base + 1) == (Deed::Run {
                command: crate::commands::task_creation(exe),
            })
            &&& reports[base + 1] is Done
            &&& deed_at(folder, exe, reports, base + 2) is RegisterEntry
            &&& deed_at(folder, exe, reports, base + 3) == (Deed::Run {
                command: crate::commands::task_start(),
            })
            &&& deed_at(folder, exe, reports, base + 5) == Deed::Finish
        }),
{
    let last = reports.len() - 1;
    law_success_is_earned(folder, exe, reports);
    lemma_shape(reports, reports.len() as int);
    lemma_titles_differ();
    assert(in_place(reports) && task_taken(reports)) by {
        if !(in_place(reports) && task_taken(reports)) {
            let before = stage_at(reports, last - 1);
            assert(deed_at(folder, exe, reports, last) == message(
                failure_text(before, reports[last - 1]),
                ERROR_TITLE@,
            ));
            crate::text::law_wide_is_faithful(ERROR_TITLE@, INSTALLED_TITLE@);
        }
    }
    assert(crate::setup::expected(stage_at(reports, 0), reports[0]));
    let base = preparation(reports);
    lemma_shape(reports, 1);
    lemma_shape(reports, 2);
    lemma_shape(reports, base);
    lemma_shape(reports, base + 1);
    lemma_shape(reports, base + 2);
    lemma_shape(reports, base + 3);
}

proof fn lemma_titles_differ()
    ensures
        ERROR_TITLE@ != INSTALLED_TITLE@,
{
    reveal_strlit("eee - Error");
    reveal_strlit("eee - Installed");
    assert(ERROR_TITLE@.len() != INSTALLED_TITLE@.len());
}

/// What a removal does, in this order, wherever the program lies: the task and
/// the entry in the list of installed apps are removed, other instances ended,
/// the removal announced, and the file and its folder deleted.
pub proof fn law_removal_goes_through_all_steps(pid: nat, folder: Seq<char>, exe: Seq<char>)
    ensures
        ({
            let removal = crate::setup::uninstall_deeds(pid, folder, exe);
            &&& removal.len() == 5
            &&& removal[0] == (Deed::Run { command: crate::commands::task_removal() })
            &&& removal[1] == (Deed::RemoveEntry {
                key: crate::text::wide(
                    r"Software\Microsoft\Windows\CurrentVersion\Uninstall\eee"@,
                ),
            })
            &&& removal[2] == (Deed::Run { command: crate::commands::other_instances_end(pid) })
            &&& removal[3] == (Deed::ShowMessage {
                text: crate::text::wide("eee uninstalled successfully."@),
                title: crate::text::wide("eee - Uninstalled"@),
            })
            &&& removal[4] == (Deed::Run {
                command: crate::commands::delayed_deletion(exe, folder),
            })
            &&& deletes(removal[4], exe, folder)
        }),
{
    lemma_deletes(exe, folder);
}

/// Explorer is stopped, half a second passes, and it is started again.
pub proof fn law_explorer_is_stopped_and_started()
    ensures
        crate::setup::restart_deeds().len() == 3,
        crate::setup::restart_deeds()[0] == (Deed::Run {
            command: crate::commands::explorer_stop(),
        }),
        crate::setup::restart_deeds()[1] == (Deed::Pause { millis: 500 }),
        crate::setup::restart_deeds()[2] == (Deed::Run {
            command: crate::commands::explorer_start(),
        }),
{
}

} // verus!
