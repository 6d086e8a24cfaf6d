//! What a start of the program is for, and whether it may go on.
use vstd::prelude::*;

verus! {

/// The name of the mutex by which a second instance is noticed.
pub const MUTEX_NAME: &'static str = "Global\\eee_explorer_restart_singleton";

/// The error of a mutex that was there before.
pub const ERROR_ALREADY_EXISTS: u32 = 183;

/// What the program does, or has to find out, next.
#[derive(Clone, Copy, Debug, PartialEq, Eq, Structural)]
pub enum Launch {
    /// Install the program, then exit.
    Install,
    /// Remove the program, then exit.
    Uninstall,
    /// Find out whether the program runs from where it is installed.
    CheckLocation,
    /// Find out whether the program is already running.
    CheckInstance,
    /// Run the overlay.
    Run,
    /// Exit without a word.
    Exit,
}

/// A text in lower case, by the rules of Unicode.
pub uninterp spec fn lowercase(text: Seq<char>) -> Seq<char>;

/// An ASCII letter in lower case; any other character unchanged.
pub open spec fn ascii_lowercase(c: char) -> char {
    if 'A' <= c <= 'Z' {
        (c as int + 32) as char
    } else {
        c
    }
}

/// Calls `str::to_lowercase`. The result depends on the text alone; on ASCII
/// text, only the letters `A` to `Z` change.
#[verifier::external_body]
fn to_lowercase(text: &str) -> (lower: String)
    ensures
        lower@ == lowercase(text@),
        vstd::utf8::is_ascii_chars(text@) ==> lower@ == text@.map_values(
            |c: char| ascii_lowercase(c),
        ),
{
    text.to_lowercase()
}

/// What a command word in lower case asks for.
pub open spec fn meaning(word: Seq<char>) -> Option<Launch> {
    if word == "install"@ {
        Some(Launch::Install)
    } else if word == "uninstall"@ {
        Some(Launch::Uninstall)
    } else {
        None
    }
}

/// Tells what a command word in lower case asks for.
pub fn command(word: &String) -> (launch: Option<Launch>)
    ensures
        launch == meaning(word@),
        launch == Some(Launch::Install) <==> word@ == "install"@,
        launch == Some(Launch::Uninstall) <==> word@ == "uninstall"@,
        launch is None <==> word@ != "install"@ && word@ != "uninstall"@,
{
    proof {
        law_words_are_commands(word@);
    }
    if *word == "install".to_string() {
        Some(Launch::Install)
    } else if *word == "uninstall".to_string() {
        Some(Launch::Uninstall)
    } else {
        None
    }
}

/// What a start without a known command word does first. A start without any
/// arguments may be a double click on a download; one with others is not.
pub open spec fn without_command(args: nat) -> Launch {
    if args == 1 {
        Launch::CheckLocation
    } else {
        Launch::CheckInstance
    }
}

/// Decides what a start is for from its arguments, the first of which is the
/// program's own name. The command word may be in any case.
pub fn launch(args: &Vec<String>) -> (first: Launch)
    ensures
        args@.len() <= 1 ==> first == without_command(args@.len()),
        args@.len() > 1 ==> first == (match meaning(lowercase(args@[1]@)) {
            Some(launch) => launch,
            None => without_command(args@.len()),
        }),
        args@.len() > 1 && vstd::utf8::is_ascii_chars(args@[1]@) ==> first == (match meaning(
            args@[1]@.map_values(|c: char| ascii_lowercase(c)),
        ) {
            Some(launch) => launch,
            None => without_command(args@.len()),
        }),
        first == Launch::Install <==> args@.len() > 1 && lowercase(args@[1]@) == "install"@,
        first == Launch::Uninstall <==> args@.len() > 1 && lowercase(args@[1]@) == "uninstall"@,
        first == Launch::CheckLocation <==> args@.len() == 1,
        first == Launch::CheckInstance <==> args@.len() == 0 || (args@.len() > 1 && lowercase(
            args@[1]@,
        ) != "install"@ && lowercase(args@[1]@) != "uninstall"@),
{
    proof {
        if args@.len() > 1 {
            law_words_are_commands(lowercase(args@[1]@));
        }
    }
    if args.len() > 1 {
        let word = to_lowercase(args[1].as_str());
        if let Some(launch) = command(&word) {
            return launch;
        }
    }
    if args.len() == 1 {
        Launch::CheckLocation
    } else {
        Launch::CheckInstance
    }
}

/// How a start goes on once it is known where the program runs from.
pub open spec fn located(from_install_dir: bool) -> Launch {
    if from_install_dir {
        Launch::CheckInstance
    } else {
        Launch::Install
    }
}

/// Whether creating the mutex showed that there is no other instance.
pub open spec fn is_only_instance(last_error: Option<u32>) -> bool {
    last_error is Some && last_error != Some(ERROR_ALREADY_EXISTS)
}

/// How a start goes on once it is known whether another instance runs.
pub open spec fn instance_checked(only_instance: bool) -> Launch {
    if only_instance {
        Launch::Run
    } else {
        Launch::Exit
    }
}

/// Decides how to go on once it is known where the program runs from: away
/// from where it is installed, it installs itself.
pub fn after_location(from_install_dir: bool) -> (next: Launch)
    ensures
        next == located(from_install_dir),
        from_install_dir ==> next == Launch::CheckInstance,
        !from_install_dir ==> next == Launch::Install,
{
    if from_install_dir {
        Launch::CheckInstance
    } else {
        Launch::Install
    }
}

/// Whether this is the only instance, given what creating the mutex led to:
/// the last error if it could be created or opened, nothing if not.
pub fn acquire_singleton(last_error: Option<u32>) -> (only_instance: bool)
    ensures
        only_instance == is_only_instance(last_error),
        only_instance <==> last_error is Some && last_error->0 != 183,
{
    match last_error {
        Some(error) => error != ERROR_ALREADY_EXISTS,
        None => false,
    }
}

/// Decides how to go on once it is known whether another instance runs: a
/// duplicate exits silently.
pub fn after_instance(only_instance: bool) -> (next: Launch)
    ensures
        next == instance_checked(only_instance),
        only_instance ==> next == Launch::Run,
        !only_instance ==> next == Launch::Exit,
{
    if only_instance {
        Launch::Run
    } else {
        Launch::Exit
    }
}

/// What a start comes to, given its first decision and the answers to what
/// has to be found out.
pub open spec fn outcome(
    first: Launch,
    from_install_dir: bool,
    last_error: Option<u32>,
) -> Launch {
    let second = if first == Launch::CheckLocation {
        located(from_install_dir)
    } else {
        first
    };
    if second == Launch::CheckInstance {
        instance_checked(is_only_instance(last_error))
    } else {
        second
    }
}

/// One word installs, one removes, and no other word is a command.
pub proof fn law_words_are_commands(word: Seq<char>)
    ensures
        meaning(word) == Some(Launch::Install) <==> word == "install"@,
        meaning(word) == Some(Launch::Uninstall) <==> word == "uninstall"@,
        meaning(word) is None <==> word != "install"@ && word != "uninstall"@,
{
    reveal_strlit("install");
    reveal_strlit("uninstall");
    assert("install"@.len() != "uninstall"@.len());
}

/// An ASCII letter in upper case becomes the same letter in lower case, and no
/// other character changes.
pub proof fn law_case_of_letters(c: char)
    ensures
        0x41 <= c as int <= 0x5A ==> ascii_lowercase(c) as int == c as int + 0x20,
        (c as int) < 0x41 || (c as int) > 0x5A ==> ascii_lowercase(c) == c,
{
}

/// The mutex is one for all sessions, and its name the program's own.
pub proof fn law_mutex_is_global()
    ensures
        MUTEX_NAME@ == "Global\\"@ + "eee_explorer_restart_singleton"@,
{
    reveal_strlit("Global\\eee_explorer_restart_singleton");
    reveal_strlit("Global\\");
    reveal_strlit("eee_explorer_restart_singleton");
    assert(MUTEX_NAME@ =~= "Global\\"@ + "eee_explorer_restart_singleton"@);
}

/// How each answer is taken: a program that runs from where it is installed
/// goes on, any other installs itself; and where creating the mutex failed, or
/// found it there already, the program exits.
pub proof fn law_answers_decide(from_install_dir: bool, last_error: Option<u32>)
    ensures
        located(from_install_dir) == (if from_install_dir {
            Launch::CheckInstance
        } else {
            Launch::Install
        }),
        without_command(1) == Launch::CheckLocation,
        forall|args: nat|
            args != 1 ==> #[trigger] without_command(args) == Launch::CheckInstance,
        last_error is None ==> instance_checked(is_only_instance(last_error)) == Launch::Exit,
        last_error == Some(183u32) ==> instance_checked(is_only_instance(last_error))
            == Launch::Exit,
        last_error is Some && last_error->0 != 183 ==> instance_checked(
            is_only_instance(last_error),
        ) == Launch::Run,
{
}

/// Every start comes to an end that leaves nothing to find out. The overlay
/// runs only where no other instance does, a duplicate exits, and a start that
/// names no command installs exactly if it has no arguments and does not run
/// from where the program is installed.
pub proof fn law_single_instance(args: nat, from_install_dir: bool, last_error: Option<u32>)
    ensures
        ({
            let end = outcome(without_command(args), from_install_dir, last_error);
            &&& end == Launch::Install <==> args == 1 && !from_install_dir
            &&& end == Launch::Run <==> !(args == 1 && !from_install_dir) && is_only_instance(
                last_error,
            )
            &&& end == Launch::Exit <==> !(args == 1 && !from_install_dir) && !is_only_instance(
                last_error,
            )
        }),
        outcome(Launch::Install, from_install_dir, last_error) == Launch::Install,
        outcome(Launch::Uninstall, from_install_dir, last_error) == Launch::Uninstall,
{
}

} // verus!
