use eee::launch::{acquire_singleton, after_instance, after_location, command, launch, Launch};

fn start(args: &[&str]) -> Launch {
    launch(&args.iter().map(|arg| arg.to_string()).collect())
}

#[test]
fn command_words_are_known() {
    assert_eq!(start(&["eee.exe", "install"]), Launch::Install);
    assert_eq!(start(&["eee.exe", "uninstall"]), Launch::Uninstall);
}

#[test]
fn command_words_may_be_in_any_case() {
    assert_eq!(start(&["eee.exe", "INSTALL"]), Launch::Install);
    assert_eq!(start(&["eee.exe", "UnInstall"]), Launch::Uninstall);
}

#[test]
fn lower_case_follows_unicode() {
    assert_eq!(start(&["eee.exe", "\u{130}NSTALL"]), Launch::CheckInstance);
    assert_eq!(start(&["eee.exe", "IN\u{17F}TALL"]), Launch::CheckInstance);
}

#[test]
fn arguments_after_a_command_word_are_ignored() {
    assert_eq!(start(&["eee.exe", "install", "now"]), Launch::Install);
    assert_eq!(start(&["eee.exe", "now", "install"]), Launch::CheckInstance);
}

#[test]
fn a_bare_start_checks_where_it_is() {
    assert_eq!(start(&["eee.exe"]), Launch::CheckLocation);
    assert_eq!(after_location(true), Launch::CheckInstance);
    assert_eq!(after_location(false), Launch::Install);
}

#[test]
fn other_starts_run_at_once() {
    assert_eq!(start(&["eee.exe", "help"]), Launch::CheckInstance);
    assert_eq!(start(&["eee.exe", ""]), Launch::CheckInstance);
    assert_eq!(start(&["eee.exe", " install"]), Launch::CheckInstance);
    assert_eq!(start(&[]), Launch::CheckInstance);
}

#[test]
fn words_in_lower_case_have_a_meaning() {
    assert_eq!(command(&"install".to_string()), Some(Launch::Install));
    assert_eq!(command(&"uninstall".to_string()), Some(Launch::Uninstall));
    assert_eq!(command(&"INSTALL".to_string()), None);
}

#[test]
fn only_a_new_mutex_makes_the_only_instance() {
    assert!(acquire_singleton(Some(0)));
    assert!(acquire_singleton(Some(5)));
    assert!(!acquire_singleton(Some(183)));
    assert!(!acquire_singleton(None));
}

#[test]
fn duplicates_exit_silently() {
    assert_eq!(after_instance(acquire_singleton(Some(183))), Launch::Exit);
    assert_eq!(after_instance(acquire_singleton(None)), Launch::Exit);
    assert_eq!(after_instance(acquire_singleton(Some(0))), Launch::Run);
}
