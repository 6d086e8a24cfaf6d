use eee::path::{
    install_dir, installed_exe, is_running_from_install_dir, local_app_data, same_location,
    starts_with, Components, Location,
};

fn components(parts: &[&str]) -> Components {
    parts.iter().map(|part| part.encode_utf16().collect()).collect()
}

fn found(parts: &[&str]) -> Location {
    Location { given: components(&["x"]), canonical: Some(components(parts)) }
}

fn lost(parts: &[&str]) -> Location {
    Location { given: components(parts), canonical: None }
}

#[test]
fn the_environment_names_the_data_folder() {
    assert_eq!(local_app_data(Some("D:\\Data".to_string())), "D:\\Data");
    assert_eq!(local_app_data(Some(String::new())), "");
    assert_eq!(local_app_data(None), "C:\\Users\\Med\\AppData\\Local");
}

#[test]
fn a_path_starts_with_whole_components() {
    let dir = components(&["C:", "\\", "eee"]);
    assert!(starts_with(&components(&["C:", "\\", "eee", "eee.exe"]), &dir));
    assert!(starts_with(&dir, &dir));
    assert!(starts_with(&dir, &components(&[])));
    assert!(!starts_with(&components(&["C:", "\\", "eeee", "eee.exe"]), &dir));
    assert!(!starts_with(&components(&["C:", "\\"]), &dir));
    assert!(!starts_with(&components(&["D:", "\\", "eee"]), &dir));
    assert!(!starts_with(&components(&["C:", "\\", "EEE"]), &dir));
}

#[test]
fn running_from_the_install_dir_is_noticed() {
    let dir = found(&["C:", "\\", "Local", "eee"]);
    assert!(is_running_from_install_dir(&found(&["C:", "\\", "Local", "eee", "eee.exe"]), &dir));
    assert!(!is_running_from_install_dir(&found(&["C:", "\\", "Downloads", "eee.exe"]), &dir));
}

#[test]
fn paths_that_cannot_be_resolved_are_taken_as_given() {
    let dir = lost(&["C:", "\\", "Local", "eee"]);
    assert!(is_running_from_install_dir(&lost(&["C:", "\\", "Local", "eee", "eee.exe"]), &dir));
    assert!(is_running_from_install_dir(&found(&["C:", "\\", "Local", "eee", "eee.exe"]), &dir));
    assert!(!is_running_from_install_dir(&lost(&[]), &dir));
}

#[test]
fn one_location_is_the_same_as_itself_only() {
    let exe = found(&["C:", "\\", "eee.exe"]);
    assert!(same_location(&exe, &lost(&["C:", "\\", "eee.exe"])));
    assert!(!same_location(&exe, &found(&["C:", "\\"])));
    assert!(!same_location(&found(&["C:", "\\"]), &exe));
    assert!(!same_location(&exe, &found(&["C:", "\\", "eee.exf"])));
}

#[test]
fn the_program_lies_in_its_own_folder() {
    let data = std::path::Path::new("data").join("local");
    let folder = install_dir(Some(data.to_str().unwrap().to_string()));
    assert_eq!(folder, data.join("eee").to_str().unwrap());
    let exe = installed_exe(&folder);
    assert_eq!(exe, data.join("eee").join("eee.exe").to_str().unwrap());
}

#[test]
fn folders_may_be_empty_or_end_in_a_separator() {
    assert_eq!(install_dir(Some(String::new())), "eee");
    assert_eq!(install_dir(Some("/data/".to_string())), "/data/eee");
    assert_eq!(installed_exe("/"), "/eee.exe");
}

#[test]
fn folders_that_end_in_a_slash_get_no_second_separator() {
    for folder in ["a/", "C:/", "C:\\a/", "\\\\?/"] {
        assert_eq!(install_dir(Some(folder.to_string())), format!("{}eee", folder));
        assert_eq!(installed_exe(folder), format!("{}eee.exe", folder));
    }
}

#[test]
fn other_folders_get_a_separator() {
    for folder in ["a", "a.b", ".", "C:\\a", "\\\\?", "/home/data"] {
        let path = installed_exe(folder);
        let separator = std::path::MAIN_SEPARATOR;
        assert_eq!(path, format!("{}{}eee.exe", folder, separator));
    }
}

#[test]
fn paths_in_verbatim_form_end_in_the_name() {
    for folder in ["\\\\?\\", "\\\\?\\C:\\a", "\\\\?\\C:\\a\\", "\\\\?\\C:\\.\\a"] {
        let path = install_dir(Some(folder.to_string()));
        assert!(path.starts_with("\\\\?\\"));
        assert!(path.ends_with("\\eee") || path.ends_with("/eee"));
    }
    let exe = installed_exe("\\\\?\\C:\\a");
    assert_eq!(exe, format!("\\\\?\\C:\\a{}eee.exe", std::path::MAIN_SEPARATOR));
}

#[test]
fn without_an_environment_the_default_folder_is_used() {
    let folder = install_dir(None);
    assert!(folder.starts_with("C:\\Users\\Med\\AppData\\Local"));
    assert!(folder.ends_with("eee"));
    assert_eq!(folder.len(), "C:\\Users\\Med\\AppData\\Local\\eee".len());
}
