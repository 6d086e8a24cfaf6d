use eee::launch::{launch, Launch};
use eee::registry::{register_uninstall_entry, RegistryValue, ValueKind};
use eee::text::to_wide;

fn text(name: &str, text: &str) -> RegistryValue {
    let data = to_wide(text).iter().flat_map(|unit| unit.to_le_bytes()).collect();
    RegistryValue { name: to_wide(name), kind: ValueKind::Text, data }
}

fn number(name: &str, number: u32) -> RegistryValue {
    RegistryValue {
        name: to_wide(name),
        kind: ValueKind::Number,
        data: number.to_le_bytes().to_vec(),
    }
}

#[test]
fn the_entry_has_all_values() {
    let entry = register_uninstall_entry(0, "C:\\L\\eee\\eee.exe", "C:\\L\\eee");
    assert_eq!(
        entry,
        Some(vec![
            text("DisplayName", "eee"),
            text("Publisher", "Lev Kropp"),
            text("DisplayVersion", "0.1.0"),
            text("UninstallString", "\"C:\\L\\eee\\eee.exe\" uninstall"),
            text("DisplayIcon", "C:\\L\\eee\\eee.exe"),
            text("InstallLocation", "C:\\L\\eee"),
            text("URLInfoAbout", "https://github.com/levkropp/eee"),
            number("EstimatedSize", 300),
            number("NoModify", 1),
            number("NoRepair", 1),
        ])
    );
}

#[test]
fn texts_are_stored_low_byte_first_with_their_zero() {
    let entry = register_uninstall_entry(0, "\u{2014}", "\u{1F600}").unwrap();
    assert_eq!(entry[4].data, vec![0x14, 0x20, 0, 0]);
    assert_eq!(entry[5].data, vec![0x3D, 0xD8, 0x00, 0xDE, 0, 0]);
}

#[test]
fn numbers_are_stored_low_byte_first() {
    let entry = register_uninstall_entry(0, "", "").unwrap();
    assert_eq!(entry[7].data, vec![0x2C, 0x01, 0, 0]);
    assert_eq!(entry[8].data, vec![1, 0, 0, 0]);
}

#[test]
fn nothing_is_written_without_a_key() {
    assert_eq!(register_uninstall_entry(5, "a", "b"), None);
    assert_eq!(register_uninstall_entry(u32::MAX, "a", "b"), None);
}

#[test]
fn names_of_the_entry_differ() {
    let entry = register_uninstall_entry(0, "a", "b").unwrap();
    for i in 0..entry.len() {
        for j in 0..i {
            assert_ne!(entry[i].name, entry[j].name);
        }
    }
}

#[test]
fn texts_read_back_from_their_bytes() {
    let path = "C:\\Users\\J\u{fc}rgen \u{1F600}\\eee.exe";
    let entry = register_uninstall_entry(0, path, "b").unwrap();
    let units: Vec<u16> = entry[4]
        .data
        .chunks(2)
        .map(|pair| u16::from_le_bytes([pair[0], pair[1]]))
        .collect();
    assert_eq!(String::from_utf16(&units).unwrap(), format!("{}\0", path));
}

#[test]
fn the_entry_names_a_command_that_removes_the_program() {
    let entry = register_uninstall_entry(0, "C:\\e.exe", "C:\\").unwrap();
    let units: Vec<u16> = entry[3]
        .data
        .chunks(2)
        .map(|pair| u16::from_le_bytes([pair[0], pair[1]]))
        .collect();
    let line = String::from_utf16(&units).unwrap();
    let word = line.trim_end_matches('\0').rsplit(' ').next().unwrap().to_string();
    assert_eq!(launch(&vec!["C:\\e.exe".to_string(), word]), Launch::Uninstall);
}
