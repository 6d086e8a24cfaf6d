//! The entry in the list of installed apps, as registry values.
use vstd::prelude::*;
use crate::text::to_wide;

verus! {

/// The key of the entry, under the current user's key.
pub const UNINSTALL_KEY: &'static str =
    r"Software\Microsoft\Windows\CurrentVersion\Uninstall\eee";

/// The result of a registry call that succeeded.
pub const ERROR_SUCCESS: u32 = 0;

/// The estimated size of the program, in kilobytes.
pub const ESTIMATED_SIZE: u32 = 300;

#[derive(Clone, Copy, Debug, PartialEq, Eq, Structural)]
pub enum ValueKind {
    /// A zero-terminated wide string.
    Text,
    /// A 32-bit number, its lowest byte first.
    Number,
}

/// A registry value: its name as a wide string, its kind, and its bytes.
#[derive(Debug, PartialEq, Eq)]
pub struct RegistryValue {
    pub name: Vec<u16>,
    pub kind: ValueKind,
    pub data: Vec<u8>,
}

/// The model of a registry value.
pub struct Value {
    pub name: Seq<u16>,
    pub kind: ValueKind,
    pub data: Seq<u8>,
}

impl View for RegistryValue {
    type V = Value;

    open spec fn view(&self) -> Value {
        Value { name: self.name@, kind: self.kind, data: self.data@ }
    }
}

/// The values of a list.
pub open spec fn values(list: Seq<RegistryValue>) -> Seq<Value> {
    list.map_values(|value: RegistryValue| value@)
}

/// The bytes of UTF-16 code units, the lower byte of each first.
pub open spec fn unit_bytes(units: Seq<u16>) -> Seq<u8> {
    Seq::new(
        2 * units.len(),
        |i: int|
            if i % 2 == 0 {
                (units[i / 2] % 256) as u8
            } else {
                (units[i / 2] / 256) as u8
            },
    )
}

/// The bytes of a number, the lowest first.
pub open spec fn number_bytes(n: u32) -> Seq<u8> {
    seq![
        (n % 0x100) as u8,
        (n / 0x100 % 0x100) as u8,
        (n / 0x1_0000 % 0x100) as u8,
        (n / 0x100_0000) as u8,
    ]
}

/// The bytes stored for a text: those of its wide string. Their number is
/// given to the registry in 32 bits, so of a text too long for that only the
/// bytes that the cut number counts are stored.
pub open spec fn text_bytes(text: Seq<char>) -> Seq<u8> {
    let units = crate::text::wide(text);
    unit_bytes(units.take(units.len() as int % 0x8000_0000))
}

pub open spec fn text_value(name: Seq<char>, text: Seq<char>) -> Value {
    Value { name: crate::text::wide(name), kind: ValueKind::Text, data: text_bytes(text) }
}

pub open spec fn number_value(name: Seq<char>, number: u32) -> Value {
    Value { name: crate::text::wide(name), kind: ValueKind::Number, data: number_bytes(number) }
}

/// The command that removes the program: its path in quotes, and a word.
pub open spec fn uninstall_command(exe: Seq<char>) -> Seq<char> {
    "\""@ + exe + "\" uninstall"@
}

/// The values of the entry for a program at `exe`, installed in `folder`.
pub open spec fn entry_values(exe: Seq<char>, folder: Seq<char>) -> Seq<Value> {
    seq![
        text_value("DisplayName"@, "eee"@),
        text_value("Publisher"@, "Lev Kropp"@),
        text_value("DisplayVersion"@, "0.1.0"@),
        text_value("UninstallString"@, uninstall_command(exe)),
        text_value("DisplayIcon"@, exe),
        text_value("InstallLocation"@, folder),
        text_value("URLInfoAbout"@, "https://github.com/levkropp/eee"@),
        number_value("EstimatedSize"@, ESTIMATED_SIZE),
        number_value("NoModify"@, 1),
        number_value("NoRepair"@, 1),
    ]
}

fn to_unit_bytes(units: &Vec<u16>, count: usize) -> (bytes: Vec<u8>)
    requires
        count <= units@.len(),
    ensures
        bytes@ == unit_bytes(units@.take(count as int)),
{
    let mut bytes: Vec<u8> = Vec::new();
    for i in 0..count
        invariant
            count <= units@.len(),
            bytes@ == unit_bytes(units@.take(i as int)),
    {
        let unit: u16 = units[i];
        bytes.push((unit % 256) as u8);
        bytes.push((unit / 256) as u8);
        assert(bytes@ =~= unit_bytes(units@.take(i + 1)));
    }
    bytes
}

fn to_text_bytes(text: &str) -> (bytes: Vec<u8>)
    ensures
        bytes@ == text_bytes(text@),
{
    let units = to_wide(text);
    let count: usize = units.len() % 0x8000_0000;
    to_unit_bytes(&units, count)
}

fn to_number_bytes(n: u32) -> (bytes: Vec<u8>)
    ensures
        bytes@ == number_bytes(n),
{
    vec![
        (n % 0x100) as u8,
        (n / 0x100 % 0x100) as u8,
        (n / 0x1_0000 % 0x100) as u8,
        (n / 0x100_0000) as u8,
    ]
}

fn set_text(list: &mut Vec<RegistryValue>, name: &str, text: &str)
    ensures
        values(final(list)@) == values(old(list)@).push(text_value(name@, text@)),
{
    let value = RegistryValue {
        name: to_wide(name),
        kind: ValueKind::Text,
        data: to_text_bytes(text),
    };
    list.push(value);
    assert(values(list@) =~= values(old(list)@).push(text_value(name@, text@)));
}

fn set_number(list: &mut Vec<RegistryValue>, name: &str, number: u32)
    ensures
        values(final(list)@) == values(old(list)@).push(number_value(name@, number)),
{
    let value = RegistryValue {
        name: to_wide(name),
        kind: ValueKind::Number,
        data: to_number_bytes(number),
    };
    list.push(value);
    assert(values(list@) =~= values(old(list)@).push(number_value(name@, number)));
}

/// Decides what to write into the entry's key, given what creating the key
/// returned: nothing at all, not even a close, where it failed.
pub fn register_uninstall_entry(
    created: u32,
    exe_path: &str,
    install_dir: &str,
) -> (entry: Option<Vec<RegistryValue>>)
    ensures
        entry is Some <==> created == ERROR_SUCCESS,
        entry is Some <==> created == 0,
        entry is Some ==> values(entry->0@) == entry_values(exe_path@, install_dir@),
{
    if created != ERROR_SUCCESS {
        return None;
    }
    let mut list: Vec<RegistryValue> = Vec::new();
    let mut uninstall_string = "\"".to_string();
    uninstall_string.append(exe_path);
    uninstall_string.append("\" uninstall");
    set_text(&mut list, "DisplayName", "eee");
    set_text(&mut list, "Publisher", "Lev Kropp");
    set_text(&mut list, "DisplayVersion", "0.1.0");
    set_text(&mut list, "UninstallString", uninstall_string.as_str());
    set_text(&mut list, "DisplayIcon", exe_path);
    set_text(&mut list, "InstallLocation", install_dir);
    set_text(&mut list, "URLInfoAbout", "https://github.com/levkropp/eee");
    set_number(&mut list, "EstimatedSize", ESTIMATED_SIZE);
    set_number(&mut list, "NoModify", 1);
    set_number(&mut list, "NoRepair", 1);
    assert(values(list@) =~= entry_values(exe_path@, install_dir@));
    Some(list)
}

/// The model of a registry value holds what is handed to the registry, and that
/// of a list its values in their order.
pub proof fn law_values_are_stored_as_modelled(list: Seq<RegistryValue>, i: int)
    requires
        0 <= i < list.len(),
    ensures
        values(list).len() == list.len(),
        values(list)[i].name == list[i].name@,
        values(list)[i].kind == list[i].kind,
        values(list)[i].data == list[i].data@,
{
}

/// What the list of installed apps says of a program, wherever it lies: its
/// name, its author, its version, its icon and its folder, and the command that
/// removes it, which is its path in quotes and a word.
pub proof fn law_entry_describes_the_program(exe: Seq<char>, folder: Seq<char>)
    ensures
        ({
            let entry = entry_values(exe, folder);
            &&& entry.len() == 10
            &&& is_text(entry[0], "DisplayName"@, "eee"@)
            &&& is_text(entry[1], "Publisher"@, "Lev Kropp"@)
            &&& is_text(entry[2], "DisplayVersion"@, "0.1.0"@)
            &&& is_text(entry[3], "UninstallString"@, "\""@ + exe + "\" uninstall"@)
            &&& is_text(entry[4], "DisplayIcon"@, exe)
            &&& is_text(entry[5], "InstallLocation"@, folder)
            &&& is_text(entry[6], "URLInfoAbout"@, "https://github.com/levkropp/eee"@)
            &&& is_number(entry[7], "EstimatedSize"@, 300)
            &&& is_number(entry[8], "NoModify"@, 1)
            &&& is_number(entry[9], "NoRepair"@, 1)
        }),
{
    let entry = entry_values(exe, folder);
    lemma_is_text("DisplayName"@, "eee"@);
    lemma_is_text("Publisher"@, "Lev Kropp"@);
    lemma_is_text("DisplayVersion"@, "0.1.0"@);
    lemma_is_text("UninstallString"@, "\""@ + exe + "\" uninstall"@);
    lemma_is_text("DisplayIcon"@, exe);
    lemma_is_text("InstallLocation"@, folder);
    lemma_is_text("URLInfoAbout"@, "https://github.com/levkropp/eee"@);
    assert(entry[7] == number_value("EstimatedSize"@, 300));
    assert(entry[8] == number_value("NoModify"@, 1));
    assert(entry[9] == number_value("NoRepair"@, 1));
}

/// Whether a value has this name and holds this text: its code units, the
/// terminating zero included, the lower byte of each first. Of a text whose
/// bytes cannot be counted in 32 bits, only as many code units are there as the
/// count leaves.
pub open spec fn is_text(value: Value, name: Seq<char>, text: Seq<char>) -> bool {
    let units = crate::text::wide(text);
    &&& value.kind == ValueKind::Text
    &&& value.name == crate::text::wide(name)
    &&& value.data.len() == (2 * units.len()) % 0x1_0000_0000
    &&& forall|i: int|
        0 <= 2 * i < value.data.len() ==> value.data[2 * i] + 0x100 * value.data[2 * i + 1]
            == #[trigger] units[i]
}

/// Whether a value has this name and holds this number, its lowest byte first.
pub open spec fn is_number(value: Value, name: Seq<char>, number: int) -> bool {
    &&& value.kind == ValueKind::Number
    &&& value.name == crate::text::wide(name)
    &&& value.data.len() == 4
    &&& value.data[0] + 0x100 * value.data[1] + 0x1_0000 * value.data[2] + 0x100_0000
        * value.data[3] == number
}

proof fn lemma_is_text(name: Seq<char>, text: Seq<char>)
    ensures
        is_text(text_value(name, text), name, text),
{
    let units = crate::text::wide(text);
    let count = units.len() as int % 0x8000_0000;
    let data = text_bytes(text);
    assert(data.len() == 2 * count);
    assert forall|i: int| 0 <= 2 * i < data.len() implies data[2 * i] + 0x100 * data[2 * i + 1]
        == #[trigger] units[i] by {
        assert(units.take(count)[i] == units[i]);
        assert((2 * i) / 2 == i && (2 * i + 1) / 2 == i);
        assert(data[2 * i] == (units[i] % 256) as u8);
        assert(data[2 * i + 1] == (units[i] / 256) as u8);
    }
}

/// The names of the entry's values.
pub open spec fn entry_names() -> Seq<Seq<char>> {
    seq![
        "DisplayName"@,
        "Publisher"@,
        "DisplayVersion"@,
        "UninstallString"@,
        "DisplayIcon"@,
        "InstallLocation"@,
        "URLInfoAbout"@,
        "EstimatedSize"@,
        "NoModify"@,
        "NoRepair"@,
    ]
}

/// No value of the entry overwrites another: their names differ.
pub proof fn law_entry_names_differ(exe: Seq<char>, folder: Seq<char>, i: int, j: int)
    requires
        0 <= i < j < entry_values(exe, folder).len(),
    ensures
        entry_values(exe, folder)[i].name != entry_values(exe, folder)[j].name,
{
    reveal_strlit("DisplayName");
    reveal_strlit("Publisher");
    reveal_strlit("DisplayVersion");
    reveal_strlit("UninstallString");
    reveal_strlit("DisplayIcon");
    reveal_strlit("InstallLocation");
    reveal_strlit("URLInfoAbout");
    reveal_strlit("EstimatedSize");
    reveal_strlit("NoModify");
    reveal_strlit("NoRepair");
    let (a, b) = (entry_names()[i], entry_names()[j]);
    assert(entry_values(exe, folder)[i].name == crate::text::wide(a));
    assert(entry_values(exe, folder)[j].name == crate::text::wide(b));
    assert(a.len() != b.len() || a[0] != b[0] || a[2] != b[2] || a[7] != b[7]);
    if crate::text::wide(a) == crate::text::wide(b) {
        crate::text::law_wide_is_faithful(a, b);
    }
}

/// The number that four bytes stand for, the lowest first.
pub open spec fn number_of(bytes: Seq<u8>) -> int {
    bytes[0] + 0x100 * bytes[1] + 0x1_0000 * bytes[2] + 0x100_0000 * bytes[3]
}

/// The code units that bytes stand for, the lower byte of each first.
pub open spec fn units_of(bytes: Seq<u8>) -> Seq<u16> {
    Seq::new(bytes.len() / 2, |i: int| (bytes[2 * i] + 256 * bytes[2 * i + 1]) as u16)
}

/// A number can be read back from its bytes.
pub proof fn law_number_reads_back(n: u32)
    ensures
        number_bytes(n).len() == 4,
        number_of(number_bytes(n)) == n,
        number_bytes(n)[0] + 0x100 * number_bytes(n)[1] + 0x1_0000 * number_bytes(n)[2]
            + 0x100_0000 * number_bytes(n)[3] == n,
{
}

/// A text whose byte count fits into 32 bits can be read back from its bytes:
/// they hold its whole wide string, terminating zero included, and no other
/// text has the same bytes.
pub proof fn law_text_reads_back(text: Seq<char>, other: Seq<char>)
    requires
        crate::text::wide(text).len() < 0x8000_0000,
        crate::text::wide(other).len() < 0x8000_0000,
    ensures
        units_of(text_bytes(text)) == crate::text::wide(text),
        text_bytes(text).len() == 2 * crate::text::wide(text).len(),
        text_bytes(text) == text_bytes(other) ==> text == other,
{
    lemma_units_read_back(text);
    lemma_units_read_back(other);
    if text_bytes(text) == text_bytes(other) {
        crate::text::law_wide_is_faithful(text, other);
    }
}

proof fn lemma_units_read_back(text: Seq<char>)
    requires
        crate::text::wide(text).len() < 0x8000_0000,
    ensures
        units_of(text_bytes(text)) == crate::text::wide(text),
        text_bytes(text).len() == 2 * crate::text::wide(text).len(),
{
    let units = crate::text::wide(text);
    assert(units.take(units.len() as int) =~= units);
    let bytes = unit_bytes(units);
    assert forall|i: int| 0 <= i < units.len() implies #[trigger] units_of(bytes)[i]
        == units[i] by {
        assert((2 * i) / 2 == i && (2 * i + 1) / 2 == i && (2 * i + 1) % 2 == 1);
        assert(bytes[2 * i] == (units[i] % 256) as u8);
        assert(bytes[2 * i + 1] == (units[i] / 256) as u8);
        assert(bytes[2 * i] + 256 * bytes[2 * i + 1] == units[i]);
    }
    assert(units_of(bytes) =~= units);
}

} // verus!
