//! Where the program lies, and whether two places are the same.
//!
//! A path is a list of components, each in the UTF-16 code units that Windows
//! stores it in; two paths are the same if their components are.
use vstd::prelude::*;

verus! {

/// The folder for local application data, where the environment names none.
pub const DEFAULT_LOCAL_APP_DATA: &'static str = r"C:\Users\Med\AppData\Local";

/// The program's own folder, under that for local application data.
pub const INSTALL_FOLDER: &'static str = "eee";

/// The program's file in its folder.
pub const EXE_FILE: &'static str = "eee.exe";

/// The components of a path.
pub type Components = Vec<Vec<u16>>;

/// The model of a path: its components.
pub open spec fn parts(path: Seq<Vec<u16>>) -> Seq<Seq<u16>> {
    path.map_values(|part: Vec<u16>| part@)
}

/// A path, and what the file system resolves it to, if it can.
#[derive(Debug, PartialEq, Eq)]
pub struct Location {
    pub given: Components,
    pub canonical: Option<Components>,
}

impl Location {
    /// The resolved path, or the path as given where it cannot be resolved.
    pub open spec fn resolved(self) -> Seq<Seq<u16>> {
        match self.canonical {
            Some(path) => parts(path@),
            None => parts(self.given@),
        }
    }

    fn components(&self) -> (path: &Components)
        ensures
            parts(path@) == self.resolved(),
    {
        match &self.canonical {
            Some(path) => path,
            None => &self.given,
        }
    }
}

/// What the environment names, or the default.
pub open spec fn data_folder(variable: Option<String>) -> Seq<char> {
    match variable {
        Some(value) => value@,
        None => DEFAULT_LOCAL_APP_DATA@,
    }
}

/// The folder for local application data, given what the environment says.
pub fn local_app_data(variable: Option<String>) -> (folder: String)
    ensures
        folder@ == data_folder(variable),
        variable is Some ==> folder@ == variable->0@,
        variable is None ==> folder@ == r"C:\Users\Med\AppData\Local"@,
{
    match variable {
        Some(value) => value,
        None => DEFAULT_LOCAL_APP_DATA.to_string(),
    }
}

/// Whether a path is in the verbatim form, which Windows treats on its own.
pub open spec fn is_verbatim(path: Seq<char>) -> bool {
    r"\\?\"@.is_prefix_of(path)
}

/// Whether a folder's path is kept as it is when a name is put behind it. A
/// path in verbatim form is kept if it names a folder and has no doubled
/// separator, no `/` and no `.` or `..` as a component.
pub open spec fn is_tidy(folder: Seq<char>) -> bool {
    is_verbatim(folder) ==> {
        &&& folder != r"\\?\"@ && folder != r"\\?\UNC\"@
        &&& forall|i: int|
            3 <= i < folder.len() - 1 ==> !(#[trigger] folder[i] == '\\' && folder[i + 1] == '\\')
        &&& !folder.contains('/')
        &&& forall|i: int, j: int| #[trigger]
            is_component(folder, i, j) ==> folder.subrange(i, j) != "."@ && folder.subrange(i, j)
                != ".."@
    }
}

/// Whether a separator or an end stands on both sides of this part of a path.
pub open spec fn is_component(path: Seq<char>, i: int, j: int) -> bool {
    &&& 0 < i <= j <= path.len()
    &&& path[i - 1] == '\\'
    &&& j == path.len() || path[j] == '\\'
}

/// A name that cannot be taken for more than one component of a path.
pub open spec fn is_plain_name(name: Seq<char>) -> bool {
    &&& name.len() > 0
    &&& forall|i: int|
        0 <= i < name.len() ==> #[trigger] name[i] != '\\' && name[i] != '/' && name[i] != ':'
    &&& name != "."@ && name != ".."@
}

/// The two ways to write a path.
pub enum Platform {
    Windows,
    Unix,
}

/// Whether a path is a drive without a folder, such as `C:`.
pub open spec fn is_drive(path: Seq<char>) -> bool {
    &&& path.len() == 2
    &&& 'a' <= path[0] <= 'z' || 'A' <= path[0] <= 'Z'
    &&& path[1] == ':'
}

/// A folder's path with a name put behind it: directly, if the folder is empty
/// or ends in a separator, or is a drive; else after a separator.
pub open spec fn joined_on(platform: Platform, folder: Seq<char>, name: Seq<char>) -> Seq<char> {
    match platform {
        Platform::Windows => if folder.len() == 0 || folder.last() == '\\' || folder.last() == '/'
            || is_drive(folder) {
            folder + name
        } else {
            folder + r"\"@ + name
        },
        Platform::Unix => if folder.len() == 0 || folder.last() == '/' {
            folder + name
        } else {
            folder + "/"@ + name
        },
    }
}

/// Whether a path is a folder's with a name put behind it, as one of the two
/// platforms does it.
pub open spec fn extends(path: Seq<char>, folder: Seq<char>, name: Seq<char>) -> bool {
    ||| path == joined_on(Platform::Windows, folder, name)
    ||| path == joined_on(Platform::Unix, folder, name)
}

/// Whether the program's folder and file are where the variable puts them, on
/// one platform.
pub open spec fn lies_at(
    platform: Platform,
    variable: Option<String>,
    folder: Seq<char>,
    exe: Seq<char>,
) -> bool {
    &&& folder == joined_on(platform, data_folder(variable), INSTALL_FOLDER@)
    &&& exe == joined_on(platform, folder, EXE_FILE@)
}

/// Whether a path ends in a separator and a name.
pub open spec fn ends_in(path: Seq<char>, name: Seq<char>) -> bool {
    (r"\"@ + name).is_suffix_of(path) || ("/"@ + name).is_suffix_of(path)
}

/// What is known of a folder's path after a name was put behind it: how a path
/// in verbatim form begins only if it is tidy.
pub open spec fn is_joined(path: Seq<char>, folder: Seq<char>, name: Seq<char>) -> bool {
    &&& is_tidy(folder) ==> extends(path, folder, name)
    &&& is_verbatim(folder) ==> ends_in(path, name)
}

/// What is known of the program's folder and file, given what the environment
/// says about the folder for local application data.
pub open spec fn is_placed(
    variable: Option<String>,
    folder: Seq<char>,
    exe: Seq<char>,
) -> bool {
    &&& is_joined(folder, data_folder(variable), INSTALL_FOLDER@)
    &&& is_joined(exe, folder, EXE_FILE@)
    &&& !is_verbatim(data_folder(variable)) ==> extends(
        folder,
        data_folder(variable),
        INSTALL_FOLDER@,
    ) && extends(exe, folder, EXE_FILE@)
}

/// Calls `std::path::Path::join`: a plain name is put behind the folder's
/// path, as Windows does it or as Unix does it, whichever the program runs on.
/// A path in verbatim form, which Windows normalises on the way, ends in a
/// separator and the name; how it begins is left open unless it is tidy.
#[verifier::external_body]
fn join(folder: &str, name: &str) -> (path: String)
    requires
        is_plain_name(name@),
    ensures
        is_joined(path@, folder@, name@),
{
    std::path::Path::new(folder).join(name).to_string_lossy().into_owned()
}

/// The folder that the program is installed into, given what the environment
/// says about the folder for local application data.
pub fn install_dir(variable: Option<String>) -> (folder: String)
    ensures
        is_joined(folder@, data_folder(variable), INSTALL_FOLDER@),
        !is_verbatim(data_folder(variable)) ==> is_tidy(folder@),
        variable is None ==> {
            let data = r"C:\Users\Med\AppData\Local"@;
            folder@ == data + r"\"@ + "eee"@ || folder@ == data + "/"@ + "eee"@
        },
        variable is Some && !r"\\?\"@.is_prefix_of(variable->0@) ==> {
            let data = variable->0@;
            let closed_off = data.len() == 0 || data.last() == '/';
            let drive = data.len() == 2 && data[1] == ':';
            &&& folder@ == data + "eee"@ || folder@ == data + r"\"@ + "eee"@ || folder@ == data
                + "/"@ + "eee"@
            &&& closed_off ==> folder@ == data + "eee"@
            &&& !closed_off && !drive && data.last() != '\\' ==> folder@ != data + "eee"@
        },
{
    proof {
        reveal_strlit("eee");
        reveal_strlit(".");
        reveal_strlit("..");
    }
    let data = local_app_data(variable);
    let folder = join(data.as_str(), INSTALL_FOLDER);
    proof {
        if !is_verbatim(data@) {
            lemma_stays_tidy(folder@, data@);
        }
        reveal_strlit(r"\");
        reveal_strlit("/");
        reveal_strlit(r"\\?\");
        reveal_strlit(r"C:\Users\Med\AppData\Local");
        if variable is None {
            assert(data@[0] == 'C' && r"\\?\"@[0] == '\\');
            assert(!is_verbatim(data@)) by {
                if is_verbatim(data@) {
                    assert(data@.subrange(0, 4)[0] == data@[0]);
                }
            }
        }
    }
    folder
}

/// The program's file in the folder that it is installed into.
pub fn installed_exe(folder: &str) -> (exe: String)
    ensures
        is_joined(exe@, folder@, EXE_FILE@),
        !r"\\?\"@.is_prefix_of(folder@) ==> {
            let closed_off = folder@.len() == 0 || folder@.last() == '/';
            let drive = folder@.len() == 2 && folder@[1] == ':';
            &&& exe@ == folder@ + "eee.exe"@ || exe@ == folder@ + r"\"@ + "eee.exe"@ || exe@
                == folder@ + "/"@ + "eee.exe"@
            &&& closed_off ==> exe@ == folder@ + "eee.exe"@
            &&& !closed_off && !drive && folder@.last() != '\\' ==> exe@ != folder@ + "eee.exe"@
        },
{
    proof {
        reveal_strlit("eee.exe");
        reveal_strlit(".");
        reveal_strlit("..");
        reveal_strlit(r"\");
        reveal_strlit("/");
    }
    join(folder, EXE_FILE)
}

/// Where the environment names a folder for local application data, it is that
/// one, whatever it is; the default is taken only where none is named.
pub proof fn law_environment_decides(variable: Option<String>)
    ensures
        variable is Some ==> data_folder(variable) == variable->0@,
        variable is None ==> data_folder(variable) == r"C:\Users\Med\AppData\Local"@,
{
}

/// A path that extends a folder's by a name begins with the folder's path and
/// ends in the name, with nothing between them or one separator; nothing where
/// the folder's path is empty or ends in `/`, and a separator where it ends in
/// neither a separator nor a drive's colon.
pub proof fn law_name_goes_behind_the_folder(path: Seq<char>, folder: Seq<char>, name: Seq<char>)
    requires
        extends(path, folder, name),
    ensures
        folder.is_prefix_of(path),
        name.is_suffix_of(path),
        path.len() == folder.len() + name.len() || (path.len() == folder.len() + 1 + name.len() && (
        path[folder.len() as int] == '\\' || path[folder.len() as int] == '/')),
        folder.len() == 0 || folder.last() == '/' ==> path == folder + name,
        folder.len() > 0 && folder.last() != '/' && folder.last() != '\\' && folder.last() != ':'
            ==> path.len() == folder.len() + 1 + name.len(),
        folder.len() > 2 && folder.last() == ':' ==> path.len() == folder.len() + 1 + name.len(),
        folder.len() > 0 && folder.last() == '\\' ==> path == folder + name
            || path[folder.len() as int] == '/',
{
    reveal_strlit(r"\");
    reveal_strlit("/");
    assert(path.subrange(0, folder.len() as int) =~= folder);
    assert(path.subrange(path.len() - name.len(), path.len() as int) =~= name);
}

/// Below a folder for local application data that is not in verbatim form, the
/// program's folder is that one with `eee` behind it, and the program's file is
/// `eee.exe` in its folder.
pub proof fn law_program_lies_below_the_data_folder(
    variable: Option<String>,
    folder: Seq<char>,
    exe: Seq<char>,
)
    requires
        is_placed(variable, folder, exe),
        variable is Some && !r"\\?\"@.is_prefix_of(variable->0@),
    ensures
        variable->0@.is_prefix_of(folder),
        "eee"@.is_suffix_of(folder),
        folder.len() <= variable->0@.len() + 1 + "eee"@.len(),
        folder.is_prefix_of(exe),
        "eee.exe"@.is_suffix_of(exe),
        exe.len() == folder.len() + 1 + "eee.exe"@.len(),
        exe[folder.len() as int] == '\\' || exe[folder.len() as int] == '/',
{
    reveal_strlit("eee");
    law_environment_decides(variable);
    law_name_goes_behind_the_folder(folder, variable->0@, "eee"@);
    assert(folder.last() == 'e') by {
        assert(folder.subrange(folder.len() - 3, folder.len() as int)[2] == 'e');
    }
    law_name_goes_behind_the_folder(exe, folder, "eee.exe"@);
}

/// The parts of a path are its components, and what a location resolves to is
/// what the file system says, or the path as given where it says nothing.
pub proof fn law_location_is_what_it_resolves_to(location: Location, i: int)
    ensures
        ({
            let path = if location.canonical is Some {
                location.canonical->0@
            } else {
                location.given@
            };
            &&& location.resolved().len() == path.len()
            &&& 0 <= i < path.len() ==> location.resolved()[i] == path[i]@
        }),
{
}

proof fn lemma_stays_tidy(folder: Seq<char>, data: Seq<char>)
    requires
        !is_verbatim(data),
        extends(folder, data, INSTALL_FOLDER@),
    ensures
        is_tidy(folder),
{
    reveal_strlit("eee");
    reveal_strlit(r"\");
    reveal_strlit("/");
    reveal_strlit(".");
    reveal_strlit("..");
    reveal_strlit(r"\\?\");
    reveal_strlit(r"\\?\UNC\");
    let verbatim = r"\\?\"@;
    if is_verbatim(folder) {
        assert forall|i: int| 0 <= i < 4 implies folder[i] == #[trigger] verbatim[i] by {
            assert(folder.subrange(0, 4)[i] == folder[i]);
        }
        if data.len() >= 4 {
            assert(data.subrange(0, 4) =~= verbatim) by {
                assert forall|i: int| 0 <= i < 4 implies data[i] == #[trigger] verbatim[i] by {
                    assert(folder[i] == data[i]);
                }
            }
        }
        assert(data.len() < 4);
        assert(folder[0] == '\\' && folder[1] == '\\' && folder[2] == '?' && folder[3] == '\\') by {
            assert(verbatim[0] == '\\' && verbatim[1] == '\\' && verbatim[2] == '?' && verbatim[3]
                == '\\');
        }
        assert(data.len() == 3);
        assert(folder =~= data + r"\"@ + "eee"@);
        assert forall|i: int, j: int| #[trigger] is_component(folder, i, j) implies folder.subrange(
            i,
            j,
        ) != "."@ && folder.subrange(i, j) != ".."@ by {
            if i < j {
                assert(folder.subrange(i, j)[0] == folder[i]);
                assert(folder[i] != '.');
            }
            assert("."@[0] == '.' && ".."@[0] == '.');
            assert(folder.subrange(i, j).len() == j - i);
        }
    }
}

fn same_units(a: &Vec<u16>, b: &Vec<u16>) -> (same: bool)
    ensures
        same == (a@ == b@),
{
    if a.len() != b.len() {
        return false;
    }
    for i in 0..a.len()
        invariant
            a.len() == b.len(),
            forall|j: int| 0 <= j < i ==> a@[j] == b@[j],
    {
        if a[i] != b[i] {
            assert(a@[i as int] != b@[i as int]);
            return false;
        }
    }
    assert(a@ =~= b@);
    true
}

/// Whether a path begins with all components of another.
pub fn starts_with(path: &Components, base: &Components) -> (yes: bool)
    ensures
        yes == parts(base@).is_prefix_of(parts(path@)),
        yes <==> base@.len() <= path@.len() && forall|i: int|
            0 <= i < base@.len() ==> (#[trigger] base@[i])@ == path@[i]@,
{
    proof {
        lemma_prefix(path@, base@);
    }
    if base.len() > path.len() {
        return false;
    }
    for i in 0..base.len()
        invariant
            base.len() <= path.len(),
            forall|j: int| 0 <= j < i ==> #[trigger] parts(base@)[j] == parts(path@)[j],
    {
        if !same_units(&base[i], &path[i]) {
            assert(parts(base@)[i as int] != parts(path@)[i as int]);
            return false;
        }
    }
    assert(parts(base@) =~= parts(path@).subrange(0, parts(base@).len() as int));
    true
}

proof fn lemma_prefix(path: Seq<Vec<u16>>, base: Seq<Vec<u16>>)
    ensures
        parts(base).is_prefix_of(parts(path)) <==> base.len() <= path.len() && forall|i: int|
            0 <= i < base.len() ==> (#[trigger] base[i])@ == path[i]@,
{
    if parts(base).is_prefix_of(parts(path)) {
        assert forall|i: int| 0 <= i < base.len() implies (#[trigger] base[i])@ == path[i]@ by {
            assert(parts(base)[i] == parts(path).subrange(0, parts(base).len() as int)[i]);
            assert(parts(path)[i] == path[i]@);
            assert(parts(base)[i] == base[i]@);
        }
    }
    if base.len() <= path.len() && forall|i: int|
        0 <= i < base.len() ==> (#[trigger] base[i])@ == path[i]@ {
        assert forall|i: int| 0 <= i < base.len() implies parts(base)[i] == parts(path)[i] by {
            assert(base[i]@ == path[i]@);
        }
        assert(parts(base) =~= parts(path).subrange(0, parts(base).len() as int));
    }
}

/// Whether the running program lies in the folder where it is installed.
pub fn is_running_from_install_dir(exe: &Location, install_dir: &Location) -> (yes: bool)
    ensures
        yes == install_dir.resolved().is_prefix_of(exe.resolved()),
{
    starts_with(exe.components(), install_dir.components())
}

/// A program anywhere below the folder where it is installed counts as running
/// from there.
pub proof fn law_installed_program_is_noticed(folder: Seq<Seq<u16>>, below: Seq<Seq<u16>>)
    ensures
        folder.is_prefix_of(folder + below),
{
    assert((folder + below).subrange(0, folder.len() as int) =~= folder);
}

/// Whether two locations are one and the same.
pub fn same_location(a: &Location, b: &Location) -> (same: bool)
    ensures
        same == (a.resolved() == b.resolved()),
{
    let (a_path, b_path) = (a.components(), b.components());
    let same = a_path.len() == b_path.len() && starts_with(a_path, b_path);
    assert(same ==> a.resolved() =~= b.resolved());
    assert(a.resolved() == b.resolved() ==> b.resolved().is_prefix_of(a.resolved()));
    same
}

} // verus!
