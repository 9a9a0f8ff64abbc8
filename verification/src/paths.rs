//! Where the configuration and the saved session are.
//!
//! A path is the bytes that the system knows it by.

use vstd::prelude::*;

verus! {

/// The name of the directories that hold the program's files.
pub const APP_NAME: &'static str = "nirinit";

/// The entry called `name` in the directory `dir`.
pub open spec fn entry_in(dir: Seq<u8>, name: Seq<char>) -> Seq<u8> {
    let slash = '/' as u8;
    let start = if dir.len() == 0 || dir.last() == slash {
        dir
    } else {
        dir.push(slash)
    };
    start + name.map_values(|c: char| c as u8)
}

/// The entry called `name` in the directory `dir`.
fn entry(dir: &Vec<u8>, name: &str) -> (res: Vec<u8>)
    requires
        name.is_ascii(),
    ensures
        res@ == entry_in(dir@, name@),
{
    broadcast use vstd::string::is_ascii_spec_bytes;

    let mut res: Vec<u8> = Vec::new();
    let mut i: usize = 0;
    while i < dir.len()
        invariant
            i <= dir.len(),
            res@ == dir@.take(i as int),
        decreases dir.len() - i,
    {
        res.push(dir[i]);
        i = i + 1;
    }
    if dir.len() > 0 && dir[dir.len() - 1] != 47 {
        res.push(47);
    }
    let ghost start = res@;
    let bytes: &[u8] = name.as_bytes();
    let ghost all = name@.map_values(|c: char| c as u8);
    assert(bytes@ == all);
    let mut j: usize = 0;
    while j < bytes.len()
        invariant
            j <= bytes.len(),
            bytes@ == all,
            res@ == start + all.take(j as int),
        decreases bytes.len() - j,
    {
        res.push(bytes[j]);
        j = j + 1;
    }
    res
}

/// Why a file has no place.
#[derive(Debug, Clone, Copy, PartialEq, Eq, Structural)]
pub enum PathError {
    /// The user has no directory for configurations.
    NoConfigDir,
    /// The user has no directory for data.
    NoDataDir,
}

impl PathError {
    /// The message that a user sees.
    pub open spec fn spec_message(self) -> Seq<char> {
        match self {
            PathError::NoConfigDir => {
                "Failed to locate the config directory ($XDG_CONFIG_HOME)"@
            },
            PathError::NoDataDir => "Failed to locate the data directory ($XDG_DATA_HOME)"@,
        }
    }

    /// The message that a user sees.
    pub fn message(self) -> (res: &'static str)
        ensures
            res@ == self.spec_message(),
    {
        match self {
            PathError::NoConfigDir => "Failed to locate the config directory ($XDG_CONFIG_HOME)",
            PathError::NoDataDir => "Failed to locate the data directory ($XDG_DATA_HOME)",
        }
    }
}

/// Where a file is, and the directory that is to be made for it first, if any.
#[derive(Debug, PartialEq, Eq)]
pub struct FilePlace {
    pub create_dir: Option<Vec<u8>>,
    pub path: Vec<u8>,
}

/// What a [`FilePlace`] says.
pub struct FilePlaceView {
    pub create_dir: Option<Seq<u8>>,
    pub path: Seq<u8>,
}

impl View for FilePlace {
    type V = FilePlaceView;

    open spec fn view(&self) -> FilePlaceView {
        FilePlaceView { create_dir: self.create_dir.deep_view(), path: self.path@ }
    }
}

/// The file called `name` in the program's own directory under `base`, which is to be made
/// first.
pub open spec fn own_file(base: Seq<u8>, name: Seq<char>) -> FilePlaceView {
    let dir = entry_in(base, APP_NAME@);
    FilePlaceView { create_dir: Some(dir), path: entry_in(dir, name) }
}

fn place_in(base: &Vec<u8>, name: &str) -> (res: FilePlace)
    requires
        name.is_ascii(),
    ensures
        res@ == own_file(base@, name@),
{
    proof {
        reveal_strlit("nirinit");
    }
    let dir: Vec<u8> = entry(base, APP_NAME);
    let path: Vec<u8> = entry(&dir, name);
    let res = FilePlace { create_dir: Some(dir), path };
    assert(res.create_dir->0.deep_view() =~= dir@);
    res
}

/// Resolves the config file path by checking the `--config` flag, then the
/// `NIRINIT_CONFIG` environment variable, and finally falling back to
/// `$XDG_CONFIG_HOME/nirinit/config.toml`.
pub fn config_file(
    config_override: Option<Vec<u8>>,
    config_variable: Option<Vec<u8>>,
    config_dir: Option<Vec<u8>>,
) -> (res: Result<FilePlace, PathError>)
    ensures
        match (config_override, config_variable, config_dir) {
            (Some(path), _, _) => res matches Ok(place) && place@ == (FilePlaceView {
                create_dir: None,
                path: path@,
            }),
            (None, Some(path), _) => res matches Ok(place) && place@ == (FilePlaceView {
                create_dir: None,
                path: path@,
            }),
            (None, None, Some(dir)) => res matches Ok(place) && place@ == own_file(
                dir@,
                "config.toml"@,
            ),
            (None, None, None) => res == Result::<FilePlace, PathError>::Err(
                PathError::NoConfigDir,
            ),
        },
{
    if let Some(path) = config_override {
        return Ok(FilePlace { create_dir: None, path });
    }
    if let Some(path) = config_variable {
        return Ok(FilePlace { create_dir: None, path });
    }
    proof {
        reveal_strlit("config.toml");
    }
    match config_dir {
        Some(dir) => Ok(place_in(&dir, "config.toml")),
        None => Err(PathError::NoConfigDir),
    }
}

/// The file that the session is saved in: `$XDG_DATA_HOME/nirinit/session.json`.
pub fn data_file(data_dir: Option<Vec<u8>>) -> (res: Result<FilePlace, PathError>)
    ensures
        match data_dir {
            Some(dir) => res matches Ok(place) && place@ == own_file(dir@, "session.json"@),
            None => res == Result::<FilePlace, PathError>::Err(PathError::NoDataDir),
        },
{
    proof {
        reveal_strlit("session.json");
    }
    match data_dir {
        Some(dir) => Ok(place_in(&dir, "session.json")),
        None => Err(PathError::NoDataDir),
    }
}

/// An entry of a directory is called by the directory and the name, with exactly one slash
/// between them; the name alone is what it is called in no directory.
pub proof fn law_entry_is_under_its_directory(dir: Seq<u8>, name: Seq<char>)
    ensures
        ({
            let bytes = name.map_values(|c: char| c as u8);
            let slash = seq![0x2fu8];
            &&& entry_in(Seq::empty(), name) == bytes
            &&& entry_in(dir + slash, name) == dir + slash + bytes
            &&& dir.len() > 0 && dir.last() != 0x2f ==> entry_in(dir, name) == dir + slash + bytes
        }),
{
    assert((dir + seq![0x2fu8]).last() == 0x2f);
    assert('/' as u8 == 0x2f);
    assert(dir.push(0x2f) == dir + seq![0x2fu8]);
    let bytes = name.map_values(|c: char| c as u8);
    assert(Seq::<u8>::empty() + bytes == bytes);
}

/// The program's files are in a directory of its own, which is to be made first and is called
/// by the program's name under the user's directory.
pub proof fn law_own_files_share_a_directory(base: Seq<u8>, name: Seq<char>)
    ensures
        own_file(base, name).create_dir == Some(entry_in(base, "nirinit"@)),
        own_file(base, name).path == entry_in(base, "nirinit"@) + seq![0x2fu8] + name.map_values(
            |c: char| c as u8,
        ),
{
    reveal_strlit("nirinit");
    let dir = entry_in(base, "nirinit"@);
    let own = "nirinit"@.map_values(|c: char| c as u8);
    assert(own.len() == 7);
    assert(own.last() == 't' as u8);
    assert(dir.last() == own.last());
    law_entry_is_under_its_directory(dir, name);
}

/// The view of a place holds the path and the directory to make.
pub proof fn law_place_is_shown_whole(place: FilePlace)
    ensures
        place@.path == place.path@,
        place.create_dir matches Some(dir) ==> place@.create_dir == Some(dir@),
        place.create_dir is None ==> place@.create_dir is None,
{
    if let Some(dir) = place.create_dir {
        assert(dir.deep_view() =~= dir@);
    }
}

} // verus!
