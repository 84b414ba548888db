//! Where installed Bibles live: one `<name>.cbor` file per Bible
//! in the application's data directory.

use std::path::PathBuf;
use vstd::prelude::*;
use vstd::string::StringExecFns;
use vstd::string::StrSliceExecFns;

verus! {

#[verifier::external_type_specification]
#[verifier::external_body]
pub struct ExPathBuf(PathBuf);

/// `PathBuf::clone`; nothing is stated of the copy.
pub assume_specification[ <PathBuf as Clone>::clone ](p: &PathBuf) -> PathBuf;

/// The directory, under the user's data directory, that belongs to this application.
pub const APP_DATA_DIR: &'static str = "org.barbel.Charist";

/// The directory, inside the application's one, that holds the Bibles.
pub const BIBLES_SUBDIR: &'static str = "bibles";

/// The extension of an installed Bible's file.
pub const BIBLE_FILE_EXTENSION: &'static str = "cbor";

/// An installed Bible: its name (the file's stem) and the file.
#[derive(Debug, Clone)]
pub struct InstalledBible {
    pub name: String,
    pub path: PathBuf,
}

/// Calls `dirs::data_dir`, the user's data directory; what it returns depends
/// on the environment and the platform, so nothing is stated of it.
#[verifier::external_body]
fn user_data_dir() -> Option<PathBuf> {
    dirs::data_dir()
}

/// A path as the library builds it: a base directory and the parts to join
/// below it, in order (the separator is the platform's, so joining is left
/// to the caller).
#[derive(Debug, Clone)]
pub struct AppPath {
    pub base: PathBuf,
    pub parts: Vec<String>,
}

/// The parts of a path, as plain values.
pub open spec fn parts_view(p: AppPath) -> Seq<Seq<char>> {
    p.parts@.map_values(|s: String| s@)
}

/// The parts, below the user data directory, of the directory of the Bibles.
pub open spec fn bibles_dir_parts_spec() -> Seq<Seq<char>> {
    seq![APP_DATA_DIR@, BIBLES_SUBDIR@]
}

/// The parts, below the user data directory, of the file of the Bible called `name`.
pub open spec fn bible_path_parts_spec(name: Seq<char>) -> Seq<Seq<char>> {
    seq![APP_DATA_DIR@, BIBLES_SUBDIR@, bible_file_name_spec(name)]
}

/// The directory that holds the installed Bibles, if the platform has a
/// user data directory: that directory with `org.barbel.Charist/bibles` below it.
pub fn bibles_dir() -> (r: Option<AppPath>)
    ensures
        r matches Some(p) ==> parts_view(p) == bibles_dir_parts_spec(),
{
    bibles_dir_in(user_data_dir())
}

/// The directory that holds the installed Bibles under the user data
/// directory `data_dir`: `<data_dir>/org.barbel.Charist/bibles`; none
/// without a data directory.
pub fn bibles_dir_in(data_dir: Option<PathBuf>) -> (r: Option<AppPath>)
    ensures
        r is Some <==> data_dir is Some,
        r matches Some(p) ==> Some(p.base) == data_dir && parts_view(p) == bibles_dir_parts_spec(),
{
    match data_dir {
        Some(d) => {
            let mut parts: Vec<String> = Vec::new();
            parts.push(APP_DATA_DIR.to_owned());
            parts.push(BIBLES_SUBDIR.to_owned());
            let p = AppPath { base: d, parts };
            assert(parts_view(p) =~= bibles_dir_parts_spec());
            Some(p)
        },
        None => None,
    }
}

/// The file name of the Bible called `name`.
pub open spec fn bible_file_name_spec(name: Seq<char>) -> Seq<char> {
    name + seq!['.'] + BIBLE_FILE_EXTENSION@
}

/// The file name of the Bible called `name`: `<name>.cbor`.
pub fn bible_file_name(name: &str) -> (r: String)
    ensures
        r@ == bible_file_name_spec(name@),
{
    let mut s = name.to_owned();
    s.append(".");
    s.append(BIBLE_FILE_EXTENSION);
    proof {
        reveal_strlit(".");
    }
    assert(s@ =~= bible_file_name_spec(name@));
    s
}

/// The file that holds the Bible called `name`, if the platform has a
/// user data directory: `<data_dir>/org.barbel.Charist/bibles/<name>.cbor`.
pub fn bible_path(name: &str) -> (r: Option<AppPath>)
    ensures
        r matches Some(p) ==> parts_view(p) == bible_path_parts_spec(name@),
{
    bible_path_in(user_data_dir(), name)
}

/// The path parts, below the user data directory, of the file of the Bible
/// called `name`: the application's directory, the Bibles directory and
/// the file name.
pub fn bible_path_parts(name: &str) -> (r: Vec<String>)
    ensures
        r@.map_values(|p: String| p@) == bible_path_parts_spec(name@),
{
    let mut parts: Vec<String> = Vec::new();
    parts.push(APP_DATA_DIR.to_owned());
    parts.push(BIBLES_SUBDIR.to_owned());
    parts.push(bible_file_name(name));
    assert(parts@.map_values(|p: String| p@) =~= bible_path_parts_spec(name@));
    parts
}

/// The file of the Bible called `name` under the user data directory
/// `data_dir`: `data_dir` with `bible_path_parts(name)` below it; none
/// without a data directory.
pub fn bible_path_in(data_dir: Option<PathBuf>, name: &str) -> (r: Option<AppPath>)
    ensures
        r is Some <==> data_dir is Some,
        r matches Some(p) ==> Some(p.base) == data_dir && parts_view(p) == bible_path_parts_spec(
            name@,
        ),
{
    match data_dir {
        Some(d) => Some(AppPath { base: d, parts: bible_path_parts(name) }),
        None => None,
    }
}

/// The Bible name that a file name stands for: the stem of a file
/// whose extension is `cbor` (`Path::extension`), nothing otherwise.
pub open spec fn bible_name_of_file(file_name: Seq<char>) -> Option<Seq<char>> {
    let suffix = seq!['.'] + BIBLE_FILE_EXTENSION@;
    if file_name.len() > suffix.len() && file_name.skip(file_name.len() - suffix.len()) == suffix {
        Some(file_name.take(file_name.len() - suffix.len()))
    } else {
        None
    }
}

/// The Bible whose file is found on disk is the one that was written
/// there: the file name of a Bible with a non-empty name stands for it.
pub proof fn law_file_name_round_trip(name: Seq<char>)
    requires
        name.len() > 0,
    ensures
        bible_name_of_file(bible_file_name_spec(name)) == Some(name),
{
    let f = bible_file_name_spec(name);
    let suffix = seq!['.'] + BIBLE_FILE_EXTENSION@;
    assert(f =~= name + suffix);
    assert(f.skip(f.len() - suffix.len()) =~= suffix);
    assert(f.take(f.len() - suffix.len()) =~= name);
}

/// The name of the Bible in the file `file_name`, if it is a `.cbor` file
/// with a non-empty stem.
pub fn bible_name_from_file_name(file_name: &str) -> (r: Option<String>)
    ensures
        match r {
            Some(n) => bible_name_of_file(file_name@) == Some(n@),
            None => bible_name_of_file(file_name@) is None,
        },
{
    proof {
        reveal_strlit("cbor");
    }
    let ghost suffix = seq!['.'] + BIBLE_FILE_EXTENSION@;
    assert(BIBLE_FILE_EXTENSION@ == "cbor"@);
    assert(suffix =~= seq!['.', 'c', 'b', 'o', 'r']);
    let n = file_name.unicode_len();
    if n <= 5 {
        return None;
    }
    let tail = file_name.substring_char(n - 5, n);
    let t = tail.to_owned();
    let expected = ".cbor".to_owned();
    proof {
        reveal_strlit(".cbor");
    }
    assert(expected@ =~= suffix);
    if t == expected {
        let stem = file_name.substring_char(0, n - 5);
        assert(file_name@.skip(n - 5) =~= tail@);
        assert(file_name@.take(n - 5) =~= stem@);
        Some(stem.to_owned())
    } else {
        assert(file_name@.skip(n - 5) =~= tail@);
        None
    }
}

} // verus!
