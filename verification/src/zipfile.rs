//! Repacking a downloaded server package without its configuration files:
//! which files go, what the repacked archive is called, and the names its
//! entries get.

use vstd::prelude::*;

use crate::foreign::{regex_captures, regex_captures_of};
use crate::paths::{file_name, file_name_of, join_path, join_path_of, lemma_join_keeps_parts};
use crate::webprocessing::{capture_group, group_of};

verus! {

/// The base name of a downloaded package, such as `bedrock-server-1.20.1` in
/// `bedrock-server-1.20.1.zip`.
pub const PACKAGE_NAME_PATTERN: &'static str = "(bedrock-server-\\d+\\.\\d+\\.\\d+)\\.zip";

/// The configuration files, relative to the package root, that the repacked
/// archive must not hold: the server keeps its own.
pub open spec fn conf_files() -> Seq<Seq<char>> {
    seq![
        "allowlist.json"@,
        "config/default/permissions.json"@,
        "permissions.json"@,
        "server.properties"@,
    ]
}

/// Paths of the configuration files of a package unpacked in `directory`.
pub open spec fn conf_paths_of(directory: Seq<char>) -> Seq<Seq<char>> {
    conf_files().map_values(|f: Seq<char>| join_path_of(directory, f))
}

/// The stripped archive's name for a match of `PACKAGE_NAME_PATTERN`.
pub open spec fn stripped_name_from_of(caps: Option<Seq<Option<Seq<char>>>>) -> Option<
    Seq<char>,
> {
    match group_of(caps, 1) {
        Some(base) => Some(base + "-stripped.zip"@),
        None => None,
    }
}

/// The stripped archive's name for the package downloaded to `download`.
pub open spec fn stripped_name_of(download: Seq<char>) -> Option<Seq<char>> {
    match file_name_of(download) {
        Some(name) => stripped_name_from_of(regex_captures_of(PACKAGE_NAME_PATTERN@, name)),
        None => None,
    }
}

/// Whether `s` begins with `prefix`.
pub open spec fn starts_with(s: Seq<char>, prefix: Seq<char>) -> bool {
    prefix.len() <= s.len() && s.subrange(0, prefix.len() as int) == prefix
}

/// The paths of the configuration files to delete from the package unpacked
/// in `unzip_directory`: `allowlist.json`, `config/default/permissions.json`,
/// `permissions.json` and `server.properties`.
pub fn remove_conf_files(unzip_directory: &String) -> (res: Vec<String>)
    ensures
        res.deep_view() == conf_paths_of(unzip_directory@),
{
    let dir = unzip_directory.as_str();
    let mut paths: Vec<String> = Vec::new();
    paths.push(join_path(dir, "allowlist.json"));
    paths.push(join_path(dir, "config/default/permissions.json"));
    paths.push(join_path(dir, "permissions.json"));
    paths.push(join_path(dir, "server.properties"));
    assert(paths.deep_view() =~= conf_paths_of(unzip_directory@));
    paths
}

/// The stripped archive's name from a match of `PACKAGE_NAME_PATTERN`: the
/// base name with `-stripped.zip` after it.
pub fn stripped_name_from_captures(caps: &Option<Vec<Option<String>>>) -> (res: Option<String>)
    ensures
        res.deep_view() == stripped_name_from_of(caps.deep_view()),
{
    match capture_group(caps, 1) {
        Some(base) => {
            let mut name = base;
            name.append("-stripped.zip");
            Some(name)
        },
        None => None,
    }
}

/// The name of the stripped archive made from the package downloaded to
/// `server_download`, such as `bedrock-server-1.20.1-stripped.zip`.
pub fn zip_package(server_download: &String) -> (res: String)
    requires
        stripped_name_of(server_download@) is Some,
    ensures
        res@ == stripped_name_of(server_download@).unwrap(),
{
    match stripped_package_name(server_download) {
        Some(name) => name,
        None => {
            assert(false);
            String::new()
        },
    }
}

fn stripped_package_name(server_download: &String) -> (res: Option<String>)
    ensures
        res.deep_view() == stripped_name_of(server_download@),
{
    match file_name(server_download.as_str()) {
        Some(name) => {
            let caps = regex_captures(PACKAGE_NAME_PATTERN, name.as_str());
            stripped_name_from_captures(&caps)
        },
        None => None,
    }
}

/// The name of the stripped archive, `None` when the download's file name is
/// not that of a server package.
pub fn stripped_archive_name(server_download: &String) -> (res: Option<String>)
    ensures
        res.deep_view() == stripped_name_of(server_download@),
{
    if stripped_package_name(server_download).is_some() {
        Some(zip_package(server_download))
    } else {
        None
    }
}

/// The name an archive entry gets for the file at `file_path` under
/// `source_directory`: its path relative to that directory.
pub fn zip_entry_name(file_path: &String, source_directory: &String) -> (res: String)
    requires
        starts_with(file_path@, source_directory@ + "/"@),
    ensures
        res@ == file_path@.subrange(source_directory@.len() as int + 1, file_path@.len() as int),
{
    proof {
        reveal_strlit("/");
    }
    let end = file_path.as_str().unicode_len();
    let start = source_directory.as_str().unicode_len() + 1;
    String::from_str(file_path.as_str().substring_char(start, end))
}

/// The stripped archive's name is the whole matched base name followed by
/// `-stripped.zip`: it begins with that base, is 13 characters longer, and
/// different base names give different archive names. No base name, no
/// archive name.
pub proof fn lemma_stripped_name_keeps_base(
    caps: Option<Seq<Option<Seq<char>>>>,
    other: Option<Seq<Option<Seq<char>>>>,
)
    ensures
        stripped_name_from_of(caps) is None <==> group_of(caps, 1) is None,
        group_of(caps, 1) matches Some(base) ==> {
            let name = stripped_name_from_of(caps).unwrap();
            &&& name.len() == base.len() + 13
            &&& name.take(base.len() as int) == base
            &&& name.skip(base.len() as int) == "-stripped.zip"@
        },
        stripped_name_from_of(caps) is Some && stripped_name_from_of(caps) == stripped_name_from_of(
            other,
        ) ==> group_of(caps, 1) == group_of(other, 1),
{
    reveal_strlit("-stripped.zip");
    if let Some(base) = group_of(caps, 1) {
        let name = stripped_name_from_of(caps).unwrap();
        assert(name.take(base.len() as int) =~= base);
        assert(name.skip(base.len() as int) =~= "-stripped.zip"@);
        if stripped_name_from_of(caps) == stripped_name_from_of(other) {
            let b2 = group_of(other, 1).unwrap();
            assert(name.take(b2.len() as int) =~= b2);
            assert(base =~= b2);
        }
    }
}

/// Whether `path` lies under `directory` and ends with `name`, joined by at
/// most one `/`.
pub open spec fn path_under(directory: Seq<char>, path: Seq<char>, name: Seq<char>) -> bool {
    &&& path.take(directory.len() as int) == directory
    &&& path.skip(path.len() - name.len()) == name
    &&& name.len() <= path.len() <= directory.len() + name.len() + 1
}

proof fn lemma_join_under(directory: Seq<char>, name: Seq<char>)
    requires
        name.len() > 0,
        name[0] != '/',
    ensures
        path_under(directory, join_path_of(directory, name), name),
{
    lemma_join_keeps_parts(directory, name);
}

/// Four configuration files are removed, each a path under the unpacked
/// directory that ends with the file's relative path: `allowlist.json`,
/// `config/default/permissions.json`, `permissions.json` and
/// `server.properties`, in that order.
pub proof fn lemma_conf_paths_under_directory(directory: Seq<char>)
    ensures
        conf_paths_of(directory).len() == 4,
        path_under(directory, conf_paths_of(directory)[0], "allowlist.json"@),
        path_under(directory, conf_paths_of(directory)[1], "config/default/permissions.json"@),
        path_under(directory, conf_paths_of(directory)[2], "permissions.json"@),
        path_under(directory, conf_paths_of(directory)[3], "server.properties"@),
{
    reveal_strlit("allowlist.json");
    lemma_join_under(directory, "allowlist.json"@);
    reveal_strlit("config/default/permissions.json");
    lemma_join_under(directory, "config/default/permissions.json"@);
    reveal_strlit("permissions.json");
    lemma_join_under(directory, "permissions.json"@);
    reveal_strlit("server.properties");
    lemma_join_under(directory, "server.properties"@);
}

} // verus!
