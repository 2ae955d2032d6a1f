//! Where the program keeps its data under the user's home directory, and
//! how the library search path gains the Npcap directory.

use vstd::prelude::*;
use vstd::string::*;
use crate::common::error::SnifferError;
use crate::common::text::{occurs_in, str_contains};
use crate::logging::setup::{ascii_lowered, is_ascii_text, lowercase_of, to_lowercase};

verus! {

/// A location under the user's home directory: the home directory and the
/// path components below it, outermost first.
#[derive(Debug, Clone, PartialEq, Eq)]
pub struct DataPath {
    /// The user's home directory.
    pub home: String,
    /// The components below it.
    pub parts: Vec<String>,
}

/// `p` is the location below `home` reached through `parts`.
pub open spec fn is_location(p: DataPath, home: Seq<char>, parts: Seq<Seq<char>>) -> bool {
    &&& p.home@ == home
    &&& p.parts@.len() == parts.len()
    &&& forall|i: int| 0 <= i < parts.len() ==> (#[trigger] p.parts@[i])@ == parts[i]
}

/// The message of the error given when the home directory is unknown.
pub open spec fn no_home_message() -> Seq<char> {
    "无法获取用户主目录"@
}

/// What a lookup of the location `parts` below the home directory gives:
/// the location where the home directory is known, an error where not.
pub open spec fn located(r: Result<DataPath, SnifferError>, home: Option<&str>, parts: Seq<Seq<char>>) -> bool {
    match home {
        Some(h) => r matches Ok(p) && is_location(p, h@, parts),
        None => r matches Err(SnifferError::ConfigError(m)) && m@ == no_home_message(),
    }
}

/// The name of the data directory under the home directory.
pub open spec fn data_dir_name() -> Seq<char> {
    ".rustsniffer"@
}

/// The location `.rustsniffer` below `home`, or `.rustsniffer/leaf`.
fn data_path(home: Option<&str>, leaf: Option<&str>) -> (r: Result<DataPath, SnifferError>)
    ensures
        match leaf {
            Some(l) => located(r, home, seq![data_dir_name(), l@]),
            None => located(r, home, seq![data_dir_name()]),
        },
{
    proof {
        reveal_strlit(".rustsniffer");
    }
    match home {
        None => Err(SnifferError::ConfigError(String::from_str("无法获取用户主目录"))),
        Some(h) => {
            let mut parts: Vec<String> = Vec::new();
            parts.push(String::from_str(".rustsniffer"));
            match leaf {
                Some(l) => {
                    parts.push(String::from_str(l));
                },
                None => {},
            }
            Ok(DataPath { home: String::from_str(h), parts })
        },
    }
}

/// The data directory `~/.rustsniffer`, given the home directory as the
/// system reports it.
pub fn get_data_dir(home: Option<&str>) -> (r: Result<DataPath, SnifferError>)
    ensures
        located(r, home, seq![data_dir_name()]),
{
    data_path(home, None)
}

/// The capture file directory `~/.rustsniffer/pcap`.
pub fn get_pcap_dir(home: Option<&str>) -> (r: Result<DataPath, SnifferError>)
    ensures
        located(r, home, seq![data_dir_name(), "pcap"@]),
{
    data_path(home, Some("pcap"))
}

/// The log directory `~/.rustsniffer/logs`.
pub fn get_log_dir(home: Option<&str>) -> (r: Result<DataPath, SnifferError>)
    ensures
        located(r, home, seq![data_dir_name(), "logs"@]),
{
    data_path(home, Some("logs"))
}

/// The configuration file `~/.rustsniffer/config.toml`.
pub fn get_config_path(home: Option<&str>) -> (r: Result<DataPath, SnifferError>)
    ensures
        located(r, home, seq![data_dir_name(), "config.toml"@]),
{
    data_path(home, Some("config.toml"))
}

/// The metadata database file `~/.rustsniffer/metadata.db`.
pub fn get_db_path(home: Option<&str>) -> (r: Result<DataPath, SnifferError>)
    ensures
        located(r, home, seq![data_dir_name(), "metadata.db"@]),
{
    data_path(home, Some("metadata.db"))
}

/// The directories that must exist before the program runs, in the order
/// they are created: the data directory, then its capture file and log
/// directories.
pub fn required_dirs(home: Option<&str>) -> (r: Result<Vec<DataPath>, SnifferError>)
    ensures
        match home {
            Some(h) => r matches Ok(v) && v@.len() == 3 && is_location(
                v@[0],
                h@,
                seq![data_dir_name()],
            ) && is_location(v@[1], h@, seq![data_dir_name(), "pcap"@]) && is_location(
                v@[2],
                h@,
                seq![data_dir_name(), "logs"@],
            ),
            None => r matches Err(SnifferError::ConfigError(m)) && m@ == no_home_message(),
        },
{
    let root = get_data_dir(home)?;
    let pcap = get_pcap_dir(home)?;
    let logs = get_log_dir(home)?;
    let mut v: Vec<DataPath> = Vec::new();
    v.push(root);
    v.push(pcap);
    v.push(logs);
    Ok(v)
}

/// For ASCII text: the new search path with `dir` put in front of `path`,
/// or none where `path` already names `dir` regardless of case.
pub open spec fn npcap_path_ascii(dir: Seq<char>, path: Seq<char>) -> Option<Seq<char>> {
    if occurs_in(ascii_lowered(path), ascii_lowered(dir)) {
        None
    } else {
        Some(dir + ";"@ + path)
    }
}

/// The new value of the library search path `current_path` once the Npcap
/// directory `dir` is put in front of it, or `None` where it already names
/// that directory (compared after `str::to_lowercase` on both).
pub fn path_with_npcap(dir: &str, current_path: &str) -> (r: Option<String>)
    ensures
        occurs_in(lowercase_of(current_path@), lowercase_of(dir@)) ==> r is None,
        !occurs_in(lowercase_of(current_path@), lowercase_of(dir@)) ==> (r matches Some(s) && s@
            == dir@ + ";"@ + current_path@),
        is_ascii_text(dir@) && is_ascii_text(current_path@) ==> match r {
            Some(s) => npcap_path_ascii(dir@, current_path@) == Some(s@),
            None => npcap_path_ascii(dir@, current_path@) is None,
        },
{
    let current_lower = to_lowercase(current_path);
    let dir_lower = to_lowercase(dir);
    if str_contains(current_lower.as_str(), dir_lower.as_str()) {
        None
    } else {
        let mut s = String::from_str(dir);
        s.append(";");
        s.append(current_path);
        Some(s)
    }
}

/// Adding the Npcap directory is idempotent for ASCII paths: once the
/// search path has been updated (or found to name the directory already),
/// a second update changes nothing.
pub proof fn lemma_npcap_update_idempotent(dir: Seq<char>, path: Seq<char>)
    requires
        is_ascii_text(dir),
        is_ascii_text(path),
    ensures
        ({
            let after = match npcap_path_ascii(dir, path) {
                Some(n) => n,
                None => path,
            };
            npcap_path_ascii(dir, after) is None
        }),
{
    if npcap_path_ascii(dir, path) is Some {
        let after = dir + ";"@ + path;
        let low = ascii_lowered(after);
        let needle = ascii_lowered(dir);
        assert(low.subrange(0, 0 + needle.len() as int) =~= needle);
        assert(occurs_in(low, needle));
    }
}
} // verus!
