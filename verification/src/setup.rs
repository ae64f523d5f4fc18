//! What has to exist on disk before the services can run: the directories and
//! files, in the order of their creation, each with its owner and mode.
//!
//! The functions here only lay the plan down. Carrying it out, entry by entry
//! and stopping at the first failure, is left to the caller.

use vstd::prelude::*;
use vstd::string::StringExecFns;

verus! {

/// The permission bits of a directory that everybody may write to, with the sticky bit.
pub const MODE_SHARED_DIR: u32 = 0o1777;

/// The permission bits of a directory that its owner writes and the others read.
pub const MODE_DIR: u32 = 0o755;

/// The permission bits of a directory that owner and group write.
pub const MODE_GROUP_DIR: u32 = 0o775;

/// The permission bits of a file that its owner writes and the others read.
pub const MODE_FILE: u32 = 0o644;

/// What the file that lists the managed configuration files holds when it is first created.
pub const EXAMPLE_CONFIG: &'static str =
    "# Add the configurations to be managed by c8y-configuration-plugin\n\nfiles = [\n#    { path = '/etc/tedge/tedge.toml' },\n#    { path = '/etc/tedge/mosquitto-conf/c8y-bridge.conf', type = 'c8y-bridge.conf' },\n#    { path = '/etc/tedge/mosquitto-conf/tedge-mosquitto.conf', type = 'tedge-mosquitto.conf' },\n#    { path = '/etc/mosquitto/mosquitto.conf', type = 'mosquitto.conf' },\n#    { path = '/etc/tedge/c8y/example.txt', type = 'example', user = 'tedge', group = 'tedge', mode = 0o444 }\n]";

/// Whether an entry is a directory or a regular file.
#[derive(Debug, Clone, Copy, PartialEq, Eq, Structural)]
pub enum EntryKind {
    Directory,
    File,
}

/// One directory or file to create.
#[derive(Debug, Clone, PartialEq, Eq)]
pub struct FsEntry {
    pub kind: EntryKind,
    pub path: String,
    pub user: String,
    pub group: String,
    pub mode: u32,
    /// What a file holds when it is created; `None` for an empty file and for a directory.
    pub content: Option<String>,
}

/// An entry as a mathematical value.
pub struct FsEntrySpec {
    pub kind: EntryKind,
    pub path: Seq<char>,
    pub user: Seq<char>,
    pub group: Seq<char>,
    pub mode: u32,
    pub content: Option<Seq<char>>,
}

impl View for FsEntry {
    type V = FsEntrySpec;

    open spec fn view(&self) -> FsEntrySpec {
        FsEntrySpec {
            kind: self.kind,
            path: self.path@,
            user: self.user@,
            group: self.group@,
            mode: self.mode,
            content: match self.content {
                Some(text) => Some(text@),
                None => None,
            },
        }
    }
}

/// The values of a plan's entries, in order.
pub open spec fn plan_view(plan: Seq<FsEntry>) -> Seq<FsEntrySpec> {
    Seq::new(plan.len(), |i: int| plan[i]@)
}

/// The directory `path`, owned by `user` and `group`.
pub open spec fn spec_directory(
    path: Seq<char>,
    user: Seq<char>,
    group: Seq<char>,
    mode: u32,
) -> FsEntrySpec {
    FsEntrySpec { kind: EntryKind::Directory, path, user, group, mode, content: None }
}

/// The file `path`, owned by `user` and `group`.
pub open spec fn spec_file(
    path: Seq<char>,
    user: Seq<char>,
    group: Seq<char>,
    mode: u32,
    content: Option<Seq<char>>,
) -> FsEntrySpec {
    FsEntrySpec { kind: EntryKind::File, path, user, group, mode, content }
}

/// What the configuration service needs below `config_dir`.
pub open spec fn config_plan(config_dir: Seq<char>) -> Seq<FsEntrySpec> {
    seq![
        spec_directory(config_dir + "/c8y"@, "root"@, "root"@, MODE_SHARED_DIR),
        spec_file(
            config_dir + "/c8y/c8y-configuration-plugin.toml"@,
            "root"@,
            "root"@,
            MODE_FILE,
            Some(EXAMPLE_CONFIG@),
        ),
        spec_directory(config_dir + "/operations/c8y"@, "tedge"@, "tedge"@, MODE_GROUP_DIR),
        spec_file(
            config_dir + "/operations/c8y/c8y_UploadConfigFile"@,
            "tedge"@,
            "tedge"@,
            MODE_FILE,
            None,
        ),
        spec_file(
            config_dir + "/operations/c8y/c8y_DownloadConfigFile"@,
            "tedge"@,
            "tedge"@,
            MODE_FILE,
            None,
        ),
    ]
}

/// What the list of log files holds when it is first created: one entry for the
/// software management logs below `logs_dir`.
pub open spec fn log_plugin_config(logs_dir: Seq<char>) -> Seq<char> {
    "files = [\n    { type = \"software-management\", path = \""@ + logs_dir
        + "/tedge/agent/software-*"@ + "\" },\n]"@
}

/// What the log service needs below `config_dir` and `logs_dir`.
pub open spec fn logs_plan(config_dir: Seq<char>, logs_dir: Seq<char>) -> Seq<FsEntrySpec> {
    seq![
        spec_directory(logs_dir + "/tedge"@, "tedge"@, "tedge"@, MODE_DIR),
        spec_directory(logs_dir + "/tedge/agent"@, "tedge"@, "tedge"@, MODE_DIR),
        spec_directory(config_dir + "/operations"@, "tedge"@, "tedge"@, MODE_DIR),
        spec_directory(config_dir + "/operations/c8y"@, "tedge"@, "tedge"@, MODE_DIR),
        spec_file(
            config_dir + "/operations/c8y/c8y_LogfileRequest"@,
            "tedge"@,
            "tedge"@,
            MODE_FILE,
            None,
        ),
        spec_directory(config_dir + "/c8y"@, "root"@, "root"@, MODE_SHARED_DIR),
        spec_file(
            config_dir + "/c8y/c8y-log-plugin.toml"@,
            "root"@,
            "root"@,
            MODE_FILE,
            Some(log_plugin_config(logs_dir)),
        ),
    ]
}

/// `base` followed by `tail`.
fn path_under(base: &str, tail: &str) -> (path: String)
    ensures
        path@ == base@ + tail@,
{
    String::from_str(base).concat(tail)
}

/// The directory `path`.
fn directory(path: String, owner: &str, mode: u32) -> (entry: FsEntry)
    ensures
        entry@ == spec_directory(path@, owner@, owner@, mode),
{
    FsEntry {
        kind: EntryKind::Directory,
        path,
        user: String::from_str(owner),
        group: String::from_str(owner),
        mode,
        content: None,
    }
}

/// The file `path` with what it holds at first.
fn file(path: String, owner: &str, mode: u32, content: Option<String>) -> (entry: FsEntry)
    ensures
        entry@ == spec_file(
            path@,
            owner@,
            owner@,
            mode,
            match content {
                Some(text) => Some(text@),
                None => None,
            },
        ),
{
    FsEntry {
        kind: EntryKind::File,
        path,
        user: String::from_str(owner),
        group: String::from_str(owner),
        mode,
        content,
    }
}

/// Plans what the configuration service needs below `config_dir`: its
/// directory, open to all, with the list of managed files in it, and the
/// directory of supported operations with one marker file each for upload and
/// download.
pub fn init(config_dir: &str) -> (plan: Vec<FsEntry>)
    ensures
        plan_view(plan@) == config_plan(config_dir@),
{
    let mut plan: Vec<FsEntry> = Vec::new();
    plan.push(directory(path_under(config_dir, "/c8y"), "root", MODE_SHARED_DIR));
    plan.push(
        file(
            path_under(config_dir, "/c8y/c8y-configuration-plugin.toml"),
            "root",
            MODE_FILE,
            Some(String::from_str(EXAMPLE_CONFIG)),
        ),
    );
    plan.push(directory(path_under(config_dir, "/operations/c8y"), "tedge", MODE_GROUP_DIR));
    plan.push(
        file(path_under(config_dir, "/operations/c8y/c8y_UploadConfigFile"), "tedge", MODE_FILE, None),
    );
    plan.push(
        file(
            path_under(config_dir, "/operations/c8y/c8y_DownloadConfigFile"),
            "tedge",
            MODE_FILE,
            None,
        ),
    );
    assert(plan_view(plan@) =~= config_plan(config_dir@));
    plan
}

/// Plans what the log service needs: the directories of the agent's logs below
/// `logs_dir`, the directory of supported operations below `config_dir` with
/// the marker file of the log request, and the service's directory with the
/// list of log files, which names the software management logs.
pub fn create_init_logs_directories_and_files(config_dir: &str, logs_dir: &str) -> (plan: Vec<
    FsEntry,
>)
    ensures
        plan_view(plan@) == logs_plan(config_dir@, logs_dir@),
{
    let mut plan: Vec<FsEntry> = Vec::new();
    plan.push(directory(path_under(logs_dir, "/tedge"), "tedge", MODE_DIR));
    plan.push(directory(path_under(logs_dir, "/tedge/agent"), "tedge", MODE_DIR));
    plan.push(directory(path_under(config_dir, "/operations"), "tedge", MODE_DIR));
    plan.push(directory(path_under(config_dir, "/operations/c8y"), "tedge", MODE_DIR));
    plan.push(
        file(path_under(config_dir, "/operations/c8y/c8y_LogfileRequest"), "tedge", MODE_FILE, None),
    );
    plan.push(directory(path_under(config_dir, "/c8y"), "root", MODE_SHARED_DIR));
    let data = String::from_str("files = [\n    { type = \"software-management\", path = \"").concat(
        logs_dir,
    ).concat("/tedge/agent/software-*").concat("\" },\n]");
    plan.push(
        file(path_under(config_dir, "/c8y/c8y-log-plugin.toml"), "root", MODE_FILE, Some(data)),
    );
    assert(plan_view(plan@) =~= logs_plan(config_dir@, logs_dir@));
    plan
}

} // verus!
