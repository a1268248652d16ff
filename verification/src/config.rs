//! The configuration of cloudhome, and the local paths that it names.

use vstd::prelude::*;
use crate::error::SyncError;
use crate::json::{
    as_text,
    items_member,
    json_parsed,
    json_text,
    parse_text,
    read_items,
    read_text,
    text_member,
};
use crate::text::texts;

verus! {

/// Where the configuration is kept.
pub const CLOUDHOME_CONFIG_PATH: &'static str = "~/.cloudhome.json";

/// Represent the cloudhome configuration state (read from ~/.cloudhome.json)
#[derive(Clone, Debug, PartialEq, Eq)]
pub struct Config {
    /// The local root directory that is kept in sync.
    pub cloudhome: String,
    /// The credential profile for the object store.
    pub credential_profile: String,
    /// Where the log is written.
    pub log_file: String,
    /// The buckets; each has a directory of its name below the root.
    pub bucket_names: Vec<String>,
}

/// What a `Config` says, as a mathematical value.
pub ghost struct ConfigView {
    pub cloudhome: Seq<char>,
    pub credential_profile: Seq<char>,
    pub log_file: Seq<char>,
    pub bucket_names: Seq<Seq<char>>,
}

impl View for Config {
    type V = ConfigView;

    open spec fn view(&self) -> ConfigView {
        ConfigView {
            cloudhome: self.cloudhome@,
            credential_profile: self.credential_profile@,
            log_file: self.log_file@,
            bucket_names: texts(self.bucket_names@),
        }
    }
}

/// The texts of an array of JSON strings, if each item is a string.
pub open spec fn decoded_names(items: Seq<serde_json::Value>) -> Option<Seq<Seq<char>>> {
    if forall|i: int| 0 <= i < items.len() ==> json_text(#[trigger] items[i]) is Some {
        Some(items.map_values(|item: serde_json::Value| json_text(item)->0))
    } else {
        None
    }
}

/// The configuration that a JSON value stands for: `FormatError` where one
/// of the four members is missing or of another type.
pub open spec fn decoded_config(value: serde_json::Value) -> Result<ConfigView, SyncError> {
    match (
        text_member(value, "cloudhome"@),
        text_member(value, "credential_profile"@),
        text_member(value, "log_file"@),
        items_member(value, "bucket_names"@),
    ) {
        (Some(cloudhome), Some(credential_profile), Some(log_file), Some(items)) => match decoded_names(
            items,
        ) {
            Some(bucket_names) => Ok(
                ConfigView { cloudhome, credential_profile, log_file, bucket_names },
            ),
            None => Err(SyncError::FormatError),
        },
        _ => Err(SyncError::FormatError),
    }
}

/// The configuration that a text stands for: `FormatError` where it is no
/// JSON, or where its value is no configuration.
pub open spec fn config_of_text(text: Seq<char>) -> Result<ConfigView, SyncError> {
    match json_parsed(text) {
        Some(value) => decoded_config(value),
        None => Err(SyncError::FormatError),
    }
}

/// What reading a configuration gave, as a mathematical value.
pub open spec fn configured(read: Result<Config, SyncError>) -> Result<ConfigView, SyncError> {
    match read {
        Ok(config) => Ok(config@),
        Err(error) => Err(error),
    }
}

/// `expanded` is what tilde expansion may make of `path`. A path that is `~`
/// or begins with `~/` or `~\` either stays as it is or has the tilde
/// replaced by a home directory; every other path stays as it is.
pub open spec fn tilde_expansion(path: Seq<char>, expanded: Seq<char>) -> bool {
    if path.len() > 0 && path[0] == '~' && (path.len() == 1 || path[1] == '/' || path[1] == '\\') {
        expanded == path || exists|home: Seq<char>| expanded == #[trigger] (home + path.skip(1))
    } else {
        expanded == path
    }
}

/// Each name below `root`: the root, a slash, the name.
pub open spec fn paths_below(root: Seq<char>, names: Seq<Seq<char>>) -> Seq<Seq<char>> {
    names.map_values(|name: Seq<char>| root + seq!['/'] + name)
}

/// `shellexpand::tilde`: the path with a leading tilde replaced by the home
/// directory of the user, which the environment decides. Where no home
/// directory is known, and on every path that the tilde does not start, the
/// path comes back as it is.
#[verifier::external_body]
fn expand_tilde(path: &str) -> (expanded: String)
    ensures
        tilde_expansion(path@, expanded@),
{
    shellexpand::tilde(path).into_owned()
}

/// The path of `name` below `root`: the root, a slash, the name.
pub fn path_below(root: &str, name: &str) -> (path: String)
    ensures
        path@ == root@ + seq!['/'] + name@,
{
    let mut path = root.to_owned();
    path.append("/");
    path.append(name);
    proof {
        reveal_strlit("/");
    }
    path
}

/// The directory of each bucket below `root`.
pub fn bucket_paths(root: &str, bucket_names: &Vec<String>) -> (paths: Vec<String>)
    ensures
        texts(paths@) == paths_below(root@, texts(bucket_names@)),
{
    let mut paths: Vec<String> = Vec::new();
    let mut i: usize = 0;
    while i < bucket_names.len()
        invariant
            i <= bucket_names.len(),
            paths.len() == i,
            forall|j: int| 0 <= j < i ==> (#[trigger] paths[j])@ == root@ + seq!['/'] + bucket_names[j]@,
        decreases bucket_names.len() - i,
    {
        paths.push(path_below(root, bucket_names[i].as_str()));
        i += 1;
    }
    paths
}

impl Config {
    /// The configuration that a JSON value stands for.
    pub fn from_json(value: &serde_json::Value) -> (decoded: Result<Config, SyncError>)
        ensures
            configured(decoded) == decoded_config(*value),
    {
        let cloudhome = read_text(value, "cloudhome");
        let credential_profile = read_text(value, "credential_profile");
        let log_file = read_text(value, "log_file");
        let items = read_items(value, "bucket_names");
        match (cloudhome, credential_profile, log_file, items) {
            (Some(cloudhome), Some(credential_profile), Some(log_file), Some(items)) => {
                let mut bucket_names: Vec<String> = Vec::new();
                let mut i: usize = 0;
                while i < items.len()
                    invariant
                        i <= items.len(),
                        bucket_names.len() == i,
                        text_member(*value, "cloudhome"@) is Some,
                        text_member(*value, "credential_profile"@) is Some,
                        text_member(*value, "log_file"@) is Some,
                        items_member(*value, "bucket_names"@) == Some(items@),
                        forall|j: int|
                            0 <= j < i ==> json_text(#[trigger] items[j]) == Some(
                                bucket_names[j]@,
                            ),
                    decreases items.len() - i,
                {
                    match as_text(&items[i]) {
                        Some(name) => {
                            bucket_names.push(name.to_owned());
                        },
                        None => {
                            return Err(SyncError::FormatError);
                        },
                    }
                    i += 1;
                }
                assert(decoded_names(items@) == Some(texts(bucket_names@)));
                Ok(Config { cloudhome, credential_profile, log_file, bucket_names })
            },
            _ => Err(SyncError::FormatError),
        }
    }

    /// Parses the text of the configuration file: `FormatError` where it is
    /// no JSON, or where one of the four members is missing or of another
    /// type.
    pub fn read(text: &str) -> (read: Result<Config, SyncError>)
        ensures
            configured(read) == config_of_text(text@),
    {
        match parse_text(text) {
            Ok(value) => Config::from_json(&value),
            Err(_) => Err(SyncError::FormatError),
        }
    }

    /// The local directory of each bucket: its name below the cloudhome
    /// root, in which a leading tilde has been expanded. What the tilde
    /// becomes is for the environment to say.
    pub fn cloudhome_paths(&self) -> (paths: Vec<String>)
        ensures
            exists|root: Seq<char>| #[trigger]
                tilde_expansion(self.cloudhome@, root) && texts(paths@) == paths_below(
                    root,
                    texts(self.bucket_names@),
                ),
    {
        let root = expand_tilde(self.cloudhome.as_str());
        bucket_paths(root.as_str(), &self.bucket_names)
    }
}

} // verus!
