//! The service's configuration: where the user file is, the token for the
//! git host, the permission tree and the hook registry.

use vstd::prelude::*;
use crate::access::permissions::Permissions;
use crate::hooks::hooks::HookRegistery;
use crate::text::{last_index, rfind_char, str_to_chars, is_last_index};
use vstd::string::{StringExecFns, StrSliceExecFns};

verus! {

/// The user file used when the configuration names none.
pub fn default_user_file() -> (res: String)
    ensures
        res@ == "users.txt"@,
{
    "users.txt".to_owned()
}

/// Where the user file `user_file` is, for the configuration file at
/// `config_path`: an absolute `user_file` as it is; otherwise `user_file` in
/// the directory of the configuration file, that is after everything of
/// `config_path` up to and including its last `/`.
pub open spec fn spec_user_file_path(config_path: Seq<char>, user_file: Seq<char>) -> Seq<char> {
    if user_file.len() > 0 && user_file[0] == '/' {
        user_file
    } else {
        match last_index(config_path, '/') {
            Some(k) => config_path.take(k + 1) + user_file,
            None => user_file,
        }
    }
}

/// The user file is found beside the configuration file: an absolute user
/// file is taken as it is; a relative one is put after the directory part of
/// the configuration path, that is the part up to and including its last
/// `/`, or after nothing when the configuration path has no `/`.
pub proof fn lemma_user_file_path(config_path: Seq<char>, user_file: Seq<char>)
    ensures
        user_file.len() > 0 && user_file[0] == '/' ==> spec_user_file_path(config_path, user_file)
            == user_file,
        !(user_file.len() > 0 && user_file[0] == '/') ==> exists|d: int|
            0 <= d <= config_path.len() && spec_user_file_path(config_path, user_file)
                == config_path.take(d) + user_file && (d == 0 || config_path[d - 1] == '/')
                && (forall|i: int| d <= i < config_path.len() ==> config_path[i] != '/'),
{
    if !(user_file.len() > 0 && user_file[0] == '/') {
        if exists|k: int| is_last_index(config_path, '/', k) {
            let k = choose|k: int| is_last_index(config_path, '/', k);
            assert(config_path.take(k + 1)[k] == '/');
            assert(0 <= k + 1 <= config_path.len() && spec_user_file_path(config_path, user_file)
                == config_path.take(k + 1) + user_file && (k + 1 == 0 || config_path[k] == '/')
                && (forall|i: int| k + 1 <= i < config_path.len() ==> config_path[i] != '/'));
        } else {
            assert forall|i: int| 0 <= i < config_path.len() implies config_path[i] != '/' by {
                if config_path[i] == '/' {
                    crate::text::lemma_last_index_exists(config_path, '/', i);
                }
            }
            assert(config_path.take(0) + user_file =~= user_file);
        }
    }
}

/// The path of the user file `user_file`, which is relative to the directory
/// of the configuration file at `config_path` unless it is absolute.
pub fn user_file_path(config_path: &str, user_file: &str) -> (res: String)
    ensures
        res@ == spec_user_file_path(config_path@, user_file@),
{
    let file = str_to_chars(user_file);
    if file.len() > 0 && file[0] == '/' {
        return user_file.to_owned();
    }
    let chars = str_to_chars(config_path);
    let sl = chars.as_slice();
    let _len = sl.len();
    match rfind_char(sl, '/') {
        Some(k) => {
            let mut res = config_path.substring_char(0, k + 1).to_owned();
            res.append(user_file);
            res
        },
        None => user_file.to_owned(),
    }
}

/// The configuration of the service.
pub struct Config {
    /// The user file, relative to the configuration file's directory.
    pub user_file: String,
    /// The token the service uses with the git host.
    pub token: String,
    pub permissions: Permissions,
    pub hooks: HookRegistery,
}

} // verus!
