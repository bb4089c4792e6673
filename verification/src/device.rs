//! The persisted device identifier: the decisions around the value cached
//! in a file under the user's home directory. Reading, generating and
//! writing the value happen outside the crate.

use vstd::prelude::*;
use vstd::string::*;
use crate::text::{trimmed, trim_copy, concat2};
use crate::resolver::{spec_path_join, path_join};

verus! {

/// The error when the machine's device identifier cannot be read.
pub open spec fn spec_device_id_failure_message(cause: Seq<char>) -> Seq<char> {
    "Failed to get device ID: "@ + cause
}

/// Builds [`spec_device_id_failure_message`].
pub fn device_id_failure_message(cause: &str) -> (r: String)
    ensures
        r@ == spec_device_id_failure_message(cause@),
{
    concat2("Failed to get device ID: ", cause)
}

/// The error when the home directory cannot be determined.
pub open spec fn spec_no_home_message() -> Seq<char> {
    "Failed to get home directory"@
}

/// Builds [`spec_no_home_message`].
pub fn no_home_message() -> (r: String)
    ensures
        r@ == spec_no_home_message(),
{
    "Failed to get home directory".to_owned()
}

/// The error when the application directory cannot be created.
pub open spec fn spec_create_dir_failure_message(cause: Seq<char>) -> Seq<char> {
    "Failed to create directory: "@ + cause
}

/// Builds [`spec_create_dir_failure_message`].
pub fn create_dir_failure_message(cause: &str) -> (r: String)
    ensures
        r@ == spec_create_dir_failure_message(cause@),
{
    concat2("Failed to create directory: ", cause)
}

/// The error when the generated identifier cannot be persisted.
pub open spec fn spec_write_id_failure_message(cause: Seq<char>) -> Seq<char> {
    "Failed to write device ID: "@ + cause
}

/// Builds [`spec_write_id_failure_message`].
pub fn write_id_failure_message(cause: &str) -> (r: String)
    ensures
        r@ == spec_write_id_failure_message(cause@),
{
    concat2("Failed to write device ID: ", cause)
}

/// The identifier already persisted, if the stored content is usable: the
/// trimmed file content when that is non-empty, nothing otherwise.
pub fn cached_device_id(content: &Option<String>) -> (r: Option<String>)
    ensures
        match content {
            Some(c) => if trimmed(c@).len() > 0 {
                r is Some && r->0@ == trimmed(c@)
            } else {
                r is None
            },
            None => r is None,
        },
{
    match content {
        Some(c) => {
            let t = trim_copy(c.as_str());
            if t.unicode_len() > 0 {
                Some(t)
            } else {
                None
            }
        },
        None => None,
    }
}

/// The path of the persisted identifier file: `device_id.txt` inside the
/// application directory under `home`.
pub fn device_id_file_path(home: &str) -> (r: String)
    ensures
        r@ == spec_path_join(spec_path_join(home@, ".notegen"@, '/'), "device_id.txt"@, '/'),
{
    let dir = path_join(home, ".notegen", false);
    path_join(dir.as_str(), "device_id.txt", false)
}

} // verus!
