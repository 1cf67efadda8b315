//! Starting a local database instance and waiting until it answers.
use vstd::prelude::*;

use crate::errors::{BGCError, GEN};
use crate::prelude::GENResult;

verus! {

/// The arguments that start the local database: it listens on
/// `127.0.0.1:8001`, logs in `user` with `pass`, and keeps its records in
/// `bgcat.db` under `data_dir`.
pub fn local_db_start_args(user: &str, pass: &str, data_dir: &str) -> (args: Vec<String>)
    ensures
        args@.len() == 8,
        args@[0]@ == "start"@,
        args@[1]@ == "--user"@,
        args@[2]@ == user@,
        args@[3]@ == "--pass"@,
        args@[4]@ == pass@,
        args@[5]@ == "--bind"@,
        args@[6]@ == "127.0.0.1:8001"@,
        args@[7]@ == "file:"@ + data_dir@ + "/bgcat.db"@,
{
    let mut db_file = String::from_str("file:");
    db_file.append(data_dir);
    db_file.append("/bgcat.db");
    let mut args: Vec<String> = Vec::new();
    args.push(String::from_str("start"));
    args.push(String::from_str("--user"));
    args.push(user.to_string());
    args.push(String::from_str("--pass"));
    args.push(pass.to_string());
    args.push(String::from_str("--bind"));
    args.push(String::from_str("127.0.0.1:8001"));
    args.push(db_file);
    args
}

/// How long, in seconds, the local database is waited for.
pub const DB_WAIT_TIMEOUT_SECS: u64 = 30;

/// How long, in seconds, to sleep between two checks of the local database.
pub const DB_WAIT_SLEEP_SECS: u64 = 5;

/// One check of the local database while waiting for it: done when it is
/// ready; failed with an internal error when it is not and more than
/// `DB_WAIT_TIMEOUT_SECS` have passed; `None`, to sleep and check again,
/// otherwise.
pub fn wait_for_db_step(ready: bool, elapsed_secs: u64) -> (r: Option<GENResult<()>>)
    ensures
        ready ==> r == Some(Ok::<(), BGCError<GEN>>(())),
        !ready && elapsed_secs > DB_WAIT_TIMEOUT_SECS ==> (r matches Some(Err(e))
            && e is InternalError && e.msg()@
            == "Timeout when trying to connect to local DB instance"@),
        !ready && elapsed_secs <= DB_WAIT_TIMEOUT_SECS ==> r is None,
{
    if ready {
        return Some(Ok(()));
    }
    if elapsed_secs > DB_WAIT_TIMEOUT_SECS {
        return Some(
            Err(
                BGCError::InternalError(
                    String::from_str("Timeout when trying to connect to local DB instance"),
                ),
            ),
        );
    }
    None
}

} // verus!
