use vstd::prelude::*;
use vstd::string::StringExecFns;

verus! {

/// Names the server and channel a message came from, given what the gateway
/// cache yielded: a message without a guild is a direct message, a guild the
/// cache does not hold cannot be named, and otherwise the cached pair of
/// names is the answer.
pub fn get_server_and_channel_name(
    guild_id: Option<u64>,
    cached_names: Option<(String, String)>,
) -> (r: Result<(String, String), String>)
    ensures
        guild_id is None ==> r is Err && r->Err_0@ == "No guild ID"@,
        guild_id is Some && cached_names is None ==> r is Err && r->Err_0@ == "Guild not found"@,
        guild_id is Some && cached_names is Some ==> r == Ok::<(String, String), String>(
            cached_names->0,
        ),
{
    match guild_id {
        None => Err(String::from_str("No guild ID")),
        Some(_) => match cached_names {
            None => Err(String::from_str("Guild not found")),
            Some(names) => Ok(names),
        },
    }
}

} // verus!
