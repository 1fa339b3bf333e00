//! Update-agent bookkeeping: the fixed search queries and the platform
//! contract for listing updates. The native update session runs outside.
use vstd::prelude::*;

use crate::error::Error;
use crate::messages::WUAPackage;
use crate::text::{strcat, string_of};

verus! {

/// The search text that lists software updates, hidden ones left out.
pub fn wua_search_query() -> (r: String)
    ensures
        r@ == "IsInstalled=1 or IsInstalled=0 and Type='Software' and IsHidden=0"@,
{
    string_of("IsInstalled=1 or IsInstalled=0 and Type='Software' and IsHidden=0")
}

/// The search text that finds one update by its identifier.
pub fn update_search_query(guid: &str) -> (r: String)
    ensures
        r@ == "UpdateID="@ + guid@,
{
    strcat("UpdateID=", guid)
}

/// The update list a host reports: the collector's packages where a
/// collector ran, the empty list on a platform without one.
pub fn get_win_updates(collected: Option<Vec<WUAPackage>>) -> (r: Result<Vec<WUAPackage>, Error>)
    ensures
        collected matches Some(v) ==> (r matches Ok(out) && out == v),
        collected is None ==> (r matches Ok(out) && out@.len() == 0),
{
    match collected {
        Some(v) => Ok(v),
        None => Ok(Vec::new()),
    }
}

/// How long the installer settles before the restart check, in seconds.
pub const POST_INSTALL_SETTLE_SECS: u64 = 5;

} // verus!
