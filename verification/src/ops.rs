//! The fallback watchdog: while the primary cache server answers, the local
//! services stay stopped; when it does not, they are started.
use vstd::prelude::*;
use vstd::string::StringExecFns;

verus! {

/// What the watchdog does with the local services.
pub enum ServiceAction {
    /// The primary server is up: the local services are stopped.
    StopLocal,
    /// The primary server is down or unreachable: the local services start.
    StartLocal,
}

/// The primary server is up when its home page answers 200.
pub fn fallback_action(status: Option<u16>) -> (r: ServiceAction)
    ensures
        status == Some(200u16) <==> r == ServiceAction::StopLocal,
{
    match status {
        Some(200) => ServiceAction::StopLocal,
        _ => ServiceAction::StartLocal,
    }
}

/// The local services that the watchdog stops and starts.
pub fn fallback_units() -> (r: Vec<String>)
    ensures
        r@.len() == 4,
        r@[0]@ == "kactusserver.service"@,
        r@[1]@ == "kactusingest.service"@,
        r@[2]@ == "zotgtfsrt.service"@,
        r@[3]@ == "kactuslacmta.service"@,
{
    let mut v: Vec<String> = Vec::new();
    v.push(String::from_str("kactusserver.service"));
    v.push(String::from_str("kactusingest.service"));
    v.push(String::from_str("zotgtfsrt.service"));
    v.push(String::from_str("kactuslacmta.service"));
    v
}

} // verus!
