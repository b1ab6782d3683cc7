//! The host name that a report carries.
use vstd::prelude::*;

verus! {

/// `hostname::get`: the name that the operating system gives for this
/// machine, or `None` where it gives none. The name depends on the machine,
/// so nothing is stated of it.
#[verifier::external_body]
pub(crate) fn system_hostname() -> Option<String> {
    match hostname::get() {
        Ok(name) => Some(name.to_string_lossy().into_owned()),
        Err(_) => None,
    }
}

/// The host name to report after a lookup: the name that was found, or the
/// empty name where the lookup failed.
pub open spec fn looked_up(lookup: Option<Seq<char>>) -> Seq<char> {
    match lookup {
        Some(name) => name,
        None => Seq::empty(),
    }
}

/// The host name to report after a lookup. A failed lookup is no error: the
/// report then carries an empty host name.
pub fn hostname_from_lookup(lookup: Option<String>) -> (host: String)
    ensures
        host@ == looked_up(
            match lookup {
                Some(name) => Some(name@),
                None => None,
            },
        ),
{
    match lookup {
        Some(name) => name,
        None => String::new(),
    }
}

/// The host name to report: the one the caller gives, or else the one the
/// operating system reports for this machine.
pub fn resolve_hostname(given: Option<&str>) -> (host: String)
    ensures
        given matches Some(name) ==> host@ == name@,
{
    match given {
        Some(name) => name.to_owned(),
        None => hostname_from_lookup(system_hostname()),
    }
}

} // verus!
