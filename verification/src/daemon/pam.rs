//! Choice of the PAM service.

use vstd::prelude::*;

verus! {

/// The PAM service to authenticate with: the one that was asked for, else the project's own if it
/// is configured, else the system's.
pub fn pam_service(requested: Option<String>, own_service_exists: bool) -> (service: String)
    ensures
        service@ == match requested {
            Some(service) => service@,
            None => if own_service_exists {
                "veila"@
            } else {
                "system-auth"@
            },
        },
{
    match requested {
        Some(service) => service,
        None => if own_service_exists {
            "veila".to_owned()
        } else {
            "system-auth".to_owned()
        },
    }
}

} // verus!
