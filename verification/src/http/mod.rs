//! What HTTP clients ask for and get.

pub mod dto;
pub mod routes;

use vstd::prelude::*;

verus! {

/// The address to listen on: the environment's choice, else port 6699 of the loopback.
pub fn bind_address(chosen: Option<String>) -> (address: String)
    ensures
        match chosen {
            Some(chosen) => address == chosen,
            None => address@ == "127.0.0.1:6699"@,
        },
{
    match chosen {
        Some(chosen) => chosen,
        None => "127.0.0.1:6699".to_owned(),
    }
}

/// The environment's choice is taken as it is.
pub proof fn chosen_address_is_taken(chosen: Option<String>, address: String)
    requires
        call_ensures(bind_address, (chosen,), address),
    ensures
        chosen matches Some(text) ==> address@ == text@,
        chosen is None ==> address@ == "127.0.0.1:6699"@,
{
}

}
