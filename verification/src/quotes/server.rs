//! A quotes server and the hosts the library knows of.
use vstd::prelude::*;
use crate::internal::helpers::{fmt_int, push_int};
use crate::internal::text::{push_char, push_str};
use crate::quotes::base_consts::QuotesError;

verus! {

pub const HOST_HQ: &'static str = "HQ";
pub const HOST_EX: &'static str = "EX";
pub const HOST_GP: &'static str = "GP";

/// A server: where it was found, its name, host and port, and how long a
/// connection to it took.
#[derive(Clone, Debug, Default)]
pub struct Server {
    pub source: String,
    pub name: String,
    pub host: String,
    pub port: u16,
    pub cross_time: i64,
}

/// `"host:port"`, or nothing when the host is empty or the port zero.
pub open spec fn server_addr(host: Seq<char>, port: u16) -> Seq<char> {
    if host.len() == 0 || port == 0 {
        Seq::empty()
    } else {
        host + seq![':'] + fmt_int(port as int, 1)
    }
}

impl Server {
    /// A server can be connected to when it has a host and a port.
    pub fn is_valid(&self) -> (r: bool)
        ensures
            r == (self.host@.len() > 0 && self.port != 0),
    {
        !self.host.as_str().is_empty() && self.port != 0
    }

    /// The address to connect to.
    pub fn addr(&self) -> (r: String)
        ensures
            r@ == server_addr(self.host@, self.port),
    {
        if self.host.as_str().is_empty() || self.port == 0 {
            String::new()
        } else {
            let mut s = String::new();
            push_str(&mut s, self.host.as_str());
            push_char(&mut s, ':');
            push_int(&mut s, self.port as i64, 1);
            assert(s@ =~= server_addr(self.host@, self.port));
            s
        }
    }
}

/// Measuring the servers of a kind of host is not available: always the
/// `Unimplemented` error.
pub fn get_fast_host(key: &str) -> (r: Result<Vec<Server>, QuotesError>)
    ensures
        r == Err::<Vec<Server>, QuotesError>(QuotesError::Unimplemented("bestip::get_fast_host")),
{
    Err(QuotesError::Unimplemented("bestip::get_fast_host"))
}

} // verus!
