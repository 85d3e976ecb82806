//! Socket addresses as the library reads them.
use crate::text::{decimal, to_decimal};
use vstd::prelude::*;
use vstd::string::*;

verus! {

/// The family of an address.
#[derive(Clone, Copy, Debug, PartialEq, Eq, Structural)]
pub enum Family {
    V4,
    /// The scope id is zero where the address has none.
    V6 { scope_id: u32 },
}

/// An address to test: the text of the IP address, its family and a port.
#[derive(Debug)]
pub struct SocketAddr {
    pub family: Family,
    pub ip: String,
    pub port: u16,
}

/// What a [`SocketAddr`] holds.
pub struct SocketAddrView {
    pub family: Family,
    pub ip: Seq<char>,
    pub port: u16,
}

impl View for SocketAddr {
    type V = SocketAddrView;

    open spec fn view(&self) -> SocketAddrView {
        SocketAddrView { family: self.family, ip: self.ip@, port: self.port }
    }
}

impl SocketAddrView {
    /// The address with its port: `ip:port`, with an IPv6 address in brackets together with its
    /// scope, if it has one.
    pub open spec fn text(self) -> Seq<char> {
        let port = ":"@ + decimal(self.port as nat);
        match self.family {
            Family::V4 => self.ip + port,
            Family::V6 { scope_id } => if scope_id == 0 {
                "["@ + self.ip + "]"@ + port
            } else {
                "["@ + self.ip + "%"@ + decimal(scope_id as nat) + "]"@ + port
            },
        }
    }
}

impl Clone for SocketAddr {
    fn clone(&self) -> (r: Self)
        ensures
            r@ == self@,
    {
        SocketAddr { family: self.family, ip: self.ip.clone(), port: self.port }
    }
}

impl SocketAddr {
    /// Writes the address with its port.
    pub fn to_text(&self) -> (r: String)
        ensures
            r@ == self@.text(),
    {
        let port = ":".to_owned().concat(to_decimal(self.port as u128).as_str());
        match self.family {
            Family::V4 => self.ip.clone().concat(port.as_str()),
            Family::V6 { scope_id } => {
                let open = "[".to_owned().concat(self.ip.as_str());
                if scope_id == 0 {
                    open.concat("]").concat(port.as_str())
                } else {
                    open.concat("%").concat(to_decimal(scope_id as u128).as_str()).concat(
                        "]",
                    ).concat(port.as_str())
                }
            },
        }
    }
}

/// The text of an address ends with a colon and its port. Before that stands the IP address, as it
/// is for IPv4, and in brackets for IPv6; a scope follows it only there, after a percent sign, and
/// only if it is not zero.
pub proof fn address_texts_hold_their_parts(addr: SocketAddrView)
    ensures
        ({
            let t = addr.text();
            let port = decimal(addr.port as nat);
            let host = t.take(t.len() - port.len() - 1);
            let n = addr.ip.len() as int;
            &&& t.len() > port.len()
            &&& t.skip(t.len() - port.len()) == port
            &&& t[t.len() - port.len() - 1] == ':'
            &&& addr.family == Family::V4 ==> host == addr.ip
            &&& addr.family matches Family::V6 { scope_id } ==> {
                &&& host.len() >= n + 2
                &&& host[0] == '['
                &&& host.last() == ']'
                &&& host.subrange(1, 1 + n) == addr.ip
                &&& scope_id == 0 ==> host.len() == n + 2
                &&& scope_id > 0 ==> host[1 + n] == '%' && host.subrange(
                    2 + n,
                    host.len() - 1,
                ) == decimal(scope_id as nat)
            }
        }),
{
    reveal_strlit(":");
    reveal_strlit("[");
    reveal_strlit("]");
    reveal_strlit("%");
    let t = addr.text();
    let port = decimal(addr.port as nat);
    assert(t.skip(t.len() - port.len()) == port);
    let host = t.take(t.len() - port.len() - 1);
    let n = addr.ip.len() as int;
    match addr.family {
        Family::V4 => {
            assert(host == addr.ip);
        },
        Family::V6 { scope_id } => {
            assert(host.subrange(1, 1 + n) == addr.ip);
            if scope_id > 0 {
                assert(host.subrange(2 + n, host.len() - 1) == decimal(
                    scope_id as nat,
                ));
            }
        },
    }
}

} // verus!
