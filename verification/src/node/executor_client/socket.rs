//! Addresses of the executor's sockets.
use crate::text::{begins_with, contains_char, has_prefix, skip_chars};
use vstd::prelude::*;
use vstd::string::*;

verus! {

/// Where the executor listens.
#[derive(Clone, Debug)]
pub enum SocketAddress {
    /// A path in the file system.
    Unix(String),
    /// An IP address and a port.
    Tcp(String),
}

/// The value of a [`SocketAddress`].
pub enum AddressValue {
    Unix(Seq<char>),
    Tcp(Seq<char>),
}

impl View for SocketAddress {
    type V = AddressValue;

    open spec fn view(&self) -> AddressValue {
        match self {
            SocketAddress::Unix(p) => AddressValue::Unix(p@),
            SocketAddress::Tcp(a) => AddressValue::Tcp(a@),
        }
    }
}

/// The text is no IP address with a port.
#[derive(Clone, Debug)]
pub struct InvalidTcpAddress {
    pub text: String,
}

/// The text of an address after a prefix.
pub open spec fn after_prefix(s: Seq<char>, p: Seq<char>) -> Seq<char> {
    s.subrange(p.len() as int, s.len() as int)
}

/// What an address says: a path, or text that has to be an IP address with a
/// port. `tcp://` and `unix://` decide; without them an address with a colon
/// that does not start with a slash is such text too.
pub open spec fn address_form(s: Seq<char>) -> AddressValue {
    if begins_with(s, "tcp://"@) {
        AddressValue::Tcp(after_prefix(s, "tcp://"@))
    } else if begins_with(s, "unix://"@) {
        AddressValue::Unix(after_prefix(s, "unix://"@))
    } else if s.contains(':') && !begins_with(s, "/"@) {
        AddressValue::Tcp(s)
    } else {
        AddressValue::Unix(s)
    }
}

/// The text of an optional text.
pub open spec fn optional_text(t: Option<String>) -> Option<Seq<char>> {
    match t {
        Some(s) => Some(s@),
        None => None,
    }
}

impl SocketAddress {
    /// What an address says, see [`address_form`].
    pub fn classify(addr: &str) -> (a: SocketAddress)
        ensures
            a@ == address_form(addr@),
    {
        if has_prefix(addr, "tcp://") {
            proof {
                reveal_strlit("tcp://");
            }
            SocketAddress::Tcp(skip_chars(addr, 6))
        } else if has_prefix(addr, "unix://") {
            proof {
                reveal_strlit("unix://");
            }
            SocketAddress::Unix(skip_chars(addr, 7))
        } else if contains_char(addr, ':') && !has_prefix(addr, "/") {
            SocketAddress::Tcp(String::from_str(addr))
        } else {
            SocketAddress::Unix(String::from_str(addr))
        }
    }

    /// Reads an address. `resolved` is the form that the text of an IP address
    /// with a port has, `None` if it is none; it is not looked at for a path.
    pub fn parse(addr: &str, resolved: Option<String>) -> (r: Result<
        SocketAddress,
        InvalidTcpAddress,
    >)
        ensures
            match address_form(addr@) {
                AddressValue::Unix(p) => r matches Ok(a) && a@ == AddressValue::Unix(p),
                AddressValue::Tcp(t) => match optional_text(resolved) {
                    Some(f) => r matches Ok(a) && a@ == AddressValue::Tcp(f),
                    None => r matches Err(e) && e.text@ == t,
                },
            },
    {
        match SocketAddress::classify(addr) {
            SocketAddress::Unix(p) => Ok(SocketAddress::Unix(p)),
            SocketAddress::Tcp(text) => match resolved {
                Some(f) => Ok(SocketAddress::Tcp(f)),
                None => Err(InvalidTcpAddress { text }),
            },
        }
    }

    /// Reads an address; what cannot be read is taken as a path.
    pub fn parse_or_path(addr: &str, resolved: Option<String>) -> (a: SocketAddress)
        ensures
            a@ == match address_form(addr@) {
                AddressValue::Unix(p) => AddressValue::Unix(p),
                AddressValue::Tcp(_) => match optional_text(resolved) {
                    Some(f) => AddressValue::Tcp(f),
                    None => AddressValue::Unix(addr@),
                },
            },
    {
        match SocketAddress::parse(addr, resolved) {
            Ok(a) => a,
            Err(_) => SocketAddress::Unix(String::from_str(addr)),
        }
    }

    /// The address as text.
    pub fn as_str(&self) -> (s: String)
        ensures
            s@ == match self@ {
                AddressValue::Unix(p) => p,
                AddressValue::Tcp(a) => "tcp://"@ + a,
            },
    {
        match self {
            SocketAddress::Unix(p) => p.clone(),
            SocketAddress::Tcp(a) => {
                let mut s = String::from_str("tcp://");
                s.append(a.as_str());
                s
            },
        }
    }
}

/// The text of a TCP address reads back as that address.
pub proof fn law_tcp_text_roundtrip(a: Seq<char>)
    ensures
        address_form("tcp://"@ + a) == AddressValue::Tcp(a),
{
    let s = "tcp://"@ + a;
    assert(s.subrange(0, "tcp://"@.len() as int) =~= "tcp://"@);
    assert(after_prefix(s, "tcp://"@) =~= a);
}

/// A path that starts with a slash is read as a path, colons or not.
pub proof fn law_slash_is_path(p: Seq<char>)
    requires
        p.len() > 0,
        p[0] == '/',
    ensures
        address_form(p) == AddressValue::Unix(p),
{
    reveal_strlit("tcp://");
    reveal_strlit("unix://");
    reveal_strlit("/");
    if begins_with(p, "tcp://"@) {
        assert(p.subrange(0, "tcp://"@.len() as int)[0] == p[0]);
    }
    if begins_with(p, "unix://"@) {
        assert(p.subrange(0, "unix://"@.len() as int)[0] == p[0]);
    }
    assert(p.subrange(0, 1) =~= "/"@);
}

/// A prefix decides what an address says; without one, text with a colon that
/// does not begin with a slash is an IP address with a port, and any other text
/// a path.
pub proof fn law_address_kinds(p: Seq<char>)
    ensures
        address_form("unix://"@ + p) == AddressValue::Unix(p),
        !begins_with(p, "tcp://"@) && !begins_with(p, "unix://"@) && p.contains(':') && p[0] != '/'
            ==> address_form(p) == AddressValue::Tcp(p),
        !begins_with(p, "tcp://"@) && !begins_with(p, "unix://"@) && !p.contains(':')
            ==> address_form(p) == AddressValue::Unix(p),
{
    reveal_strlit("tcp://");
    reveal_strlit("unix://");
    reveal_strlit("/");
    let s = "unix://"@ + p;
    assert(s.subrange(0, 7) =~= "unix://"@);
    assert(s[0] == 'u');
    if begins_with(s, "tcp://"@) {
        assert(s.subrange(0, 6)[0] == s[0]);
    }
    assert(after_prefix(s, "unix://"@) =~= p);
    if p.len() > 0 && begins_with(p, "/"@) {
        assert(p.subrange(0, 1)[0] == p[0]);
    }
}

} // verus!
