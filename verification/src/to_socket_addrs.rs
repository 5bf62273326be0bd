//! The dispatch layer: from the static shape of an input, select the mode
//! of the resulting stream.
//!
//! Typed endpoints and (IP, port) pairs dispatch immediately; a borrowed
//! sequence of endpoints is copied into a sequence stream; textual input is
//! first tried as a literal — an endpoint literal for bare text, an IP
//! literal for a (host, port) pair — and only on parse failure handed to
//! the external resolver. The parse attempt always comes first: a host that
//! is a syntactically valid literal is never sent to the resolver, and a
//! parse failure is never an error, only the turn into deferred resolution.

use vstd::prelude::*;

use crate::addr::{Endpoint, EndpointV4, EndpointV6, IpAddress, Ipv4Address, Ipv6Address};
use crate::parse::{parse_ip_addr, parse_socket_addr, spec_parse_endpoint, spec_parse_ip};
use crate::stream::{EndpointStream, StreamModel};

verus! {

/// Where bare text dispatches: immediately on an endpoint literal, else to
/// the resolver with the whole text and no separate port.
pub open spec fn spec_dispatch_text(s: Seq<char>) -> StreamModel {
    match spec_parse_endpoint(s) {
        Some(addr) => StreamModel::Immediate { addr },
        None => StreamModel::Deferred { host: s, port: None },
    }
}

/// Where a (host, port) pair dispatches: immediately on an IP literal, else
/// to the resolver with the host text and the port.
pub open spec fn spec_dispatch_host_port(host: Seq<char>, port: u16) -> StreamModel {
    match spec_parse_ip(host) {
        Some(ip) => StreamModel::Immediate { addr: Endpoint { ip, port } },
        None => StreamModel::Deferred { host, port: Some(port) },
    }
}

/// Conversion of an address-shaped input into an [`EndpointStream`].
pub trait ToSocketAddrs {
    /// The mode this input dispatches into.
    spec fn dispatch_model(&self) -> StreamModel;

    /// Produce the stream for this input.
    fn to_socket_addrs(&self) -> (r: EndpointStream)
        ensures
            r@ == self.dispatch_model(),
    ;
}

impl ToSocketAddrs for Endpoint {
    open spec fn dispatch_model(&self) -> StreamModel {
        StreamModel::Immediate { addr: *self }
    }

    fn to_socket_addrs(&self) -> (r: EndpointStream) {
        EndpointStream::Immediate { addr: *self }
    }
}

impl ToSocketAddrs for EndpointV4 {
    open spec fn dispatch_model(&self) -> StreamModel {
        StreamModel::Immediate {
            addr: Endpoint { ip: IpAddress::V4(self.ip), port: self.port },
        }
    }

    fn to_socket_addrs(&self) -> (r: EndpointStream) {
        EndpointStream::Immediate { addr: self.widen() }
    }
}

impl ToSocketAddrs for EndpointV6 {
    open spec fn dispatch_model(&self) -> StreamModel {
        StreamModel::Immediate {
            addr: Endpoint { ip: IpAddress::V6(self.ip), port: self.port },
        }
    }

    fn to_socket_addrs(&self) -> (r: EndpointStream) {
        EndpointStream::Immediate { addr: self.widen() }
    }
}

impl ToSocketAddrs for (IpAddress, u16) {
    open spec fn dispatch_model(&self) -> StreamModel {
        StreamModel::Immediate { addr: Endpoint { ip: self.0, port: self.1 } }
    }

    fn to_socket_addrs(&self) -> (r: EndpointStream) {
        EndpointStream::Immediate { addr: Endpoint { ip: self.0, port: self.1 } }
    }
}

impl ToSocketAddrs for (Ipv4Address, u16) {
    open spec fn dispatch_model(&self) -> StreamModel {
        StreamModel::Immediate {
            addr: Endpoint { ip: IpAddress::V4(self.0), port: self.1 },
        }
    }

    fn to_socket_addrs(&self) -> (r: EndpointStream) {
        EndpointStream::Immediate {
            addr: Endpoint { ip: IpAddress::V4(self.0), port: self.1 },
        }
    }
}

impl ToSocketAddrs for (Ipv6Address, u16) {
    open spec fn dispatch_model(&self) -> StreamModel {
        StreamModel::Immediate {
            addr: Endpoint { ip: IpAddress::V6(self.0), port: self.1 },
        }
    }

    fn to_socket_addrs(&self) -> (r: EndpointStream) {
        EndpointStream::Immediate {
            addr: Endpoint { ip: IpAddress::V6(self.0), port: self.1 },
        }
    }
}

impl ToSocketAddrs for [Endpoint] {
    open spec fn dispatch_model(&self) -> StreamModel {
        StreamModel::Slice { addrs: self@ }
    }

    fn to_socket_addrs(&self) -> (r: EndpointStream) {
        EndpointStream::Slice { addrs: vstd::slice::slice_to_vec(self) }
    }
}

impl ToSocketAddrs for str {
    open spec fn dispatch_model(&self) -> StreamModel {
        spec_dispatch_text(self@)
    }

    fn to_socket_addrs(&self) -> (r: EndpointStream) {
        match parse_socket_addr(self) {
            Some(addr) => EndpointStream::Immediate { addr },
            None => EndpointStream::Deferred { host: self.to_owned(), port: None },
        }
    }
}

impl ToSocketAddrs for String {
    open spec fn dispatch_model(&self) -> StreamModel {
        spec_dispatch_text(self@)
    }

    fn to_socket_addrs(&self) -> (r: EndpointStream) {
        self.as_str().to_socket_addrs()
    }
}

impl<'a> ToSocketAddrs for (&'a str, u16) {
    open spec fn dispatch_model(&self) -> StreamModel {
        spec_dispatch_host_port(self.0@, self.1)
    }

    fn to_socket_addrs(&self) -> (r: EndpointStream) {
        match parse_ip_addr(self.0) {
            Some(ip) => EndpointStream::Immediate { addr: Endpoint { ip, port: self.1 } },
            None => EndpointStream::Deferred {
                host: self.0.to_owned(),
                port: Some(self.1),
            },
        }
    }
}

impl ToSocketAddrs for (String, u16) {
    open spec fn dispatch_model(&self) -> StreamModel {
        spec_dispatch_host_port(self.0@, self.1)
    }

    fn to_socket_addrs(&self) -> (r: EndpointStream) {
        match parse_ip_addr(self.0.as_str()) {
            Some(ip) => EndpointStream::Immediate { addr: Endpoint { ip, port: self.1 } },
            None => EndpointStream::Deferred {
                host: self.0.as_str().to_owned(),
                port: Some(self.1),
            },
        }
    }
}

impl<T: ToSocketAddrs + ?Sized> ToSocketAddrs for &T {
    open spec fn dispatch_model(&self) -> StreamModel {
        (**self).dispatch_model()
    }

    fn to_socket_addrs(&self) -> (r: EndpointStream) {
        (**self).to_socket_addrs()
    }
}

// ---------------------------------------------------------------------------
// Laws
// ---------------------------------------------------------------------------
/// Parse-first determinism: text that parses as an endpoint literal
/// dispatches immediately with exactly the parsed endpoint; no resolver is
/// named in the resulting mode.
pub proof fn lemma_parse_first_determinism(s: Seq<char>)
    requires
        (spec_parse_endpoint(s) is Some),
    ensures
        spec_dispatch_text(s) == (StreamModel::Immediate { addr: spec_parse_endpoint(s)->0 }),
{
}

/// Parse-first determinism for (host, port) pairs: a host that is an IP
/// literal dispatches immediately, combined with the caller's port.
pub proof fn lemma_parse_first_determinism_pair(host: Seq<char>, port: u16)
    requires
        (spec_parse_ip(host) is Some),
    ensures
        spec_dispatch_host_port(host, port) == (StreamModel::Immediate {
            addr: Endpoint { ip: spec_parse_ip(host)->0, port },
        }),
{
}

/// Resolver dispatch: text that fails the parse goes to the resolver with
/// the original text, unaltered, and no separate port.
pub proof fn lemma_resolver_dispatch(s: Seq<char>)
    requires
        (spec_parse_endpoint(s) is None),
    ensures
        spec_dispatch_text(s) == (StreamModel::Deferred { host: s, port: None }),
{
}

/// Resolver dispatch for (host, port) pairs: the resolver is named with the
/// original host text and the caller's port.
pub proof fn lemma_resolver_dispatch_pair(host: Seq<char>, port: u16)
    requires
        (spec_parse_ip(host) is None),
    ensures
        spec_dispatch_host_port(host, port) == (StreamModel::Deferred {
            host,
            port: Some(port),
        }),
{
}

} // verus!
