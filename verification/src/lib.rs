//! An address-resolution adapter.
//!
//! The adapter accepts any of several address-shaped inputs and turns each
//! into an [`stream::EndpointStream`]: a single-use value that, once the
//! caller drives it to completion, yields a finite iterator of endpoints.
//! Three modes exist. An input that is already an endpoint (or a pair of an
//! IP literal and a port) dispatches immediately; a borrowed sequence of
//! endpoints is replayed in order; textual input that is not an endpoint
//! literal is handed to an external name resolver, whose outcome the caller
//! feeds back through [`stream::EndpointStream::poll`].

pub mod addr;
pub mod iter;
pub mod parse;
pub mod stream;
pub mod to_socket_addrs;
