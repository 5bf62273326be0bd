use socket_addrs::addr::{Endpoint, EndpointV4, EndpointV6, IpAddress, Ipv4Address, Ipv6Address};
use socket_addrs::iter::ToSocketAddrsIter;
use socket_addrs::stream::{EndpointStream, IoError, Resolution, StreamPoll};
use socket_addrs::to_socket_addrs::ToSocketAddrs;

fn ep4(a: u8, b: u8, c: u8, d: u8, port: u16) -> Endpoint {
    Endpoint::new(IpAddress::V4(Ipv4Address::new(a, b, c, d)), port)
}

fn ep6_loopback(port: u16) -> Endpoint {
    Endpoint::new(IpAddress::V6(Ipv6Address::new(0, 0, 0, 0, 0, 0, 0, 1)), port)
}

fn collect(mut it: ToSocketAddrsIter) -> Vec<Endpoint> {
    it.collect_remaining()
}

fn complete_now(stream: EndpointStream) -> ToSocketAddrsIter {
    match stream.poll(Resolution::Pending) {
        StreamPoll::Ready(Ok(it)) => it,
        _ => panic!("stream did not complete on the first poll"),
    }
}

#[test]
fn s1_v4_literal_dispatches_immediately() {
    let stream = "127.0.0.1:8080".to_socket_addrs();
    assert!(matches!(stream, EndpointStream::Immediate { .. }));
    assert!(!stream.is_deferred());
    let got = collect(complete_now(stream));
    assert_eq!(got, vec![ep4(127, 0, 0, 1, 8080)]);
}

#[test]
fn s2_v6_literal_dispatches_immediately() {
    let stream = "[::1]:443".to_socket_addrs();
    assert!(matches!(stream, EndpointStream::Immediate { .. }));
    let got = collect(complete_now(stream));
    assert_eq!(got, vec![ep6_loopback(443)]);
}

#[test]
fn s3_host_port_pair_with_ip_literal() {
    let stream = ("127.0.0.1", 80u16).to_socket_addrs();
    assert!(matches!(stream, EndpointStream::Immediate { .. }));
    let got = collect(complete_now(stream));
    assert_eq!(got, vec![ep4(127, 0, 0, 1, 80)]);
}

#[test]
fn s4_host_port_pair_goes_to_resolver() {
    let stream = ("localhost", 80u16).to_socket_addrs();
    match &stream {
        EndpointStream::Deferred { host, port } => {
            assert_eq!(host.as_str(), "localhost");
            assert_eq!(*port, Some(80));
        }
        _ => panic!("a non-literal host must defer to the resolver"),
    }
    let resolved = vec![ep4(127, 0, 0, 1, 80)];
    match stream.poll(Resolution::Resolved(resolved.clone())) {
        StreamPoll::Ready(Ok(it)) => assert_eq!(collect(it), resolved),
        _ => panic!("a resolved stream must be ready"),
    }
}

#[test]
fn s5_bare_host_text_goes_to_resolver_whole() {
    let stream = "example.com:443".to_socket_addrs();
    match &stream {
        EndpointStream::Deferred { host, port } => {
            assert_eq!(host.as_str(), "example.com:443");
            assert_eq!(*port, None);
        }
        _ => panic!("a non-literal host must defer to the resolver"),
    }
    let resolved = vec![ep4(93, 184, 216, 34, 443), ep6_loopback(443)];
    match stream.poll(Resolution::Resolved(resolved.clone())) {
        StreamPoll::Ready(Ok(it)) => assert_eq!(collect(it), resolved),
        _ => panic!("a resolved stream must be ready"),
    }
}

#[test]
fn s6_slice_dispatch_yields_in_order() {
    let addrs = vec![ep4(1, 1, 1, 1, 53), ep4(8, 8, 8, 8, 53)];
    let stream = addrs.as_slice().to_socket_addrs();
    assert!(matches!(stream, EndpointStream::Slice { .. }));
    let got = collect(complete_now(stream));
    assert_eq!(got, addrs);
}

#[test]
fn immediate_cardinality_is_one() {
    let e = ep4(10, 0, 0, 7, 9000);
    let mut it = complete_now(e.to_socket_addrs());
    assert_eq!(it.size_hint(), (1, Some(1)));
    assert_eq!(it.next(), Some(e));
    assert_eq!(it.size_hint(), (0, Some(0)));
    assert_eq!(it.next(), None);
    assert_eq!(it.next(), None);
}

#[test]
fn slice_fidelity_size_hint_and_order() {
    let addrs = vec![ep4(1, 1, 1, 1, 53), ep4(8, 8, 8, 8, 53), ep6_loopback(53)];
    let mut it = complete_now(addrs.as_slice().to_socket_addrs());
    assert_eq!(it.size_hint(), (3, Some(3)));
    assert_eq!(it.next(), Some(addrs[0]));
    assert_eq!(it.size_hint(), (2, Some(2)));
    assert_eq!(it.next(), Some(addrs[1]));
    assert_eq!(it.next(), Some(addrs[2]));
    assert_eq!(it.size_hint(), (0, Some(0)));
    assert_eq!(it.next(), None);
}

#[test]
fn empty_slice_yields_nothing() {
    let addrs: Vec<Endpoint> = vec![];
    let mut it = complete_now(addrs.as_slice().to_socket_addrs());
    assert_eq!(it.size_hint(), (0, Some(0)));
    assert_eq!(it.next(), None);
}

#[test]
fn resolver_error_is_surfaced_verbatim() {
    let stream = ("no-such-host.invalid", 80u16).to_socket_addrs();
    let failure = IoError::new(String::from("name resolution failed"));
    match stream.poll(Resolution::Failed(failure.clone())) {
        StreamPoll::Ready(Err(e)) => assert_eq!(e, failure),
        _ => panic!("a failed resolution must surface its error"),
    }
}

#[test]
fn deferred_stays_pending_until_resolved() {
    let stream = ("localhost", 80u16).to_socket_addrs();
    let stream = match stream.poll(Resolution::Pending) {
        StreamPoll::Pending(s) => s,
        _ => panic!("a deferred stream with no outcome must stay pending"),
    };
    match &stream {
        EndpointStream::Deferred { host, port } => {
            assert_eq!(host.as_str(), "localhost");
            assert_eq!(*port, Some(80));
        }
        _ => panic!("a pending poll must hand the stream back unchanged"),
    }
    match stream.poll(Resolution::Resolved(vec![ep4(127, 0, 0, 1, 80)])) {
        StreamPoll::Ready(Ok(it)) => {
            assert_eq!(collect(it), vec![ep4(127, 0, 0, 1, 80)]);
        }
        _ => panic!("a resolved stream must be ready"),
    }
}

#[test]
fn dropping_unawaited_deferred_stream_is_safe() {
    let stream = ("localhost", 80u16).to_socket_addrs();
    assert!(stream.is_deferred());
    drop(stream);
    let stream = "example.com:443".to_socket_addrs();
    drop(stream);
}

#[test]
fn typed_endpoint_shapes_dispatch_immediately() {
    let four = EndpointV4 { ip: Ipv4Address::new(192, 168, 0, 1), port: 22 };
    let got = collect(complete_now(four.to_socket_addrs()));
    assert_eq!(got, vec![ep4(192, 168, 0, 1, 22)]);

    let six = EndpointV6 { ip: Ipv6Address::new(0, 0, 0, 0, 0, 0, 0, 1), port: 22 };
    let got = collect(complete_now(six.to_socket_addrs()));
    assert_eq!(got, vec![ep6_loopback(22)]);

    let pair = (IpAddress::V4(Ipv4Address::new(10, 1, 2, 3)), 8080u16);
    let got = collect(complete_now(pair.to_socket_addrs()));
    assert_eq!(got, vec![ep4(10, 1, 2, 3, 8080)]);

    let pair4 = (Ipv4Address::new(10, 1, 2, 3), 8080u16);
    let got = collect(complete_now(pair4.to_socket_addrs()));
    assert_eq!(got, vec![ep4(10, 1, 2, 3, 8080)]);

    let pair6 = (Ipv6Address::new(0, 0, 0, 0, 0, 0, 0, 1), 8443u16);
    let got = collect(complete_now(pair6.to_socket_addrs()));
    assert_eq!(got, vec![ep6_loopback(8443)]);
}

#[test]
fn owned_string_dispatches_like_text() {
    let owned = String::from("127.0.0.1:8080");
    let got = collect(complete_now(owned.to_socket_addrs()));
    assert_eq!(got, vec![ep4(127, 0, 0, 1, 8080)]);

    let owned_pair = (String::from("localhost"), 80u16);
    match owned_pair.to_socket_addrs() {
        EndpointStream::Deferred { host, port } => {
            assert_eq!(host.as_str(), "localhost");
            assert_eq!(port, Some(80));
        }
        _ => panic!("a non-literal host must defer to the resolver"),
    }
}

#[test]
fn references_forward_to_the_referent() {
    let e = ep4(127, 0, 0, 1, 8080);
    let by_ref = (&e).to_socket_addrs();
    let got = collect(complete_now(by_ref));
    assert_eq!(got, vec![e]);

    let text: &str = "127.0.0.1:8080";
    let got = collect(complete_now((&text).to_socket_addrs()));
    assert_eq!(got, vec![e]);
}

#[test]
fn resolved_iterator_is_relayed_unchanged() {
    let stream = ("localhost", 1234u16).to_socket_addrs();
    let resolved = vec![ep6_loopback(1234), ep4(127, 0, 0, 1, 1234), ep4(10, 0, 0, 1, 1234)];
    match stream.poll(Resolution::Resolved(resolved.clone())) {
        StreamPoll::Ready(Ok(mut it)) => {
            assert_eq!(it.size_hint(), (3, Some(3)));
            assert_eq!(it.collect_remaining(), resolved);
        }
        _ => panic!("a resolved stream must be ready"),
    }
}
