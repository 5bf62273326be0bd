//! The awaitable produced by dispatch.
//!
//! An [`EndpointStream`] is consumed by a single poll. The immediate and
//! sequence modes complete at once; the deferred mode completes only when
//! the external resolution it names has an outcome. The caller that drives
//! the stream (the asynchronous shell around this library) performs the
//! actual resolver call and reports its state through [`Resolution`]; this
//! module decides, from stream and resolution alone, what the poll yields,
//! and that decision is the same whatever the resolver did.

use vstd::prelude::*;

use crate::addr::Endpoint;
use crate::iter::ToSocketAddrsIter;

verus! {

/// Error reported by the external resolver, surfaced verbatim.
#[derive(Clone, PartialEq, Eq, Debug)]
pub struct IoError {
    pub message: String,
}

impl View for IoError {
    type V = Seq<char>;

    open spec fn view(&self) -> Seq<char> {
        self.message@
    }
}

impl IoError {
    pub fn new(message: String) -> (r: IoError)
        ensures
            r@ == message@,
    {
        IoError { message }
    }
}

/// A single-use awaitable: one of the three dispatch modes.
pub enum EndpointStream {
    /// A single endpoint, already known.
    Immediate { addr: Endpoint },
    /// A sequence of endpoints, replayed in order.
    Slice { addrs: Vec<Endpoint> },
    /// A pending resolution of `host` (with `port` applied to each result
    /// when present; otherwise the host text carries the port).
    Deferred { host: String, port: Option<u16> },
}

/// The mathematical shape of a stream.
pub enum StreamModel {
    Immediate { addr: Endpoint },
    Slice { addrs: Seq<Endpoint> },
    Deferred { host: Seq<char>, port: Option<u16> },
}

impl View for EndpointStream {
    type V = StreamModel;

    open spec fn view(&self) -> StreamModel {
        match self {
            EndpointStream::Immediate { addr } => StreamModel::Immediate { addr: *addr },
            EndpointStream::Slice { addrs } => StreamModel::Slice { addrs: addrs@ },
            EndpointStream::Deferred { host, port } => StreamModel::Deferred {
                host: host@,
                port: *port,
            },
        }
    }
}

/// The observed state of the external resolution backing a deferred stream,
/// as the driving caller reports it.
pub enum Resolution {
    /// The resolver has not completed (also the state handed in when the
    /// stream needs no resolver at all).
    Pending,
    /// The resolver completed with these endpoints, in its order.
    Resolved(Vec<Endpoint>),
    /// The resolver failed.
    Failed(IoError),
}

/// The mathematical shape of a resolution state.
pub enum ResolutionModel {
    Pending,
    Resolved(Seq<Endpoint>),
    Failed(Seq<char>),
}

impl View for Resolution {
    type V = ResolutionModel;

    open spec fn view(&self) -> ResolutionModel {
        match self {
            Resolution::Pending => ResolutionModel::Pending,
            Resolution::Resolved(addrs) => ResolutionModel::Resolved(addrs@),
            Resolution::Failed(e) => ResolutionModel::Failed(e@),
        }
    }
}

/// What one poll of a stream yields: still pending, or completed with an
/// iterator or the resolver's error.
pub enum StreamPoll {
    Pending(EndpointStream),
    Ready(Result<ToSocketAddrsIter, IoError>),
}

/// The mathematical shape of a poll outcome: a completed iterator is its
/// sequence of endpoints still to be yielded, an error its text.
pub enum StreamPollModel {
    Pending(StreamModel),
    Ready(Result<Seq<Endpoint>, Seq<char>>),
}

impl View for StreamPoll {
    type V = StreamPollModel;

    open spec fn view(&self) -> StreamPollModel {
        match self {
            StreamPoll::Pending(s) => StreamPollModel::Pending(s@),
            StreamPoll::Ready(Ok(it)) => StreamPollModel::Ready(Ok(it.remaining())),
            StreamPoll::Ready(Err(e)) => StreamPollModel::Ready(Err(e@)),
        }
    }
}

/// What polling a stream in state `s` yields when the backing resolution is
/// in state `r`. The immediate and sequence modes complete on the first
/// poll whatever `r` is; the deferred mode relays the resolution unchanged.
pub open spec fn spec_poll(s: StreamModel, r: ResolutionModel) -> StreamPollModel {
    match s {
        StreamModel::Immediate { addr } => StreamPollModel::Ready(Ok(seq![addr])),
        StreamModel::Slice { addrs } => StreamPollModel::Ready(Ok(addrs)),
        StreamModel::Deferred { .. } => match r {
            ResolutionModel::Pending => StreamPollModel::Pending(s),
            ResolutionModel::Resolved(addrs) => StreamPollModel::Ready(Ok(addrs)),
            ResolutionModel::Failed(e) => StreamPollModel::Ready(Err(e)),
        },
    }
}

impl EndpointStream {
    /// Whether this stream needs the external resolver at all.
    pub fn is_deferred(&self) -> (r: bool)
        ensures
            r == (self@ is Deferred),
    {
        match self {
            EndpointStream::Deferred { .. } => true,
            _ => false,
        }
    }

    /// Poll the stream once, given the observed state of the backing
    /// resolution. Consumes the stream: a pending outcome hands it back.
    pub fn poll(self, resolution: Resolution) -> (r: StreamPoll)
        ensures
            r@ == spec_poll(self@, resolution@),
            r matches StreamPoll::Ready(it) ==> (it matches Ok(i) ==> i.wf()),
    {
        match self {
            EndpointStream::Immediate { addr } => StreamPoll::Ready(
                Ok(ToSocketAddrsIter::once(addr)),
            ),
            EndpointStream::Slice { addrs } => StreamPoll::Ready(
                Ok(ToSocketAddrsIter::over_endpoints(addrs)),
            ),
            EndpointStream::Deferred { host, port } => match resolution {
                Resolution::Pending => StreamPoll::Pending(
                    EndpointStream::Deferred { host, port },
                ),
                Resolution::Resolved(addrs) => StreamPoll::Ready(
                    Ok(ToSocketAddrsIter::resolved(addrs)),
                ),
                Resolution::Failed(e) => StreamPoll::Ready(Err(e)),
            },
        }
    }
}

// ---------------------------------------------------------------------------
// Laws
// ---------------------------------------------------------------------------
/// Immediate cardinality: polling an immediate stream yields, whatever the
/// resolution state, an iterator of exactly one endpoint, the dispatched one.
pub proof fn lemma_immediate_cardinality(addr: Endpoint, r: ResolutionModel)
    ensures
        spec_poll(StreamModel::Immediate { addr }, r) == StreamPollModel::Ready(
            Ok(seq![addr]),
        ),
        spec_poll(StreamModel::Immediate { addr }, r) matches StreamPollModel::Ready(o)
            ==> o matches Ok(s) && s.len() == 1 && s[0] == addr,
{
}

/// Slice fidelity: polling a sequence stream yields, whatever the resolution
/// state, exactly the dispatched endpoints, in order.
pub proof fn lemma_slice_fidelity(addrs: Seq<Endpoint>, r: ResolutionModel)
    ensures
        spec_poll(StreamModel::Slice { addrs }, r) == StreamPollModel::Ready(Ok(addrs)),
{
}

/// Resolver relay: a deferred stream whose resolution completed yields the
/// resolver's endpoints unchanged.
pub proof fn lemma_resolved_relayed(host: Seq<char>, port: Option<u16>, addrs: Seq<Endpoint>)
    ensures
        spec_poll(
            StreamModel::Deferred { host, port },
            ResolutionModel::Resolved(addrs),
        ) == StreamPollModel::Ready(Ok(addrs)),
{
}

/// Error transparency: a deferred stream whose resolution failed completes
/// with that error, unwrapped and unsubstituted.
pub proof fn lemma_error_transparency(host: Seq<char>, port: Option<u16>, e: Seq<char>)
    ensures
        spec_poll(StreamModel::Deferred { host, port }, ResolutionModel::Failed(e))
            == StreamPollModel::Ready(Err(e)),
{
}

/// A deferred stream with no outcome yet stays pending, unchanged.
pub proof fn lemma_pending_unchanged(host: Seq<char>, port: Option<u16>)
    ensures
        spec_poll(StreamModel::Deferred { host, port }, ResolutionModel::Pending)
            == StreamPollModel::Pending(StreamModel::Deferred { host, port }),
{
}

} // verus!
