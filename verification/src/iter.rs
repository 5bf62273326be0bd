//! The single-pass, finite iterator of endpoints that a completed stream
//! yields. Each variant forwards to its source: a single endpoint, a
//! dispatched sequence, or the endpoints the external resolver produced.

use vstd::prelude::*;

use crate::addr::Endpoint;

verus! {

/// Iterator over the endpoints of a completed [`crate::stream::EndpointStream`].
pub enum ToSocketAddrsIter {
    /// The one endpoint of an immediate dispatch, and whether it was yielded.
    Once { addr: Endpoint, consumed: bool },
    /// A cursor over the endpoints of a dispatched sequence.
    SliceCursor { addrs: Vec<Endpoint>, index: usize },
    /// A cursor over the endpoints the external resolver produced.
    Resolved { addrs: Vec<Endpoint>, index: usize },
}

impl ToSocketAddrsIter {
    /// Cursors stay within their sequence.
    pub open spec fn wf(self) -> bool {
        match self {
            ToSocketAddrsIter::Once { .. } => true,
            ToSocketAddrsIter::SliceCursor { addrs, index } => index <= addrs@.len(),
            ToSocketAddrsIter::Resolved { addrs, index } => index <= addrs@.len(),
        }
    }

    /// The endpoints still to be yielded, in order.
    pub open spec fn remaining(self) -> Seq<Endpoint> {
        match self {
            ToSocketAddrsIter::Once { addr, consumed } => if consumed {
                Seq::empty()
            } else {
                seq![addr]
            },
            ToSocketAddrsIter::SliceCursor { addrs, index } => addrs@.skip(index as int),
            ToSocketAddrsIter::Resolved { addrs, index } => addrs@.skip(index as int),
        }
    }

    /// An iterator over exactly one endpoint.
    pub fn once(addr: Endpoint) -> (r: ToSocketAddrsIter)
        ensures
            r.wf(),
            r.remaining() == seq![addr],
    {
        ToSocketAddrsIter::Once { addr, consumed: false }
    }

    /// An iterator over a sequence of endpoints, in order.
    pub fn over_endpoints(addrs: Vec<Endpoint>) -> (r: ToSocketAddrsIter)
        ensures
            r.wf(),
            r.remaining() == addrs@,
    {
        proof {
            assert(addrs@.skip(0) =~= addrs@);
        }
        ToSocketAddrsIter::SliceCursor { addrs, index: 0 }
    }

    /// An iterator over what the external resolver produced, in its order.
    pub fn resolved(addrs: Vec<Endpoint>) -> (r: ToSocketAddrsIter)
        ensures
            r.wf(),
            r.remaining() == addrs@,
    {
        proof {
            assert(addrs@.skip(0) =~= addrs@);
        }
        ToSocketAddrsIter::Resolved { addrs, index: 0 }
    }

    /// Yield the next endpoint by value, or `None` on exhaustion.
    pub fn next(&mut self) -> (r: Option<Endpoint>)
        requires
            old(self).wf(),
        ensures
            final(self).wf(),
            old(self).remaining().len() == 0 ==> r is None && final(self).remaining()
                == old(self).remaining(),
            old(self).remaining().len() > 0 ==> r == Some(old(self).remaining()[0])
                && final(self).remaining() == old(self).remaining().skip(1),
    {
        match self {
            ToSocketAddrsIter::Once { addr, consumed } => {
                if *consumed {
                    None
                } else {
                    let a = *addr;
                    *consumed = true;
                    proof {
                        assert(seq![a].skip(1) =~= Seq::<Endpoint>::empty());
                    }
                    Some(a)
                }
            },
            ToSocketAddrsIter::SliceCursor { addrs, index } => {
                if *index < addrs.len() {
                    let a = addrs[*index];
                    proof {
                        assert(addrs@.skip(*index as int + 1) =~= addrs@.skip(
                            *index as int,
                        ).skip(1));
                        assert(addrs@.skip(*index as int)[0] == addrs@[*index as int]);
                    }
                    *index = *index + 1;
                    Some(a)
                } else {
                    None
                }
            },
            ToSocketAddrsIter::Resolved { addrs, index } => {
                if *index < addrs.len() {
                    let a = addrs[*index];
                    proof {
                        assert(addrs@.skip(*index as int + 1) =~= addrs@.skip(
                            *index as int,
                        ).skip(1));
                        assert(addrs@.skip(*index as int)[0] == addrs@[*index as int]);
                    }
                    *index = *index + 1;
                    Some(a)
                } else {
                    None
                }
            },
        }
    }

    /// The exact number of endpoints left, as lower and upper bound.
    pub fn size_hint(&self) -> (r: (usize, Option<usize>))
        requires
            self.wf(),
        ensures
            r.0 == self.remaining().len(),
            r.1 == Some(r.0),
    {
        match self {
            ToSocketAddrsIter::Once { consumed, .. } => {
                if *consumed {
                    (0, Some(0))
                } else {
                    (1, Some(1))
                }
            },
            ToSocketAddrsIter::SliceCursor { addrs, index } => {
                let k = addrs.len() - *index;
                (k, Some(k))
            },
            ToSocketAddrsIter::Resolved { addrs, index } => {
                let k = addrs.len() - *index;
                (k, Some(k))
            },
        }
    }

    /// Drain the iterator into a vector, in order.
    pub fn collect_remaining(&mut self) -> (r: Vec<Endpoint>)
        requires
            old(self).wf(),
        ensures
            final(self).wf(),
            r@ == old(self).remaining(),
            final(self).remaining().len() == 0,
    {
        let mut r: Vec<Endpoint> = Vec::new();
        proof {
            assert(r@ + self.remaining() =~= self.remaining());
        }
        loop
            invariant
                self.wf(),
                r@ + self.remaining() == old(self).remaining(),
            decreases self.remaining().len(),
        {
            match self.next() {
                Some(a) => {
                    r.push(a);
                    proof {
                        assert(r@ + self.remaining() =~= old(self).remaining());
                    }
                },
                None => {
                    proof {
                        assert(r@ =~= old(self).remaining());
                    }
                    return r;
                },
            }
        }
    }
}

} // verus!
