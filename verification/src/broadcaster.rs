//! The broadcaster: one store-then-notify operation over a cache and a
//! publish channel. The cache write always precedes the publish; a failed
//! publish leaves the new value stored, an accepted inconsistency window
//! that a retried store heals because the cache write is idempotent.

use vstd::prelude::*;
use crate::cache::CacheAPI;
use crate::error::{Error, ErrorView};
use crate::json::{ser_rv, strings_view, to_json};
use crate::reference_value::ReferenceValue;

verus! {

/// The publish channel towards the attestation service: best effort, no
/// delivery guarantee beyond the order of accepted messages.
pub trait ASAPI: Sized {
    /// The messages accepted so far, in order.
    spec fn published(&self) -> Seq<Seq<char>>;

    /// Whether the transport currently delivers; success is owed
    /// wherever this holds.
    spec fn delivers(&self) -> bool;

    /// Publishes `message` to all subscribers; fails with
    /// [`Error::ChannelUnavailable`] when the transport cannot deliver.
    fn publish(&mut self, message: String) -> (r: Result<(), Error>)
        ensures
            old(self).delivers() ==> r is Ok,
            r is Ok ==> final(self).published() == old(self).published().push(message@),
            r matches Err(e) ==> e@ == ErrorView::ChannelUnavailable && final(self).published()
                == old(self).published(),
    ;
}

/// An in-memory publish channel: a loopback that records every accepted
/// message, and can be made unavailable.
pub struct MemoryChannel {
    available: bool,
    messages: Vec<String>,
}

impl MemoryChannel {
    /// A channel with no messages yet.
    pub fn new(available: bool) -> (r: MemoryChannel)
        ensures
            r.published() == Seq::<Seq<char>>::empty(),
            r.delivers() == available,
    {
        let r = MemoryChannel { available, messages: Vec::new() };
        proof {
            assert(r.published() =~= Seq::<Seq<char>>::empty());
        }
        r
    }

    /// Makes the channel deliver, or refuse, from now on.
    pub fn set_available(&mut self, available: bool)
        ensures
            final(self).published() == old(self).published(),
            final(self).delivers() == available,
    {
        self.available = available;
    }

    /// The messages accepted so far.
    pub fn messages(&self) -> (r: &Vec<String>)
        ensures
            strings_view(r@) == self.published(),
    {
        &self.messages
    }
}

impl ASAPI for MemoryChannel {
    closed spec fn published(&self) -> Seq<Seq<char>> {
        strings_view(self.messages@)
    }

    closed spec fn delivers(&self) -> bool {
        self.available
    }

    fn publish(&mut self, message: String) -> (r: Result<(), Error>) {
        if self.available {
            let ghost m = message@;
            let ghost before = self.messages@;
            self.messages.push(message);
            proof {
                assert(strings_view(self.messages@) =~= strings_view(before).push(m));
            }
            Ok(())
        } else {
            Err(Error::ChannelUnavailable)
        }
    }
}

/// The cache and the publish channel composed into one store-then-notify
/// operation.
pub struct Broadcaster<C: CacheAPI, A: ASAPI> {
    cache: C,
    as_api: A,
}

impl<C: CacheAPI, A: ASAPI> Broadcaster<C, A> {
    /// The cached entries.
    pub closed spec fn cache_view(&self) -> Map<
        Seq<char>,
        crate::reference_value::ReferenceValueView,
    > {
        self.cache.cache_view()
    }

    /// The messages published so far.
    pub closed spec fn published(&self) -> Seq<Seq<char>> {
        self.as_api.published()
    }

    pub closed spec fn well_formed(&self) -> bool {
        self.cache.cache_well_formed()
    }

    /// Whether the composed cache cannot fail.
    pub closed spec fn cache_infallible(&self) -> bool {
        self.cache.backend_infallible()
    }

    /// Whether the composed channel currently delivers.
    pub closed spec fn channel_delivers(&self) -> bool {
        self.as_api.delivers()
    }

    /// Composes a cache and a channel.
    pub fn new(cache: C, as_api: A) -> (r: Broadcaster<C, A>)
        requires
            cache.cache_well_formed(),
        ensures
            r.well_formed(),
            r.cache_view() == cache.cache_view(),
            r.published() == as_api.published(),
            r.cache_infallible() == cache.backend_infallible(),
            r.channel_delivers() == as_api.delivers(),
    {
        Broadcaster { cache, as_api }
    }

    /// The cache, for lookups after a store.
    pub fn cache(&self) -> (r: &C)
        ensures
            r.cache_view() == self.cache_view(),
            r.cache_well_formed() == self.well_formed(),
            r.backend_infallible() == self.cache_infallible(),
    {
        &self.cache
    }

    /// The channel, for draining accepted messages.
    pub fn channel(&self) -> (r: &A)
        ensures
            r.published() == self.published(),
    {
        &self.as_api
    }

    /// Serializes `rv`, stores it in the cache under its own name, then
    /// publishes the serialized form. The cache write precedes the
    /// publish: a publish failure leaves the new value stored and
    /// retrievable, with no rollback.
    pub fn store_and_publish(&mut self, rv: ReferenceValue) -> (r: Result<(), Error>)
        requires
            old(self).well_formed(),
            rv.well_formed(),
        ensures
            final(self).well_formed(),
            old(self).cache_infallible() && old(self).channel_delivers() ==> r is Ok,
            old(self).cache_infallible() ==> (r is Ok || (r matches Err(e) && e@
                == ErrorView::ChannelUnavailable)),
            r is Ok || (r matches Err(e) && e@ == ErrorView::ChannelUnavailable) ==> final(self).cache_view() == old(self).cache_view().insert(rv@.name, rv@),
            r is Ok ==> final(self).published() == old(self).published().push(ser_rv(rv@)),
            r matches Err(e) ==> e@ == ErrorView::ChannelUnavailable || e@
                == ErrorView::CacheBackendError,
            r matches Err(e) && e@ == ErrorView::ChannelUnavailable ==> final(self).published()
                == old(self).published(),
    {
        let message = to_json(&rv);
        let name = rv.name().clone();
        match self.cache.put(name, rv) {
            Ok(()) => {},
            Err(e) => {
                return Err(e);
            },
        }
        match self.as_api.publish(message) {
            Ok(()) => Ok(()),
            Err(e) => Err(e),
        }
    }
}

} // verus!
