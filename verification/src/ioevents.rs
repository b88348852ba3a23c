//! The io-event registry: the one-to-one binding from a port or
//! memory-mapped address to the process-local event object the monitor
//! signals when the guest performs a doorbell write the driver does not
//! handle internally. Bindings are made during device setup and the
//! dispatch path does no allocation.

use vstd::prelude::*;

use crate::Error;

verus! {

/// A process-local event object. Its identity stands for the underlying
/// OS handle and is what `unregister` compares; `count` records how often
/// the event has been signalled and saturates as the underlying counter
/// does.
#[derive(Clone, Copy, Debug, PartialEq, Eq, Structural)]
pub struct Event {
    /// The identity of the underlying handle, chosen by the creator.
    pub id: u64,
    /// How many signals the event has accumulated.
    pub count: u64,
}

impl Event {
    /// A fresh, never-signalled event with the given handle identity.
    pub fn new(id: u64) -> (r: Event)
        ensures
            r.id == id,
            r.count == 0,
    {
        Event { id, count: 0 }
    }

    /// Signals the event once; the accumulated count saturates at its
    /// maximum as the underlying counter does.
    pub fn signal(&mut self)
        ensures
            final(self).id == old(self).id,
            final(self).count == if old(self).count == u64::MAX {
                u64::MAX as int
            } else {
                old(self).count + 1
            },
    {
        if self.count < u64::MAX {
            self.count = self.count + 1;
        }
    }

    /// Clones the handle; the clone shares the identity of the original.
    pub fn try_clone(&self) -> (r: Result<Event, Error>)
        ensures
            r == Ok::<Event, Error>(*self),
    {
        Ok(*self)
    }
}

/// What signalling an event once does to its model.
pub open spec fn spec_signaled(e: Event) -> Event {
    Event {
        id: e.id,
        count: if e.count == u64::MAX {
            u64::MAX
        } else {
            (e.count + 1) as u64
        },
    }
}

/// The registry of io-event bindings, at most one event per address.
pub struct IoEventRegistry {
    entries: Vec<(crate::IoEventAddress, Event)>,
}

impl IoEventRegistry {
    /// The bindings, oldest first.
    pub closed spec fn entries(self) -> Seq<(crate::IoEventAddress, Event)> {
        self.entries@
    }

    /// No address is bound twice.
    pub open spec fn wf(self) -> bool {
        forall|i: int, j: int|
            0 <= i < j < self.entries().len() ==> (#[trigger] self.entries()[i]).0
                != (#[trigger] self.entries()[j]).0
    }

    /// Whether an event is bound at `addr`.
    pub open spec fn is_bound(self, addr: crate::IoEventAddress) -> bool {
        exists|i: int| 0 <= i < self.entries().len() && (#[trigger] self.entries()[i]).0 == addr
    }

    /// The position of the binding at `addr`.
    pub open spec fn index_of(self, addr: crate::IoEventAddress) -> int {
        choose|i: int| 0 <= i < self.entries().len() && (#[trigger] self.entries()[i]).0 == addr
    }

    /// The event bound at `addr`.
    pub open spec fn bound_event(self, addr: crate::IoEventAddress) -> Event {
        self.entries()[self.index_of(addr)].1
    }

    /// What `register` answers at an address, decided entirely by the
    /// registry's current state: at most one event per address.
    pub open spec fn register_outcome(self, addr: crate::IoEventAddress) -> core::result::Result<
        (),
        Error,
    > {
        if self.is_bound(addr) {
            Err(Error::AlreadyRegistered)
        } else {
            Ok(())
        }
    }

    /// What `unregister` answers for an event identity at an address,
    /// decided entirely by the registry's current state: the address
    /// must be bound, and bound to an event with the same handle
    /// identity.
    pub open spec fn unregister_outcome(
        self,
        evt_id: u64,
        addr: crate::IoEventAddress,
    ) -> core::result::Result<(), Error> {
        if !self.is_bound(addr) {
            Err(Error::NotFound)
        } else if self.bound_event(addr).id != evt_id {
            Err(Error::Mismatch)
        } else {
            Ok(())
        }
    }

    /// A binding is protected against other devices: once `addr` is
    /// bound, registering any further event there is refused with
    /// `AlreadyRegistered`, and unregistering with an event of a foreign
    /// identity is refused with `Mismatch` — and since both refusals
    /// leave the registry unchanged (the `Err` cases of `register` and
    /// `unregister`), the original binding survives them.
    pub proof fn lemma_binding_protected(self, e2: Event, addr: crate::IoEventAddress)
        requires
            self.wf(),
            self.is_bound(addr),
        ensures
            self.register_outcome(addr) == Err::<(), Error>(Error::AlreadyRegistered),
            e2.id != self.bound_event(addr).id ==> self.unregister_outcome(e2.id, addr)
                == Err::<(), Error>(Error::Mismatch),
            e2.id == self.bound_event(addr).id ==> self.unregister_outcome(e2.id, addr)
                == Ok::<(), Error>(()),
    {
    }

    /// In a well-formed registry an address determines its binding's
    /// position, so a scan that finds `addr` at position `i` has found
    /// the binding.
    proof fn lemma_index_at(self, addr: crate::IoEventAddress, i: int)
        requires
            self.wf(),
            0 <= i < self.entries().len(),
            self.entries()[i].0 == addr,
        ensures
            self.is_bound(addr),
            self.index_of(addr) == i,
            self.bound_event(addr) == self.entries()[i].1,
    {
        assert(self.is_bound(addr));
        let j = self.index_of(addr);
        assert(0 <= j < self.entries().len() && self.entries()[j].0 == addr);
        if i < j {
            assert(self.entries()[i].0 != self.entries()[j].0);
        }
        if j < i {
            assert(self.entries()[j].0 != self.entries()[i].0);
        }
    }

    /// An empty registry.
    pub fn new() -> (r: IoEventRegistry)
        ensures
            r.wf(),
            r.entries() == Seq::<(crate::IoEventAddress, Event)>::empty(),
    {
        IoEventRegistry { entries: Vec::new() }
    }

    /// Binds a clone of `evt` at `addr`; at most one event per address is
    /// enforced, so an address already bound is refused and the registry
    /// is left unchanged.
    pub fn register(&mut self, evt: &Event, addr: crate::IoEventAddress) -> (r: Result<(), Error>)
        requires
            old(self).wf(),
        ensures
            final(self).wf(),
            r == old(self).register_outcome(addr),
            match r {
                Ok(()) => {
                    &&& !old(self).is_bound(addr)
                    &&& final(self).entries() == old(self).entries().push((addr, *evt))
                },
                Err(e) => {
                    &&& e == Error::AlreadyRegistered
                    &&& old(self).is_bound(addr)
                    &&& final(self).entries() == old(self).entries()
                },
            },
    {
        let mut i: usize = 0;
        while i < self.entries.len()
            invariant
                *self == *old(self),
                self.wf(),
                i <= self.entries().len(),
                forall|k: int| 0 <= k < i ==> (#[trigger] self.entries()[k]).0 != addr,
            decreases self.entries().len() - i,
        {
            if self.entries[i].0 == addr {
                return Err(Error::AlreadyRegistered);
            }
            i = i + 1;
        }
        let clone = match evt.try_clone() {
            Ok(clone) => clone,
            Err(_) => unreached(),
        };
        self.entries.push((addr, clone));
        Ok(())
    }

    /// Removes the binding at `addr`. The supplied event must be the one
    /// currently bound there, by handle identity, which protects one
    /// device from clearing another device's registration; an unbound
    /// address is `NotFound` and a foreign event is `Mismatch`, both
    /// leaving the registry unchanged.
    pub fn unregister(&mut self, evt: &Event, addr: crate::IoEventAddress) -> (r: Result<(), Error>)
        requires
            old(self).wf(),
        ensures
            final(self).wf(),
            r == old(self).unregister_outcome(evt.id, addr),
            match r {
                Ok(()) => {
                    &&& old(self).is_bound(addr)
                    &&& old(self).bound_event(addr).id == evt.id
                    &&& final(self).entries() == old(self).entries().remove(
                        old(self).index_of(addr),
                    )
                },
                Err(e) => {
                    &&& final(self).entries() == old(self).entries()
                    &&& (e == Error::NotFound || e == Error::Mismatch)
                    &&& (e == Error::NotFound <==> !old(self).is_bound(addr))
                    &&& (e == Error::Mismatch <==> old(self).is_bound(addr) && old(
                        self,
                    ).bound_event(addr).id != evt.id)
                },
            },
    {
        let mut i: usize = 0;
        while i < self.entries.len()
            invariant
                *self == *old(self),
                self.wf(),
                i <= self.entries().len(),
                forall|k: int| 0 <= k < i ==> (#[trigger] self.entries()[k]).0 != addr,
            decreases self.entries().len() - i,
        {
            if self.entries[i].0 == addr {
                proof {
                    self.lemma_index_at(addr, i as int);
                }
                if self.entries[i].1.id != evt.id {
                    return Err(Error::Mismatch);
                }
                self.entries.remove(i);
                proof {
                    assert forall|x: int, y: int|
                        0 <= x < y < self.entries().len() implies (#[trigger] self.entries()[x]).0
                        != (#[trigger] self.entries()[y]).0 by {
                        let ox: int = if x < i as int {
                            x
                        } else {
                            x + 1
                        };
                        let oy: int = if y < i as int {
                            y
                        } else {
                            y + 1
                        };
                        assert(self.entries()[x] == old(self).entries()[ox]);
                        assert(self.entries()[y] == old(self).entries()[oy]);
                    }
                }
                return Ok(());
            }
            i = i + 1;
        }
        Err(Error::NotFound)
    }

    /// Signals the event bound at `addr` exactly once; an unbound address
    /// is a successful no-op, since most addresses are never
    /// instrumented. Allocates nothing.
    pub fn dispatch(&mut self, addr: crate::IoEventAddress) -> (r: Result<(), Error>)
        requires
            old(self).wf(),
        ensures
            final(self).wf(),
            r == Ok::<(), Error>(()),
            old(self).is_bound(addr) ==> final(self).entries() == old(self).entries().update(
                old(self).index_of(addr),
                (addr, spec_signaled(old(self).bound_event(addr))),
            ),
            !old(self).is_bound(addr) ==> final(self).entries() == old(self).entries(),
    {
        let mut i: usize = 0;
        while i < self.entries.len()
            invariant
                *self == *old(self),
                self.wf(),
                i <= self.entries().len(),
                forall|k: int| 0 <= k < i ==> (#[trigger] self.entries()[k]).0 != addr,
            decreases self.entries().len() - i,
        {
            if self.entries[i].0 == addr {
                proof {
                    self.lemma_index_at(addr, i as int);
                }
                self.entries[i].1.signal();
                return Ok(());
            }
            i = i + 1;
        }
        Ok(())
    }

    /// A dispatch signals exactly one event: after the update that
    /// `dispatch` makes for a bound address, the same addresses are
    /// bound as before, the event bound there has accumulated exactly
    /// one more signal, and the event bound at every other address is
    /// untouched. (For an unbound address `dispatch` changes nothing at
    /// all, by its own contract.)
    pub proof fn lemma_dispatch_signals_exactly_one(
        self,
        post: IoEventRegistry,
        addr: crate::IoEventAddress,
    )
        requires
            self.wf(),
            self.is_bound(addr),
            post.entries() == self.entries().update(
                self.index_of(addr),
                (addr, spec_signaled(self.bound_event(addr))),
            ),
        ensures
            post.wf(),
            forall|a: crate::IoEventAddress| post.is_bound(a) <==> self.is_bound(a),
            post.bound_event(addr) == spec_signaled(self.bound_event(addr)),
            self.bound_event(addr).count < u64::MAX ==> post.bound_event(addr).count
                == self.bound_event(addr).count + 1,
            forall|a: crate::IoEventAddress|
                self.is_bound(a) && a != addr ==> post.bound_event(a) == self.bound_event(a),
    {
        let i0 = self.index_of(addr);
        assert(0 <= i0 < self.entries().len() && self.entries()[i0].0 == addr);
        assert(post.entries().len() == self.entries().len());
        assert forall|k: int| 0 <= k < post.entries().len() implies (#[trigger] post.entries()[k]).0
            == self.entries()[k].0 by {}
        assert(post.wf());
        assert forall|a: crate::IoEventAddress| post.is_bound(a) <==> self.is_bound(a) by {
            if post.is_bound(a) {
                let k = choose|k: int|
                    0 <= k < post.entries().len() && (#[trigger] post.entries()[k]).0 == a;
                assert(self.entries()[k].0 == a);
                assert(self.is_bound(a));
            }
            if self.is_bound(a) {
                let k = choose|k: int|
                    0 <= k < self.entries().len() && (#[trigger] self.entries()[k]).0 == a;
                assert(post.entries()[k].0 == a);
                assert(post.is_bound(a));
            }
        }
        post.lemma_index_at(addr, i0);
        assert forall|a: crate::IoEventAddress| self.is_bound(a) && a != addr implies post
            .bound_event(a) == self.bound_event(a) by {
            let k = choose|k: int|
                0 <= k < self.entries().len() && (#[trigger] self.entries()[k]).0 == a;
            self.lemma_index_at(a, k);
            assert(post.entries()[k].0 == a);
            post.lemma_index_at(a, k);
            assert(k != i0);
            assert(post.entries()[k] == self.entries()[k]);
        }
    }

    /// How many addresses are currently bound.
    pub fn len(&self) -> (r: usize)
        ensures
            r == self.entries().len(),
    {
        self.entries.len()
    }

    /// The accumulated signal count of the event bound at `addr`, if one
    /// is bound.
    pub fn signal_count(&self, addr: crate::IoEventAddress) -> (r: Option<u64>)
        requires
            self.wf(),
        ensures
            self.is_bound(addr) ==> r == Some(self.bound_event(addr).count),
            !self.is_bound(addr) ==> r is None,
    {
        let mut i: usize = 0;
        while i < self.entries.len()
            invariant
                self.wf(),
                i <= self.entries().len(),
                forall|k: int| 0 <= k < i ==> (#[trigger] self.entries()[k]).0 != addr,
            decreases self.entries().len() - i,
        {
            if self.entries[i].0 == addr {
                proof {
                    self.lemma_index_at(addr, i as int);
                }
                return Some(self.entries[i].1.count);
            }
            i = i + 1;
        }
        None
    }

    /// Deep-clones the bindings for a new handle; a clone failure of any
    /// individual event aborts the whole clone with the first error.
    pub fn try_clone(&self) -> (r: Result<IoEventRegistry, Error>)
        requires
            self.wf(),
        ensures
            match r {
                Ok(clone) => clone.entries() == self.entries(),
                Err(_) => false,
            },
    {
        let mut entries: Vec<(crate::IoEventAddress, Event)> = Vec::new();
        let mut i: usize = 0;
        while i < self.entries.len()
            invariant
                i <= self.entries().len(),
                entries@ == self.entries().take(i as int),
            decreases self.entries().len() - i,
        {
            let (addr, evt) = self.entries[i];
            let clone = match evt.try_clone() {
                Ok(clone) => clone,
                Err(e) => {
                    return Err(e);
                },
            };
            entries.push((addr, clone));
            proof {
                assert(entries@ =~= self.entries().take(i + 1 as int));
            }
            i = i + 1;
        }
        proof {
            assert(entries@ =~= self.entries());
        }
        Ok(IoEventRegistry { entries })
    }
}

} // verus!
