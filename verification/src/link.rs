//! The queue of FPDUs between the transport and the session engines: entities are split into
//! FPDUs when they arrive, and the engines take the FPDUs one by one.

use crate::article::{byte_slices, fpdus_view};
use crate::error::{SessionError, TransportError};
use crate::fpdu::{Fault, Fpdu, FpduV, HEADER_LEN};
use crate::frame::{framed, single_entity, split, split_entity};
use std::collections::VecDeque;
use vstd::prelude::*;

verus! {

/// FPDUs received but not yet taken, and the settings of the link.
#[derive(Debug)]
pub struct Link {
    pending: VecDeque<Fpdu>,
    crc: bool,
    max_entity: usize,
}

/// FPDUs of the parts of an entity up to the first one that cannot be read, and its fault.
pub open spec fn readable_prefix(parts: Seq<Seq<u8>>) -> (Seq<FpduV>, Option<Fault>)
    decreases parts.len(),
{
    if parts.len() == 0 {
        (Seq::empty(), None)
    } else {
        let (before, fault) = readable_prefix(parts.drop_last());
        if fault is Some {
            (before, fault)
        } else {
            match FpduV::decoded(parts.last(), true) {
                Ok(f) => (before.push(f), None),
                Err(e) => (before, Some(e)),
            }
        }
    }
}

proof fn lemma_prefix_stable(parts: Seq<Seq<u8>>, n: int)
    requires
        0 <= n <= parts.len(),
        readable_prefix(parts.take(n)).1 is Some,
    ensures
        readable_prefix(parts) == readable_prefix(parts.take(n)),
    decreases parts.len() - n,
{
    if n == parts.len() {
        assert(parts.take(n) =~= parts);
    } else {
        assert(parts.take(n + 1).drop_last() =~= parts.take(n));
        lemma_prefix_stable(parts, n + 1);
    }
}

impl Link {
    /// FPDUs received but not yet taken.
    pub closed spec fn spec_pending(self) -> Seq<FpduV> {
        fpdus_view(self.pending@)
    }

    /// Whether FPDUs carry check bytes.
    pub closed spec fn spec_crc(self) -> bool {
        self.crc
    }

    /// Negotiated maximum entity size.
    pub closed spec fn spec_max_entity(self) -> usize {
        self.max_entity
    }

    /// A fresh link: nothing received, no check bytes, the largest entities.
    #[must_use]
    pub fn new() -> (r: Self)
        ensures
            r.spec_pending() == Seq::<FpduV>::empty(),
            !r.spec_crc(),
            r.spec_max_entity() == 0xFFFF,
    {
        let r = Link { pending: VecDeque::new(), crc: false, max_entity: 0xFFFF };
        proof {
            assert(r.spec_pending() =~= Seq::empty());
        }
        r
    }

    /// Enable or disable CRC handling (after negotiation).
    pub fn set_crc(&mut self, on: bool)
        ensures
            final(self).spec_crc() == on,
            final(self).spec_pending() == old(self).spec_pending(),
            final(self).spec_max_entity() == old(self).spec_max_entity(),
    {
        self.crc = on;
    }

    /// Whether CRC is enabled.
    #[must_use]
    pub fn crc(&self) -> (r: bool)
        ensures
            r == self.spec_crc(),
    {
        self.crc
    }

    /// Set the negotiated maximum entity size (PI 25) used to bound outgoing entities.
    pub fn set_max_entity(&mut self, max: usize)
        ensures
            final(self).spec_max_entity() == if max <= HEADER_LEN {
                (HEADER_LEN + 1) as usize
            } else if max > 0xFFFF {
                0xFFFF
            } else {
                max
            },
            final(self).spec_pending() == old(self).spec_pending(),
            final(self).spec_crc() == old(self).spec_crc(),
    {
        self.max_entity = if max <= HEADER_LEN {
            HEADER_LEN + 1
        } else if max > 0xFFFF {
            0xFFFF
        } else {
            max
        };
    }

    /// Negotiated maximum entity size.
    #[must_use]
    pub fn max_entity(&self) -> (r: usize)
        ensures
            r == self.spec_max_entity(),
    {
        self.max_entity
    }

    /// Entity that carries one FPDU on its own.
    pub fn entity_for(&self, fpdu: &Fpdu) -> (r: Result<Vec<u8>, SessionError>)
        ensures
            match r {
                Ok(v) => fpdu@.encode_error() is None && v@ == framed(
                    fpdu@.encoding(),
                    self.spec_crc(),
                ),
                Err(e) => fpdu@.encode_error() is Some && e is Negotiation && e->Negotiation_0@
                    == fpdu@.encode_error()->0.spec_text(),
            },
    {
        match single_entity(fpdu, self.crc) {
            Ok(v) => Ok(v),
            Err(e) => Err(SessionError::Negotiation(e.text())),
        }
    }

    /// Take the next FPDU, if there is one.
    pub fn next(&mut self) -> (r: Option<Fpdu>)
        ensures
            r is None <==> old(self).spec_pending().len() == 0,
            r matches Some(f) ==> f@ == old(self).spec_pending()[0] && final(self).spec_pending()
                == old(self).spec_pending().skip(1),
            r is None ==> final(self).spec_pending() == old(self).spec_pending(),
            final(self).spec_crc() == old(self).spec_crc(),
            final(self).spec_max_entity() == old(self).spec_max_entity(),
    {
        let ghost before = self.spec_pending();
        let r = self.pending.pop_front();
        proof {
            if r is Some {
                assert(self.spec_pending() =~= before.skip(1));
            }
        }
        r
    }

    /// Push back an FPDU so that the next one taken is this one.
    pub fn unread(&mut self, fpdu: Fpdu)
        ensures
            final(self).spec_pending() == seq![fpdu@] + old(self).spec_pending(),
            final(self).spec_crc() == old(self).spec_crc(),
            final(self).spec_max_entity() == old(self).spec_max_entity(),
    {
        let ghost before = self.spec_pending();
        let ghost fv = fpdu@;
        self.pending.push_front(fpdu);
        proof {
            assert(self.spec_pending() =~= seq![fv] + before);
        }
    }

    /// Queue the FPDUs of a received entity. Those before the first one that cannot be read are
    /// queued even then.
    pub fn queue_entity(&mut self, entity: &[u8]) -> (r: Result<(), SessionError>)
        ensures
            final(self).spec_crc() == old(self).spec_crc(),
            final(self).spec_max_entity() == old(self).spec_max_entity(),
            match split(entity@, old(self).spec_crc()) {
                Err(fault) => {
                    &&& r is Err && r->Err_0 is Decode && r->Err_0->Decode_0@ == fault
                    &&& final(self).spec_pending() == old(self).spec_pending()
                },
                Ok(parts) => {
                    let (good, fault) = readable_prefix(parts);
                    &&& final(self).spec_pending() == old(self).spec_pending() + good
                    &&& r is Ok <==> fault is None
                    &&& r matches Err(e) ==> e is Decode && fault == Some(e->Decode_0@)
                },
            },
    {
        let parts = match split_entity(entity, self.crc) {
            Ok(v) => v,
            Err(e) => {
                return Err(SessionError::Decode(e));
            },
        };
        let ghost list = byte_slices(parts@);
        let ghost before = self.spec_pending();
        let mut i: usize = 0;
        proof {
            assert(list.take(0) =~= Seq::empty());
            assert(before + readable_prefix(list.take(0)).0 =~= before);
        }
        while i < parts.len()
            invariant
                i <= parts.len(),
                list == byte_slices(parts@),
                split(entity@, old(self).spec_crc()) == Ok::<_, Fault>(list),
                before == old(self).spec_pending(),
                self.spec_crc() == old(self).spec_crc(),
                self.spec_max_entity() == old(self).spec_max_entity(),
                readable_prefix(list.take(i as int)).1 is None,
                self.spec_pending() == before + readable_prefix(list.take(i as int)).0,
            decreases parts.len() - i,
        {
            let ghost queued = self.spec_pending();
            proof {
                assert(list.take(i + 1).drop_last() =~= list.take(i as int));
                assert(list.take(i + 1).last() == parts@[i as int]@);
            }
            match Fpdu::decode(parts[i]) {
                Ok(f) => {
                    let ghost fv = f@;
                    self.pending.push_back(f);
                    proof {
                        assert(self.spec_pending() =~= queued.push(fv));
                        assert(self.spec_pending() =~= before + readable_prefix(
                            list.take(i + 1),
                        ).0);
                    }
                },
                Err(e) => {
                    proof {
                        lemma_prefix_stable(list, i + 1);
                    }
                    return Err(SessionError::Decode(e));
                },
            }
            i += 1;
        }
        proof {
            assert(list.take(i as int) =~= list);
        }
        Ok(())
    }

    /// Take the next FPDU of an entity that has just arrived. An entity without any is invalid.
    pub fn receive(&mut self, entity: &[u8]) -> (r: Result<Fpdu, SessionError>)
        requires
            old(self).spec_pending().len() == 0,
        ensures
            final(self).spec_crc() == old(self).spec_crc(),
            final(self).spec_max_entity() == old(self).spec_max_entity(),
            match split(entity@, old(self).spec_crc()) {
                Err(fault) => r is Err && r->Err_0 is Decode && r->Err_0->Decode_0@ == fault
                    && final(self).spec_pending() == old(self).spec_pending(),
                Ok(parts) => {
                    let (good, fault) = readable_prefix(parts);
                    if fault is Some {
                        &&& r is Err && r->Err_0 is Decode && Some(r->Err_0->Decode_0@) == fault
                        &&& final(self).spec_pending() == good
                    } else if good.len() == 0 {
                        &&& r == Err::<Fpdu, SessionError>(
                            SessionError::Transport(
                                TransportError::Invalid(entity@.len() as usize),
                            ),
                        )
                        &&& final(self).spec_pending() == good
                    } else {
                        &&& r is Ok && r->Ok_0@ == good[0]
                        &&& final(self).spec_pending() == good.skip(1)
                    }
                },
            },
    {
        let ghost before = self.spec_pending();
        match self.queue_entity(entity) {
            Ok(()) => {},
            Err(e) => {
                proof {
                    if let Ok(parts) = split(entity@, old(self).spec_crc()) {
                        assert(before + readable_prefix(parts).0 =~= readable_prefix(parts).0);
                    }
                }
                return Err(e);
            },
        }
        proof {
            let parts = split(entity@, old(self).spec_crc())->Ok_0;
            assert(before + readable_prefix(parts).0 =~= readable_prefix(parts).0);
        }
        match self.next() {
            Some(f) => Ok(f),
            None => Err(SessionError::Transport(TransportError::Invalid(entity.len()))),
        }
    }
}

impl Default for Link {
    fn default() -> (r: Self)
        ensures
            r.spec_pending() == Seq::<FpduV>::empty(),
            !r.spec_crc(),
            r.spec_max_entity() == 0xFFFF,
    {
        Link::new()
    }
}

} // verus!
