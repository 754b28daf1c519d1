//! SHA-384 measurement registers (TDX RTMRs) and the fixed event data that
//! the firmware and boot loader measure into them.

use vstd::prelude::*;

use crate::hash::{sha384, sha384_of};

verus! {

/// EV_EFI_ACTION data: `Calling EFI Application from Boot Option`.
pub const CALLING_EFI_APP: [u8; 40] = [
    0x43, 0x61, 0x6c, 0x6c, 0x69, 0x6e, 0x67, 0x20, 0x45, 0x46, 0x49, 0x20, 0x41, 0x70, 0x70, 0x6c,
    0x69, 0x63, 0x61, 0x74, 0x69, 0x6f, 0x6e, 0x20, 0x66, 0x72, 0x6f, 0x6d, 0x20, 0x42, 0x6f, 0x6f,
    0x74, 0x20, 0x4f, 0x70, 0x74, 0x69, 0x6f, 0x6e,
];

/// EV_SEPARATOR data.
pub const SEPARATOR: [u8; 4] = [0, 0, 0, 0];

/// EV_EFI_ACTION data: `Exit Boot Services Invocation`.
pub const EXIT_BOOT_SERVICES: [u8; 29] = [
    0x45, 0x78, 0x69, 0x74, 0x20, 0x42, 0x6f, 0x6f, 0x74, 0x20, 0x53, 0x65, 0x72, 0x76, 0x69, 0x63,
    0x65, 0x73, 0x20, 0x49, 0x6e, 0x76, 0x6f, 0x63, 0x61, 0x74, 0x69, 0x6f, 0x6e,
];

/// EV_EFI_ACTION data: `Exit Boot Services Returned with Success`.
pub const EXIT_BOOT_SERVICES_SUCCESS: [u8; 40] = [
    0x45, 0x78, 0x69, 0x74, 0x20, 0x42, 0x6f, 0x6f, 0x74, 0x20, 0x53, 0x65, 0x72, 0x76, 0x69, 0x63,
    0x65, 0x73, 0x20, 0x52, 0x65, 0x74, 0x75, 0x72, 0x6e, 0x65, 0x64, 0x20, 0x77, 0x69, 0x74, 0x68,
    0x20, 0x53, 0x75, 0x63, 0x63, 0x65, 0x73, 0x73,
];

/// 48 zero bytes: the value of a register after reset.
pub open spec fn zero_value() -> Seq<u8> {
    Seq::new(48, |i: int| 0u8)
}

/// Extending a register: the new value is the SHA-384 of the old value
/// followed by the event digest.
pub open spec fn extend_value(value: Seq<u8>, digest: Seq<u8>) -> Seq<u8> {
    sha384_of(value + digest)
}

/// The value of a register that started at `initial` after being extended
/// with each digest in turn.
pub open spec fn replay(initial: Seq<u8>, digests: Seq<Seq<u8>>) -> Seq<u8>
    decreases digests.len(),
{
    if digests.len() == 0 {
        initial
    } else {
        extend_value(replay(initial, digests.drop_last()), digests.last())
    }
}

/// Measuring events in two stages is measuring them all at once: replaying
/// `b` from the value `a` left gives the value of replaying `a + b`.
pub proof fn law_replay_append(initial: Seq<u8>, a: Seq<Seq<u8>>, b: Seq<Seq<u8>>)
    ensures
        replay(initial, a + b) == replay(replay(initial, a), b),
    decreases b.len(),
{
    if b.len() == 0 {
        assert(a + b =~= a);
    } else {
        law_replay_append(initial, a, b.drop_last());
        assert((a + b).drop_last() =~= a + b.drop_last());
        assert((a + b).last() == b.last());
    }
}

/// One measured event: what it is and the digest that was extended.
#[derive(Debug, Clone, Copy)]
pub struct RegisterEvent {
    pub label: &'static str,
    pub digest: [u8; 48],
}

/// A SHA-384 measurement register together with the log of the digests
/// extended into it.
#[derive(Debug)]
pub struct Register {
    initial: [u8; 48],
    value: [u8; 48],
    events: Vec<RegisterEvent>,
}

impl Register {
    /// The value the register started from.
    pub closed spec fn initial(&self) -> Seq<u8> {
        self.initial@
    }

    /// The digests extended into the register, in order.
    pub closed spec fn digests(&self) -> Seq<Seq<u8>> {
        self.events@.map_values(|e: RegisterEvent| e.digest@)
    }

    /// The labels of the measured events, in order.
    pub closed spec fn labels(&self) -> Seq<&'static str> {
        self.events@.map_values(|e: RegisterEvent| e.label)
    }

    /// The current value is the replay of the log.
    #[verifier::type_invariant]
    closed spec fn replays(&self) -> bool {
        self.value@ == replay(self.initial@, self.digests())
    }

    /// A register at reset (all zeros).
    pub fn new() -> (r: Register)
        ensures
            r.initial() == zero_value(),
            r.digests() == Seq::<Seq<u8>>::empty(),
            r.labels() == Seq::<&'static str>::empty(),
    {
        let r = Register { initial: [0u8; 48], value: [0u8; 48], events: Vec::new() };
        assert(r.initial@ =~= zero_value());
        assert(r.digests() =~= Seq::<Seq<u8>>::empty());
        r
    }

    /// A register that starts from the given value.
    pub fn from_value(value: [u8; 48]) -> (r: Register)
        ensures
            r.initial() == value@,
            r.digests() == Seq::<Seq<u8>>::empty(),
            r.labels() == Seq::<&'static str>::empty(),
    {
        let r = Register { initial: value, value, events: Vec::new() };
        assert(r.digests() =~= Seq::<Seq<u8>>::empty());
        r
    }

    /// The current value of the register.
    pub fn value(&self) -> (v: [u8; 48])
        ensures
            v@ == replay(self.initial(), self.digests()),
    {
        proof {
            use_type_invariant(self);
        }
        self.value
    }

    /// The measured events, in order.
    pub fn events(&self) -> (events: &Vec<RegisterEvent>)
        ensures
            events@.map_values(|e: RegisterEvent| e.digest@) == self.digests(),
            events@.map_values(|e: RegisterEvent| e.label) == self.labels(),
    {
        &self.events
    }

    /// Extends the register with an event digest.
    pub fn extend_raw(&mut self, digest: [u8; 48], label: &'static str)
        ensures
            final(self).initial() == old(self).initial(),
            final(self).digests() == old(self).digests().push(digest@),
            final(self).labels() == old(self).labels().push(label),
    {
        proof {
            use_type_invariant(&*self);
        }
        let mut input: Vec<u8> = Vec::new();
        let mut i: usize = 0;
        while i < 48
            invariant
                i <= 48,
                input@ == self.value@.subrange(0, i as int),
            decreases 48 - i,
        {
            input.push(self.value[i]);
            i = i + 1;
            assert(input@ =~= self.value@.subrange(0, i as int));
        }
        let mut j: usize = 0;
        while j < 48
            invariant
                j <= 48,
                input@ == self.value@ + digest@.subrange(0, j as int),
            decreases 48 - j,
        {
            input.push(digest[j]);
            j = j + 1;
            assert(input@ =~= self.value@ + digest@.subrange(0, j as int));
        }
        assert(self.value@.subrange(0, 48) =~= self.value@);
        assert(digest@.subrange(0, 48) =~= digest@);
        let new_value = sha384(input.as_slice());
        let ghost old_digests = self.digests();
        let mut events: Vec<RegisterEvent> = Vec::new();
        let mut k: usize = 0;
        while k < self.events.len()
            invariant
                k <= self.events@.len(),
                events@ == self.events@.subrange(0, k as int),
            decreases self.events@.len() - k,
        {
            events.push(self.events[k]);
            k = k + 1;
            assert(events@ =~= self.events@.subrange(0, k as int));
        }
        assert(events@ =~= self.events@);
        events.push(RegisterEvent { label, digest });
        proof {
            let new_digests = events@.map_values(|e: RegisterEvent| e.digest@);
            assert(events@.map_values(|e: RegisterEvent| e.label) =~= self.labels().push(label));
            assert(new_digests =~= old_digests.push(digest@));
            assert(new_digests.drop_last() =~= old_digests);
        }
        *self = Register { initial: self.initial, value: new_value, events };
    }

    /// Extends the register with the SHA-384 digest of event data.
    pub fn extend(&mut self, data: &[u8], label: &'static str)
        ensures
            final(self).initial() == old(self).initial(),
            final(self).digests() == old(self).digests().push(sha384_of(data@)),
            final(self).labels() == old(self).labels().push(label),
    {
        let digest = sha384(data);
        self.extend_raw(digest, label);
    }
}

} // verus!
