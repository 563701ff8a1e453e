//! The event capsule: an owned, fixed-size copy of one raw MIDI event.
use vstd::prelude::*;
use vstd::string::StringExecFns;
use crate::text::{byte_list, decimal, push_byte_list, push_decimal};

verus! {

/// The largest number of bytes a capsule keeps of one event.
pub const MAX_MIDI: usize = 3;

/// An owned snapshot of one MIDI event: at most `MAX_MIDI` bytes and the
/// frame offset of the event within its processing block.
#[derive(Copy, Clone)]
pub struct MidiCopy {
    len: usize,
    data: [u8; 3],
    time: u32,
}

/// The number of bytes a capsule keeps of an event of `n` bytes.
pub open spec fn kept_len(n: nat) -> nat {
    if n <= MAX_MIDI as nat { n } else { MAX_MIDI as nat }
}

impl MidiCopy {
    /// The valid bytes of the capsule.
    pub closed spec fn payload(self) -> Seq<u8> {
        self.data@.subrange(0, self.len as int)
    }

    /// The frame offset of the event within its block.
    pub closed spec fn timestamp(self) -> u32 {
        self.time
    }

    /// The capsule's length never exceeds its capacity, and the unused
    /// bytes are zero.
    #[verifier::type_invariant]
    pub closed spec fn wf(self) -> bool {
        &&& self.len <= MAX_MIDI
        &&& forall|i: int| self.len <= i < MAX_MIDI ==> self.data@[i] == 0u8
    }

    /// What `capture` makes of an event with bytes `bytes` at `time`.
    pub open spec fn captured(self, bytes: Seq<u8>, time: u32) -> bool {
        &&& self.wf()
        &&& self.payload() == bytes.subrange(0, kept_len(bytes.len()) as int)
        &&& self.timestamp() == time
    }

    /// Copies an event into a capsule, keeping its first `MAX_MIDI` bytes
    /// and its timestamp; longer events are truncated.
    pub fn capture(bytes: &[u8], time: u32) -> (r: MidiCopy)
        ensures
            r.captured(bytes@, time),
    {
        let len: usize = if bytes.len() < MAX_MIDI { bytes.len() } else { MAX_MIDI };
        let mut data: [u8; 3] = [0u8; 3];
        let mut i: usize = 0;
        while i < len
            invariant
                len <= MAX_MIDI,
                len <= bytes@.len(),
                i <= len,
                forall|j: int| 0 <= j < i ==> data@[j] == bytes@[j],
                forall|j: int| i <= j < MAX_MIDI ==> data@[j] == 0u8,
            decreases len - i,
        {
            data[i] = bytes[i];
            i = i + 1;
        }
        let r = MidiCopy { len, data, time };
        assert(r.payload() =~= bytes@.subrange(0, kept_len(bytes@.len()) as int));
        r
    }

    /// The diagnostic text of a capsule:
    /// `Midi { time: T, len N, data: [B0, B1, ...] }`, listing the valid bytes only.
    pub open spec fn debug_text(self) -> Seq<char> {
        seq!['M', 'i', 'd', 'i', ' ', '{', ' ', 't', 'i', 'm', 'e', ':', ' ']
            + decimal(self.timestamp() as nat)
            + seq![',', ' ', 'l', 'e', 'n', ' ']
            + decimal(self.payload().len())
            + seq![',', ' ', 'd', 'a', 't', 'a', ':', ' ']
            + byte_list(self.payload())
            + seq![' ', '}']
    }

    /// Renders the capsule for diagnostics; not meant for the real-time path.
    pub fn render_debug(&self) -> (r: String)
        ensures
            r@ == self.debug_text(),
    {
        proof {
            use_type_invariant(self);
            reveal_strlit("Midi { time: ");
            reveal_strlit(", len ");
            reveal_strlit(", data: ");
            reveal_strlit(" }");
        }
        let head = "Midi { time: ";
        assert(head@ =~= seq!['M', 'i', 'd', 'i', ' ', '{', ' ', 't', 'i', 'm', 'e', ':', ' ']);
        let mut s = String::from_str(head);
        push_decimal(&mut s, self.time as u64);
        let sep_len = ", len ";
        assert(sep_len@ =~= seq![',', ' ', 'l', 'e', 'n', ' ']);
        s.append(sep_len);
        push_decimal(&mut s, self.len as u64);
        let sep_data = ", data: ";
        assert(sep_data@ =~= seq![',', ' ', 'd', 'a', 't', 'a', ':', ' ']);
        s.append(sep_data);
        let valid = self.data.as_slice().split_at(self.len).0;
        assert(valid@ =~= self.payload());
        push_byte_list(&mut s, valid);
        let tail = " }";
        assert(tail@ =~= seq![' ', '}']);
        s.append(tail);
        assert(s@ =~= self.debug_text());
        s
    }

    /// The frame offset of the event within its block.
    pub fn time(&self) -> (r: u32)
        ensures
            r == self.timestamp(),
    {
        self.time
    }

    /// The valid bytes, copied out.
    pub fn bytes(&self) -> (r: Vec<u8>)
        ensures
            r@ == self.payload(),
    {
        proof {
            use_type_invariant(self);
        }
        let mut r: Vec<u8> = Vec::new();
        let mut i: usize = 0;
        while i < self.len
            invariant
                self.len <= MAX_MIDI,
                i <= self.len,
                r@ == self.data@.subrange(0, i as int),
            decreases self.len - i,
        {
            r.push(self.data[i]);
            i = i + 1;
            assert(r@ =~= self.data@.subrange(0, i as int));
        }
        r
    }

    /// The number of valid bytes.
    pub fn len(&self) -> (r: usize)
        ensures
            r == self.payload().len(),
    {
        proof {
            use_type_invariant(self);
        }
        self.len
    }
}

/// An event no longer than the capacity comes through capture whole: every
/// byte and the timestamp are kept.
pub proof fn lemma_capture_keeps_short_event(bytes: Seq<u8>, time: u32, c: MidiCopy)
    requires
        bytes.len() <= MAX_MIDI,
        c.captured(bytes, time),
    ensures
        c.payload() == bytes,
        c.payload().len() == bytes.len(),
        c.timestamp() == time,
{
    assert(bytes.subrange(0, bytes.len() as int) =~= bytes);
}

/// An event longer than the capacity is cut to exactly its first `MAX_MIDI`
/// bytes, with the timestamp kept.
pub proof fn lemma_capture_truncates_long_event(bytes: Seq<u8>, time: u32, c: MidiCopy)
    requires
        bytes.len() > MAX_MIDI,
        c.captured(bytes, time),
    ensures
        c.payload().len() == MAX_MIDI,
        c.payload() == bytes.subrange(0, MAX_MIDI as int),
        c.timestamp() == time,
{
}

} // verus!
