//! Memory that may not be there.
use vstd::prelude::*;

verus! {

/// `len` bytes of zero.
pub open spec fn zeros(len: nat) -> Seq<u8> {
    Seq::new(len, |i: int| 0u8)
}

/// Memory that was reserved for a number of bytes, none of which is there yet.
#[derive(Debug, PartialEq, Eq)]
pub struct Room {
    buf: Vec<u8>,
    size: usize,
}

impl Room {
    #[verifier::type_invariant]
    spec fn is_empty(self) -> bool {
        self.buf@.len() == 0
    }

    /// For how many bytes the memory was reserved.
    pub closed spec fn spec_size(self) -> nat {
        self.size as nat
    }

    /// For how many bytes the memory was reserved.
    pub fn size(&self) -> (size: usize)
        ensures
            size == self.spec_size(),
    {
        self.size
    }

    /// Fills the room with zeros.
    pub fn into_zeros(self) -> (buf: Vec<u8>)
        ensures
            buf@ == zeros(self.spec_size()),
            buf@.len() == self.spec_size(),
            forall|i: int| 0 <= i < buf@.len() ==> buf@[i] == 0,
    {
        proof {
            use_type_invariant(&self);
        }
        let size = self.size();
        let mut buf = self.buf;
        buf.resize(size, 0);
        assert(buf@ =~= zeros(self.spec_size()));
        buf
    }
}

/// `room` is what can come of reserving memory for `size` bytes: room for that
/// many, or none at all, but not for want of memory where nothing is asked for.
pub open spec fn reserves(size: nat, room: Option<Room>) -> bool {
    match room {
        Some(room) => room.spec_size() == size,
        None => size > 0,
    }
}

/// Calls `Vec::try_reserve_exact` on `buf`, which is empty: where it succeeds
/// there is room for `additional` bytes in `buf`, and `buf` is still empty. It
/// does not fail where `additional` is nothing; whether it fails otherwise depends
/// on the machine.
#[verifier::external_body]
fn try_reserve_exact(buf: Vec<u8>, additional: usize) -> (room: Option<Room>)
    requires
        buf@.len() == 0,
    ensures
        match room {
            Some(room) => room.buf@ == buf@ && room.size == additional,
            None => additional > 0,
        },
{
    let mut buf = buf;
    match buf.try_reserve_exact(additional) {
        Ok(()) => Some(Room { buf, size: additional }),
        Err(_) => None,
    }
}

/// Reserves memory for `size` bytes.
pub fn reserve(size: usize) -> (room: Option<Room>)
    ensures
        reserves(size as nat, room),
{
    try_reserve_exact(Vec::new(), size)
}

/// Two attempts to reserve memory have come to the same.
pub open spec fn same_room(a: Option<Room>, b: Option<Room>) -> bool {
    match (a, b) {
        (Some(a), Some(b)) => a.spec_size() == b.spec_size(),
        (None, None) => true,
        _ => false,
    }
}

} // verus!
