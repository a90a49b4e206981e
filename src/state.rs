use vstd::prelude::*;

use crate::error::LotteryError;
use crate::pubkey::{Pubkey, PUBKEY_BYTES};

verus! {

broadcast use vstd::array::group_array_axioms;

/// Largest number of tickets one round can hold.
pub const MAX_PLAYERS: usize = 64;

/// Offset of the authority identity: one marker byte precedes it.
pub const AUTHORITY_OFFSET: usize = 1;

/// Offset of the little-endian `u32` ticket count.
pub const COUNT_OFFSET: usize = 33;

/// Offset of the first ticket holder's identity.
pub const TICKETS_OFFSET: usize = 37;

/// Size in bytes of the record storage, reserved for `MAX_PLAYERS` tickets.
pub const RECORD_LEN: usize = TICKETS_OFFSET + PUBKEY_BYTES * MAX_PLAYERS;

/// Marker byte of storage that holds an initialized record.
pub const INITIALIZED: u8 = 1;

/// The persisted lottery record: who may draw, and who holds a ticket, in
/// purchase order (the same holder may appear several times).
#[derive(Debug)]
pub struct Lottery {
    pub authority: Pubkey,
    pub tickets: Vec<Pubkey>,
}

/// The record as bytes of identities.
pub struct LotteryView {
    pub authority: Seq<u8>,
    pub tickets: Seq<Seq<u8>>,
}

impl View for Lottery {
    type V = LotteryView;

    open spec fn view(&self) -> LotteryView {
        LotteryView { authority: self.authority@, tickets: self.tickets@.map_values(|k: Pubkey| k@) }
    }
}

impl LotteryView {
    /// The record right after initialization, or right after a draw.
    pub open spec fn empty(authority: Seq<u8>) -> LotteryView {
        LotteryView { authority, tickets: Seq::empty() }
    }

    pub open spec fn push_ticket(self, holder: Seq<u8>) -> LotteryView {
        LotteryView { authority: self.authority, tickets: self.tickets.push(holder) }
    }

    /// Every identity has the identity width and the list is within capacity.
    pub open spec fn wf(self) -> bool {
        &&& self.authority.len() == PUBKEY_BYTES
        &&& self.tickets.len() <= MAX_PLAYERS
        &&& forall|i: int| 0 <= i < self.tickets.len() ==> (#[trigger] self.tickets[i]).len() == PUBKEY_BYTES
    }
}

/// The ticket count stored at `COUNT_OFFSET`, read as a little-endian `u32`.
pub open spec fn stored_count(data: Seq<u8>) -> nat {
    (data[33] as nat) + 256 * (data[34] as nat) + 65536 * (data[35] as nat) + 16777216 * (data[36] as nat)
}

/// The identity stored in ticket slot `i`.
pub open spec fn ticket_slot(data: Seq<u8>, i: int) -> Seq<u8> {
    data.subrange(TICKETS_OFFSET + PUBKEY_BYTES * i, TICKETS_OFFSET + PUBKEY_BYTES * i + PUBKEY_BYTES)
}

/// What record storage holds: the record, or why it holds none.
pub open spec fn decode_record(data: Seq<u8>) -> Result<LotteryView, LotteryError> {
    if data.len() != RECORD_LEN {
        Err(LotteryError::InvalidAccountData)
    } else if data[0] != INITIALIZED {
        Err(LotteryError::NotInitialized)
    } else if stored_count(data) > MAX_PLAYERS {
        Err(LotteryError::InvalidAccountData)
    } else {
        Ok(
            LotteryView {
                authority: data.subrange(AUTHORITY_OFFSET as int, COUNT_OFFSET as int),
                tickets: Seq::new(stored_count(data), |i: int| ticket_slot(data, i)),
            },
        )
    }
}

/// `data` is the storage image of `v`: it decodes to `v`, and every byte
/// past the last ticket is zero.
pub open spec fn encodes(data: Seq<u8>, v: LotteryView) -> bool {
    &&& decode_record(data) == Ok::<LotteryView, LotteryError>(v)
    &&& forall|i: int|
        TICKETS_OFFSET + PUBKEY_BYTES * v.tickets.len() <= i < RECORD_LEN ==> #[trigger] data[i] == 0
}

/// Appends the bytes of `key` to `out`.
fn push_key(out: &mut Vec<u8>, key: &Pubkey)
    ensures
        final(out)@ == old(out)@ + key@,
{
    let mut i: usize = 0;
    while i < PUBKEY_BYTES
        invariant
            0 <= i <= PUBKEY_BYTES,
            key@.len() == PUBKEY_BYTES,
            out@ == old(out)@ + key@.subrange(0, i as int),
        decreases PUBKEY_BYTES - i,
    {
        out.push(key.bytes[i]);
        i = i + 1;
        assert(out@ =~= old(out)@ + key@.subrange(0, i as int));
    }
    assert(key@.subrange(0, PUBKEY_BYTES as int) =~= key@);
}

/// Reads the identity stored at `off`.
fn read_key(data: &Vec<u8>, off: usize) -> (r: Pubkey)
    requires
        off + PUBKEY_BYTES <= data@.len(),
    ensures
        r@ == data@.subrange(off as int, off + PUBKEY_BYTES),
{
    let len: usize = data.len();
    let mut bytes: [u8; 32] = [0u8; 32];
    let mut i: usize = 0;
    while i < PUBKEY_BYTES
        invariant
            0 <= i <= PUBKEY_BYTES,
            off + PUBKEY_BYTES <= len,
            len == data@.len(),
            bytes@.len() == PUBKEY_BYTES,
            forall|j: int| 0 <= j < i ==> bytes@[j] == data@[off + j],
        decreases PUBKEY_BYTES - i,
    {
        bytes[i] = data[off + i];
        i = i + 1;
    }
    let r = Pubkey { bytes };
    assert(r@ =~= data@.subrange(off as int, off + PUBKEY_BYTES));
    r
}

impl Lottery {
    /// The record of a new round under `authority`, with no ticket sold.
    pub fn new(authority: Pubkey) -> (r: Lottery)
        ensures
            r@ == LotteryView::empty(authority@),
            r.tickets@.len() == 0,
    {
        let r = Lottery { authority, tickets: Vec::new() };
        assert(r@.tickets =~= Seq::<Seq<u8>>::empty());
        r
    }

    /// The storage image of this record, `RECORD_LEN` bytes long. A record
    /// over capacity has none: its storage was sized for `MAX_PLAYERS`.
    pub fn pack(&self) -> (r: Vec<u8>)
        requires
            self.tickets@.len() <= MAX_PLAYERS,
        ensures
            encodes(r@, self@),
    {
        let mut out: Vec<u8> = Vec::new();
        out.push(INITIALIZED);
        push_key(&mut out, &self.authority);
        let n: usize = self.tickets.len();
        out.push(n as u8);
        out.push(0);
        out.push(0);
        out.push(0);
        assert(out@.subrange(AUTHORITY_OFFSET as int, COUNT_OFFSET as int) =~= self.authority@);
        let mut i: usize = 0;
        while i < n
            invariant
                0 <= i <= n,
                n == self.tickets@.len(),
                n <= MAX_PLAYERS,
                out@.len() == TICKETS_OFFSET + PUBKEY_BYTES * i,
                out@[0] == INITIALIZED,
                out@.subrange(AUTHORITY_OFFSET as int, COUNT_OFFSET as int) == self.authority@,
                out@[33] == n as u8,
                out@[34] == 0,
                out@[35] == 0,
                out@[36] == 0,
                forall|j: int| 0 <= j < i ==> ticket_slot(out@, j) == #[trigger] self.tickets@[j]@,
            decreases n - i,
        {
            let ghost before = out@;
            push_key(&mut out, &self.tickets[i]);
            assert(out@.subrange(AUTHORITY_OFFSET as int, COUNT_OFFSET as int)
                =~= before.subrange(AUTHORITY_OFFSET as int, COUNT_OFFSET as int));
            assert forall|j: int| 0 <= j < i + 1 implies ticket_slot(out@, j) == #[trigger] self.tickets@[j]@ by {
                if j < i {
                    assert(ticket_slot(out@, j) =~= ticket_slot(before, j));
                } else {
                    assert(ticket_slot(out@, j) =~= self.tickets@[j]@);
                }
            }
            i = i + 1;
        }
        let used: usize = out.len();
        while out.len() < RECORD_LEN
            invariant
                used == TICKETS_OFFSET + PUBKEY_BYTES * n,
                n == self.tickets@.len(),
                n <= MAX_PLAYERS,
                used <= out@.len() <= RECORD_LEN,
                out@[0] == INITIALIZED,
                out@.subrange(AUTHORITY_OFFSET as int, COUNT_OFFSET as int) == self.authority@,
                out@[33] == n as u8,
                out@[34] == 0,
                out@[35] == 0,
                out@[36] == 0,
                forall|j: int| 0 <= j < n ==> ticket_slot(out@, j) == #[trigger] self.tickets@[j]@,
                forall|j: int| used <= j < out@.len() ==> #[trigger] out@[j] == 0,
            decreases RECORD_LEN - out@.len(),
        {
            let ghost before = out@;
            out.push(0);
            assert(out@.subrange(AUTHORITY_OFFSET as int, COUNT_OFFSET as int)
                =~= before.subrange(AUTHORITY_OFFSET as int, COUNT_OFFSET as int));
            assert forall|j: int| 0 <= j < n implies ticket_slot(out@, j) == #[trigger] self.tickets@[j]@ by {
                assert(ticket_slot(out@, j) =~= ticket_slot(before, j));
            }
        }
        assert(stored_count(out@) == n);
        let ghost d = decode_record(out@);
        assert(d is Ok);
        assert(d->Ok_0.tickets =~= self@.tickets);
        assert(d->Ok_0.authority =~= self@.authority);
        out
    }

    /// Reads the record held in storage.
    pub fn unpack(data: &Vec<u8>) -> (r: Result<Lottery, LotteryError>)
        ensures
            match decode_record(data@) {
                Ok(v) => r is Ok && r->Ok_0@ == v,
                Err(e) => r == Err::<Lottery, LotteryError>(e),
            },
            r is Ok ==> r->Ok_0@.wf(),
    {
        if data.len() != RECORD_LEN {
            return Err(LotteryError::InvalidAccountData);
        }
        if data[0] != INITIALIZED {
            return Err(LotteryError::NotInitialized);
        }
        let count: u64 = data[33] as u64 + 256 * (data[34] as u64) + 65536 * (data[35] as u64)
            + 16777216 * (data[36] as u64);
        if count > MAX_PLAYERS as u64 {
            return Err(LotteryError::InvalidAccountData);
        }
        let n: usize = count as usize;
        let authority = read_key(data, AUTHORITY_OFFSET);
        let mut tickets: Vec<Pubkey> = Vec::new();
        let mut i: usize = 0;
        while i < n
            invariant
                0 <= i <= n,
                n == stored_count(data@),
                n <= MAX_PLAYERS,
                data@.len() == RECORD_LEN,
                tickets@.len() == i,
                forall|j: int| 0 <= j < i ==> (#[trigger] tickets@[j])@ == ticket_slot(data@, j),
            decreases n - i,
        {
            let k = read_key(data, TICKETS_OFFSET + PUBKEY_BYTES * i);
            tickets.push(k);
            i = i + 1;
        }
        let r = Lottery { authority, tickets };
        assert(r@.tickets =~= Seq::new(stored_count(data@), |i: int| ticket_slot(data@, i)));
        Ok(r)
    }
}

} // verus!
