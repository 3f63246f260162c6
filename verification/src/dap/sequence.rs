//! DAP_SWJ_Sequence and DAP_SWD_Sequence: raw bits out of a packet, and back into one.
use vstd::prelude::*;

use crate::probe::{reads_in, reads_of_concatenation, WireOp};

verus! {

/// Bytes that `n` bits take.
pub open spec fn bytes_for(n: int) -> int {
    (n + 7) / 8
}

/// The bits of the `i`th byte of `n` bits.
pub open spec fn bits_of_byte(n: int, i: int) -> int {
    if n - 8 * i < 8 {
        n - 8 * i
    } else {
        8
    }
}

/// `n` bits written out of the packet, from the byte at `di` on.
pub open spec fn bytes_out(req: Seq<u8>, di: int, n: int) -> Seq<WireOp> {
    Seq::new(
        bytes_for(n) as nat,
        |i: int| WireOp::Write { bits: bits_of_byte(n, i) as u32, data: req[di + i] as u32 },
    )
}

/// `n` bits read, a byte at a time.
pub open spec fn bytes_in(n: int) -> Seq<WireOp> {
    Seq::new(bytes_for(n) as nat, |i: int| WireOp::Read { bits: bits_of_byte(n, i) as u32 })
}

/// The bits of a DAP_SWJ_Sequence; 0 stands for 256.
pub open spec fn swj_bit_count(b: u8) -> int {
    if b == 0 {
        256
    } else {
        b as int
    }
}

/// The clocks of one sequence of a DAP_SWD_Sequence; 0 stands for 64.
pub open spec fn seq_clocks(info: u8) -> int {
    if info % 64 == 0 {
        64
    } else {
        (info % 64) as int
    }
}

/// The sequence samples SWDIO rather than driving it.
pub open spec fn seq_samples(info: u8) -> bool {
    info >= 128
}

/// Bytes that one sequence takes in the packet, its info byte not counted.
pub open spec fn seq_data(info: u8) -> int {
    if seq_samples(info) {
        0
    } else {
        bytes_for(seq_clocks(info))
    }
}

/// The wire operations of the `n` sequences from `di` on.
pub open spec fn sequence_ops(req: Seq<u8>, di: int, n: nat) -> Seq<WireOp>
    decreases n,
{
    if n == 0 {
        Seq::empty()
    } else {
        let info = req[di];
        let first = if seq_samples(info) {
            bytes_in(seq_clocks(info))
        } else {
            bytes_out(req, di + 1, seq_clocks(info))
        };
        first + sequence_ops(req, di + 1 + seq_data(info), (n - 1) as nat)
    }
}

/// The packet has the bytes of the `n` sequences from `di` on.
pub open spec fn sequences_present(req: Seq<u8>, di: int, n: nat) -> bool
    decreases n,
{
    n == 0 || {
        &&& di < req.len()
        &&& di + 1 + seq_data(req[di]) <= req.len()
        &&& sequences_present(req, di + 1 + seq_data(req[di]), (n - 1) as nat)
    }
}

/// Every operation that reads bits brings back a word.
proof fn all_read(ops: Seq<WireOp>)
    requires
        forall|i: int| 0 <= i < ops.len() ==> #[trigger] ops[i] is Read,
    ensures
        reads_in(ops) == ops.len(),
    decreases ops.len(),
{
    if ops.len() > 0 {
        all_read(ops.drop_last());
        assert(ops.last() is Read);
    }
}

proof fn none_read(ops: Seq<WireOp>)
    requires
        forall|i: int| 0 <= i < ops.len() ==> !(#[trigger] ops[i] is Read),
    ensures
        reads_in(ops) == 0,
    decreases ops.len(),
{
    if ops.len() > 0 {
        none_read(ops.drop_last());
        assert(!(ops.last() is Read));
    }
}

/// A sequence that samples brings back one byte for each eight clocks or part of eight, one
/// that drives brings back none.
pub proof fn sampled_bytes(req: Seq<u8>, di: int, n: int)
    requires
        n >= 0,
    ensures
        reads_in(bytes_in(n)) == bytes_for(n),
        reads_in(bytes_out(req, di, n)) == 0,
{
    all_read(bytes_in(n));
    none_read(bytes_out(req, di, n));
}

/// Appends `n` bits out of the packet.
pub fn push_bytes_out(req: &[u8], di: usize, n: u32, ops: &mut Vec<WireOp>)
    requires
        n <= 256,
        di + bytes_for(n as int) <= req@.len(),
    ensures
        final(ops)@ == old(ops)@ + bytes_out(req@, di as int, n as int),
{
    let ghost before = ops@;
    let mut left: u32 = n;
    let mut at: usize = di;
    while left > 0
        invariant
            left <= n <= 256,
            di <= at,
            at - di <= bytes_for(n as int),
            di + bytes_for(n as int) <= req@.len(),
            left > 0 ==> left == n - 8 * (at - di),
            left == 0 ==> at - di == bytes_for(n as int),
            ops@ == before + bytes_out(req@, di as int, n as int).subrange(0, at - di),
        decreases left,
    {
        let bits: u32 = if left < 8 {
            left
        } else {
            8
        };
        ops.push(WireOp::Write { bits, data: req[at] as u32 });
        at = at + 1;
        left = left - bits;
        assert(ops@ =~= before + bytes_out(req@, di as int, n as int).subrange(0, at - di));
    }
    assert(ops@ =~= before + bytes_out(req@, di as int, n as int));
}

/// Appends `n` bits to be read; gives the number of bytes they take.
pub fn push_bytes_in(n: u32, ops: &mut Vec<WireOp>) -> (r: usize)
    requires
        n <= 256,
    ensures
        final(ops)@ == old(ops)@ + bytes_in(n as int),
        r == bytes_for(n as int),
{
    let ghost before = ops@;
    let mut left: u32 = n;
    let mut k: usize = 0;
    while left > 0
        invariant
            left <= n <= 256,
            k <= bytes_for(n as int),
            left > 0 ==> left == n - 8 * k,
            left == 0 ==> k == bytes_for(n as int),
            ops@ == before + bytes_in(n as int).subrange(0, k as int),
        decreases left,
    {
        let bits: u32 = if left < 8 {
            left
        } else {
            8
        };
        ops.push(WireOp::Read { bits });
        k = k + 1;
        left = left - bits;
        assert(ops@ =~= before + bytes_in(n as int).subrange(0, k as int));
    }
    assert(ops@ =~= before + bytes_in(n as int));
    k
}

/// The wire operations of a DAP_SWD_Sequence packet and the number of words they bring
/// back; none where the packet lacks bytes.
pub fn swd_sequence_ops(req: &[u8]) -> (r: Option<(Vec<WireOp>, usize)>)
    requires
        req@.len() >= 2,
    ensures
        r is Some <==> sequences_present(req@, 2, req@[1] as nat),
        r matches Some(x) ==> {
            &&& x.0@ == sequence_ops(req@, 2, req@[1] as nat)
            &&& x.1 == reads_in(x.0@)
        },
{
    let mut ops: Vec<WireOp> = Vec::new();
    let mut di: usize = 2;
    let mut left: u8 = req[1];
    let mut reads: usize = 0;
    let ghost all = sequence_ops(req@, 2, req@[1] as nat);
    let ghost present = sequences_present(req@, 2, req@[1] as nat);
    assert(ops@ + all =~= all);
    while left > 0
        invariant
            2 <= di <= req@.len(),
            reads <= 8 * (255 - left),
            reads == reads_in(ops@),
            sequences_present(req@, di as int, left as nat) == present,
            ops@ + sequence_ops(req@, di as int, left as nat) == all,
            all == sequence_ops(req@, 2, req@[1] as nat),
            present == sequences_present(req@, 2, req@[1] as nat),
        decreases left,
    {
        let ghost before = ops@;
        let ghost rest = sequence_ops(req@, di as int, left as nat);
        if di == req.len() {
            return None;
        }
        let info: u8 = req[di];
        let clocks: u32 = if info % 64 == 0 {
            64
        } else {
            (info % 64) as u32
        };
        proof {
            sampled_bytes(req@, di + 1, clocks as int);
        }
        if info >= 128 {
            let n: usize = push_bytes_in(clocks, &mut ops);
            proof {
                reads_of_concatenation(before, bytes_in(clocks as int));
            }
            reads = reads + n;
            di = di + 1;
        } else {
            let n: usize = ((clocks + 7) / 8) as usize;
            if req.len() - di - 1 < n {
                return None;
            }
            push_bytes_out(req, di + 1, clocks, &mut ops);
            proof {
                reads_of_concatenation(before, bytes_out(req@, di + 1, clocks as int));
            }
            di = di + 1 + n;
        }
        left = left - 1;
        assert(ops@ + sequence_ops(req@, di as int, left as nat) =~= before + rest);
    }
    assert(ops@ =~= all);
    Some((ops, reads))
}

/// Bits leave a packet in order: byte `i` of the data goes out with the bits that it has of
/// the `n`, eight but for the last byte, and the bytes are as many as the bits need.
pub proof fn bits_leave_in_order(req: Seq<u8>, di: int, n: int, i: int)
    requires
        0 < n,
        0 <= i < bytes_out(req, di, n).len(),
    ensures
        ({
            let ops = bytes_out(req, di, n);
            &&& 8 * (ops.len() - 1) < n <= 8 * ops.len()
            &&& ops[i] matches WireOp::Write { bits, data } && data == req[di + i] && bits == if i
                + 1 < ops.len() {
                8
            } else {
                n - 8 * i
            }
        }),
{
}

/// Bits are sampled in bytes: eight at a time, but for the last, as many as the bits need.
pub proof fn bits_are_sampled_in_order(n: int, i: int)
    requires
        0 < n,
        0 <= i < bytes_in(n).len(),
    ensures
        ({
            let ops = bytes_in(n);
            &&& 8 * (ops.len() - 1) < n <= 8 * ops.len()
            &&& ops[i] matches WireOp::Read { bits } && bits == if i + 1 < ops.len() {
                8
            } else {
                n - 8 * i
            }
        }),
{
}

/// One sequence of a DAP_SWD_Sequence: clocks, and the data that is driven meanwhile.
pub struct Train {
    /// 1 to 64.
    pub clocks: int,
    pub sample: bool,
    /// Empty where SWDIO is sampled.
    pub data: Seq<u8>,
}

impl Train {
    pub open spec fn wf(self) -> bool {
        &&& 1 <= self.clocks <= 64
        &&& if self.sample {
            self.data.len() == 0
        } else {
            8 * (self.data.len() - 1) < self.clocks <= 8 * self.data.len()
        }
    }

    /// The bytes of the sequence: clocks in six bits, 64 as 0, the direction in bit 7, and
    /// the data.
    pub open spec fn bytes(self) -> Seq<u8> {
        seq![
            ((if self.clocks == 64 {
                0
            } else {
                self.clocks
            }) + (if self.sample {
                128int
            } else {
                0
            })) as u8,
        ] + self.data
    }

    /// What the sequence does on the wire.
    pub open spec fn ops(self) -> Seq<WireOp> {
        if self.sample {
            bytes_in(self.clocks)
        } else {
            bytes_out(self.data, 0, self.clocks)
        }
    }
}

/// The bytes of some sequences, one after the other.
pub open spec fn trains_bytes(list: Seq<Train>) -> Seq<u8>
    decreases list.len(),
{
    if list.len() == 0 {
        Seq::empty()
    } else {
        list[0].bytes() + trains_bytes(list.drop_first())
    }
}

/// What some sequences do on the wire, one after the other.
pub open spec fn trains_ops(list: Seq<Train>) -> Seq<WireOp>
    decreases list.len(),
{
    if list.len() == 0 {
        Seq::empty()
    } else {
        list[0].ops() + trains_ops(list.drop_first())
    }
}

/// A DAP_SWD_Sequence does on the wire what its packet says: where the packet holds the
/// bytes of some sequences from `di` on, these are carried out, in order.
pub proof fn sequences_carry_the_packet(req: Seq<u8>, di: int, list: Seq<Train>)
    requires
        0 <= di,
        forall|i: int| 0 <= i < list.len() ==> (#[trigger] list[i]).wf(),
        di + trains_bytes(list).len() <= req.len(),
        req.subrange(di, di + trains_bytes(list).len()) == trains_bytes(list),
    ensures
        sequences_present(req, di, list.len()),
        sequence_ops(req, di, list.len()) == trains_ops(list),
    decreases list.len(),
{
    if list.len() > 0 {
        let t = list[0];
        assert(list[0].wf());
        let first = t.bytes();
        let rest = trains_bytes(list.drop_first());
        let all = trains_bytes(list);
        let next = di + first.len();
        let part = req.subrange(di, di + all.len());
        assert(part[0] == all[0]);
        assert(req[di] == first[0]);
        assert forall|i: int| 0 <= i < rest.len() implies req.subrange(next, next + rest.len())[i]
            == rest[i] by {
            assert(part[first.len() + i] == all[first.len() + i]);
        }
        assert(req.subrange(next, next + rest.len()) =~= rest);
        assert forall|i: int| 0 <= i < t.data.len() implies req[di + 1 + i] == t.data[i] by {
            assert(part[1 + i] == all[1 + i]);
        }
        assert forall|i: int| 0 <= i < list.drop_first().len() implies (
        #[trigger] list.drop_first()[i]).wf() by {
            assert(list[i + 1].wf());
        }
        sequences_carry_the_packet(req, next, list.drop_first());
        if !t.sample {
            assert(bytes_for(t.clocks) == t.data.len());
            assert(bytes_out(req, di + 1, t.clocks) =~= bytes_out(t.data, 0, t.clocks));
        }
        assert(next == di + 1 + seq_data(req[di]));
        assert(sequence_ops(req, di, list.len()) =~= trains_ops(list));
    }
}

/// A length of nought stands for the most: 256 bits for DAP_SWJ_Sequence, 64 clocks for a
/// sequence of DAP_SWD_Sequence; any other for itself.
pub proof fn nought_stands_for_the_most(b: u8)
    ensures
        1 <= swj_bit_count(b) <= 256 && swj_bit_count(b) % 256 == b,
        1 <= seq_clocks(b) <= 64 && seq_clocks(b) % 64 == b as int % 64,
{
}

} // verus!
