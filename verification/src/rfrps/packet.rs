//! Packet buffers for UDP datagrams, lent from a pool and given back.

use bytes::BytesMut;
use vstd::prelude::*;

verus! {

/// Most idle buffers that one UDP proxy keeps.
pub const UDP_PACKET_POOL_MAX: usize = 256;

/// Smallest buffer that is made for a datagram.
pub const UDP_PACKET_MIN_CAPACITY: usize = 2048;

/// `bytes::BytesMut`, a growable byte buffer.
#[verifier::external_type_specification]
#[verifier::external_body]
pub struct ExBytesMut(BytesMut);

/// The bytes that a buffer holds.
pub uninterp spec fn buffer_bytes(b: BytesMut) -> Seq<u8>;

/// `BytesMut::with_capacity`: an empty buffer. It panics where the capacity
/// exceeds `isize::MAX`. Of what it has allocated nothing is claimed.
#[verifier::external_body]
fn buffer_with_capacity(capacity: usize) -> (r: BytesMut)
    requires
        capacity <= isize::MAX,
    ensures
        buffer_bytes(r) == Seq::<u8>::empty(),
{
    BytesMut::with_capacity(capacity)
}

/// `BytesMut::clear`: the buffer holds nothing afterwards.
#[verifier::external_body]
fn buffer_clear(b: &mut BytesMut)
    ensures
        buffer_bytes(*final(b)) == Seq::<u8>::empty(),
{
    b.clear()
}

/// `BytesMut::extend_from_slice`: the bytes go behind what the buffer holds. It
/// panics where the allocation, which may be a few times what is needed, would exceed
/// `isize::MAX` bytes.
#[verifier::external_body]
fn buffer_extend(b: &mut BytesMut, data: &[u8])
    requires
        buffer_bytes(*old(b)).len() + data@.len() <= isize::MAX / 4,
    ensures
        buffer_bytes(*final(b)) == buffer_bytes(*old(b)) + data@,
{
    b.extend_from_slice(data)
}

/// `BytesMut::as_ref`: the bytes as a slice.
#[verifier::external_body]
fn buffer_slice(b: &BytesMut) -> (r: &[u8])
    ensures
        r@ == buffer_bytes(*b),
{
    b.as_ref()
}

/// A datagram on its way up, in a buffer of the pool.
pub struct UdpPacket {
    data: BytesMut,
}

impl View for UdpPacket {
    type V = Seq<u8>;

    closed spec fn view(&self) -> Seq<u8> {
        buffer_bytes(self.data)
    }
}

impl UdpPacket {
    /// The datagram that `data` holds.
    fn new(data: BytesMut) -> (r: UdpPacket)
        ensures
            r@ == buffer_bytes(data),
    {
        UdpPacket { data }
    }

    /// The buffer, to be used again.
    fn into_buf(self) -> (r: BytesMut)
        ensures
            buffer_bytes(r) == self@,
    {
        self.data
    }
}

impl std::ops::Deref for UdpPacket {
    type Target = [u8];

    fn deref(&self) -> (r: &[u8])
        ensures
            r@ == self@,
    {
        buffer_slice(&self.data)
    }
}

impl AsRef<[u8]> for UdpPacket {
    fn as_ref(&self) -> (r: &[u8])
        ensures
            r@ == self@,
    {
        buffer_slice(&self.data)
    }
}

/// How many buffers a pool of `n` holds after one was lent.
pub open spec fn pool_after_alloc(n: nat) -> nat {
    if n == 0 {
        0
    } else {
        (n - 1) as nat
    }
}

/// How many buffers a pool of `n` holds after `k` were given back.
pub open spec fn pool_after_recycle(n: nat, k: nat) -> nat {
    if n >= UDP_PACKET_POOL_MAX {
        n
    } else if n + k <= UDP_PACKET_POOL_MAX {
        n + k
    } else {
        UDP_PACKET_POOL_MAX as nat
    }
}

/// Copies a datagram into a buffer: the last of the pool, or a new one where the
/// pool is empty.
pub fn alloc_udp_packet(pool: &mut Vec<BytesMut>, data: &[u8]) -> (r: UdpPacket)
    requires
        data@.len() <= isize::MAX / 4,
    ensures
        r@ == data@,
        final(pool)@.len() == pool_after_alloc(old(pool)@.len()),
        old(pool)@.len() > 0 ==> final(pool)@ == old(pool)@.drop_last(),
{
    let mut buf = match pool.pop() {
        Some(b) => b,
        None => {
            let n: usize = data.len();
            let capacity: usize = if n > UDP_PACKET_MIN_CAPACITY {
                n
            } else {
                UDP_PACKET_MIN_CAPACITY
            };
            buffer_with_capacity(capacity)
        },
    };
    buffer_clear(&mut buf);
    buffer_extend(&mut buf, data);
    assert(Seq::<u8>::empty() + data@ =~= data@);
    UdpPacket::new(buf)
}

/// Gives the buffers of `packets` back to the pool until it is full; the others
/// are let go.
pub fn recycle_packets(pool: &mut Vec<BytesMut>, packets: &mut Vec<UdpPacket>)
    ensures
        final(packets)@ == Seq::<UdpPacket>::empty(),
        final(pool)@.len() == pool_after_recycle(old(pool)@.len(), old(packets)@.len()),
        old(pool)@.is_prefix_of(final(pool)@),
        forall|i: int|
            0 <= i < final(pool)@.len() - old(pool)@.len() ==> buffer_bytes(
                #[trigger] final(pool)@[old(pool)@.len() + i],
            ) == old(packets)@[i]@,
{
    let ghost before = pool@;
    let mut source: Vec<UdpPacket> = Vec::new();
    source.append(packets);
    let ghost whole = source@;
    assert(whole =~= old(packets)@);
    for p in it: source
        invariant
            it.seq() == whole,
            before == old(pool)@,
            before.is_prefix_of(pool@),
            pool@.len() == pool_after_recycle(before.len(), it.index() as nat),
            forall|i: int|
                0 <= i < pool@.len() - before.len() ==> buffer_bytes(
                    #[trigger] pool@[before.len() + i],
                ) == whole[i]@,
    {
        if pool.len() < UDP_PACKET_POOL_MAX {
            pool.push(p.into_buf());
        }
    }
}

/// A pool that is within its bound stays so.
pub proof fn law_pool_bounded(n: nat, k: nat)
    requires
        n <= UDP_PACKET_POOL_MAX,
    ensures
        pool_after_alloc(n) <= UDP_PACKET_POOL_MAX,
        pool_after_recycle(n, k) <= UDP_PACKET_POOL_MAX,
{
}

} // verus!
