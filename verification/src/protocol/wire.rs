//! The wire format of a message: how it is written, read and measured.

use vstd::prelude::*;

use crate::protocol::error::ProtocolError;

verus! {

/// A message that can be written to and read from the wire. All integers of
/// more than one byte are in network byte order.
pub trait WireFormat: Sized {
    /// What a message says.
    type Model;

    /// What this message says.
    spec fn model(&self) -> Self::Model;

    /// The bytes that a message is written as.
    spec fn encoding(m: Self::Model) -> Seq<u8>;

    /// What is read from the front of `b`, and how many bytes are read, also
    /// where reading ends in an error.
    spec fn decoding(b: Seq<u8>) -> (Result<Self::Model, ProtocolError>, int);

    /// The size that is given for a message.
    spec fn size(m: Self::Model) -> nat;

    /// Append the bytes of this message.
    fn encode(&self, buf: &mut Vec<u8>)
        ensures
            final(buf)@ == old(buf)@ + Self::encoding(self.model()),
    ;

    /// Take a message off the front of the buffer.
    fn decode(buf: &mut &[u8]) -> (r: Result<Self, ProtocolError>)
        ensures
            match r {
                Ok(v) => Self::decoding(old(buf)@).0 == Ok::<Self::Model, ProtocolError>(v.model()),
                Err(e) => Self::decoding(old(buf)@).0 == Err::<Self::Model, ProtocolError>(e),
            },
            final(buf)@ == old(buf)@.skip(Self::decoding(old(buf)@).1),
    ;

    /// The size in bytes of this message on the wire.
    fn wire_size(&self) -> (n: usize)
        requires
            Self::size(self.model()) <= usize::MAX,
        ensures
            n == Self::size(self.model()),
    ;
}

/// The error for a part of `needed` bytes of which only `available` are left.
pub open spec fn too_short(needed: int, available: int) -> ProtocolError {
    ProtocolError::BufferTooShort { needed: needed as usize, available: available as usize }
}

/// The bytes of messages written one after the other.
pub open spec fn encodings<T: WireFormat>(ms: Seq<T::Model>) -> Seq<u8>
    decreases ms.len(),
{
    if ms.len() == 0 {
        Seq::empty()
    } else {
        encodings::<T>(ms.drop_last()) + T::encoding(ms.last())
    }
}

/// Messages of `k` bytes each take `k` bytes each.
pub proof fn lemma_encodings_len<T: WireFormat>(ms: Seq<T::Model>, k: int)
    requires
        forall|i: int| 0 <= i < ms.len() ==> T::encoding(#[trigger] ms[i]).len() == k,
    ensures
        encodings::<T>(ms).len() == k * ms.len(),
    decreases ms.len(),
{
    if ms.len() > 0 {
        let front = ms.drop_last();
        assert forall|i: int| 0 <= i < front.len() implies T::encoding(#[trigger] front[i]).len()
            == k by {
            assert(front[i] == ms[i]);
        }
        lemma_encodings_len::<T>(front, k);
        let n = front.len() as int;
        assert(k * (n + 1) == k * n + k) by (nonlinear_arith);
    } else {
        assert(k * 0 == 0);
    }
}

/// Of messages of `k` bytes each, every one stands at its place.
pub proof fn lemma_encodings_at<T: WireFormat>(ms: Seq<T::Model>, k: int, i: int)
    requires
        0 <= i < ms.len(),
        forall|j: int| 0 <= j < ms.len() ==> T::encoding(#[trigger] ms[j]).len() == k,
    ensures
        0 <= k * i,
        k * i + k <= encodings::<T>(ms).len(),
        encodings::<T>(ms).subrange(k * i, k * i + k) == T::encoding(ms[i]),
    decreases ms.len(),
{
    let front = ms.drop_last();
    assert(T::encoding(ms[i]).len() == k);
    assert forall|j: int| 0 <= j < front.len() implies T::encoding(#[trigger] front[j]).len()
        == k by {
        assert(front[j] == ms[j]);
    }
    lemma_encodings_len::<T>(front, k);
    assert(k * i >= 0) by (nonlinear_arith)
        requires
            k >= 0,
            i >= 0,
    ;
    if i < front.len() {
        lemma_encodings_at::<T>(front, k, i);
        assert(front[i] == ms[i]);
        assert(encodings::<T>(ms).subrange(k * i, k * i + k) =~= encodings::<T>(front).subrange(
            k * i,
            k * i + k,
        ));
    } else {
        assert(encodings::<T>(ms).subrange(k * i, k * i + k) =~= T::encoding(ms[i]));
    }
}

/// Skipping twice is skipping once, further.
pub broadcast proof fn lemma_skip_skip(b: Seq<u8>, i: int, j: int)
    requires
        0 <= i,
        0 <= j,
        i + j <= b.len(),
    ensures
        #[trigger] b.skip(i).skip(j) == b.skip(i + j),
{
    assert(b.skip(i).skip(j) =~= b.skip(i + j));
}

} // verus!
