//! Collecting the body of a request.
//!
//! The body arrives as a sequence of chunks.  An [`UploadBuffer`] belongs to
//! one request in flight and holds what has arrived so far, in the order of
//! arrival; it only ever grows.  [`collect_body`] is the whole fold: every
//! chunk appended in turn, or a failure if the transport failed on any of
//! them.  Nothing here touches a file.

use actix_web::web::BytesMut;
use vstd::prelude::*;
use vstd::slice::slice_to_vec;

use crate::error::TransferError;

verus! {

/// The growable byte buffer of the `bytes` crate, as `actix_web::web` offers
/// it.  Verus sees nothing inside a value of it.
#[verifier::external_type_specification]
#[verifier::external_body]
pub struct ExBytesMut(BytesMut);

/// The bytes that a `BytesMut` holds, first to last.
pub uninterp spec fn buffered(buffer: BytesMut) -> Seq<u8>;

/// Whether a `BytesMut` is the whole of an allocation of its own: it was made
/// empty and has since only been extended, never split, advanced or shared.
pub uninterp spec fn is_whole(buffer: BytesMut) -> bool;

/// `BytesMut::new`: a buffer that holds no bytes, the whole of an allocation
/// of its own.
#[verifier::external_body]
fn buffer_new() -> (buffer: BytesMut)
    ensures
        buffered(buffer) == Seq::<u8>::empty(),
        is_whole(buffer),
{
    BytesMut::new()
}

/// `BytesMut::len`: the number of bytes that the buffer holds.
#[verifier::external_body]
fn buffer_len(buffer: &BytesMut) -> (n: usize)
    ensures
        n == buffered(*buffer).len(),
{
    buffer.len()
}

/// `BytesMut::extend_from_slice`: the buffer afterwards holds what it held,
/// followed by the bytes of `chunk`.  A buffer that is the whole of its
/// allocation grows as a `Vec` grows, stays whole, and panics only where the
/// new length would exceed `isize::MAX`; of other buffers, which may panic
/// earlier, nothing is claimed.
#[verifier::external_body]
fn buffer_extend(buffer: &mut BytesMut, chunk: &[u8])
    requires
        is_whole(*old(buffer)),
        buffered(*old(buffer)).len() + chunk@.len() <= isize::MAX,
    ensures
        buffered(*final(buffer)) == buffered(*old(buffer)) + chunk@,
        is_whole(*final(buffer)),
    no_unwind
{
    buffer.extend_from_slice(chunk)
}

/// `AsRef<[u8]>` of `BytesMut`: the bytes that the buffer holds, as a slice.
#[verifier::external_body]
fn buffer_bytes(buffer: &BytesMut) -> (bytes: &[u8])
    ensures
        bytes@ == buffered(*buffer),
{
    buffer.as_ref()
}

/// What has arrived of the body of one request.
pub struct UploadBuffer {
    bytes: BytesMut,
}

impl View for UploadBuffer {
    type V = Seq<u8>;

    closed spec fn view(&self) -> Seq<u8> {
        buffered(self.bytes)
    }
}

impl UploadBuffer {
    /// The buffer is never split nor shared: it only grows.
    #[verifier::type_invariant]
    spec fn grows_only(self) -> bool {
        is_whole(self.bytes)
    }

    /// A buffer into which nothing has arrived yet.
    pub fn new() -> (buffer: UploadBuffer)
        ensures
            buffer@ == Seq::<u8>::empty(),
    {
        UploadBuffer { bytes: buffer_new() }
    }

    /// How many bytes have arrived.
    pub fn len(&self) -> (n: usize)
        ensures
            n == self@.len(),
    {
        buffer_len(&self.bytes)
    }

    /// Whether a chunk of `chunk_len` bytes still fits: a buffer cannot hold
    /// more than `isize::MAX` bytes.
    pub open spec fn has_room(&self, chunk_len: nat) -> bool {
        self@.len() + chunk_len <= isize::MAX
    }

    /// Appends a chunk that has arrived.
    pub fn accept(&mut self, chunk: &[u8])
        requires
            old(self).has_room(chunk@.len()),
        ensures
            final(self)@ == old(self)@ + chunk@,
    {
        proof {
            use_type_invariant(&*self);
        }
        buffer_extend(&mut self.bytes, chunk);
    }

    /// Appends a chunk that has arrived if it still fits, and says whether it
    /// did.  A chunk that does not fit leaves the buffer as it was.
    pub fn try_accept(&mut self, chunk: &[u8]) -> (accepted: bool)
        ensures
            accepted == old(self).has_room(chunk@.len()),
            accepted ==> final(self)@ == old(self)@ + chunk@,
            !accepted ==> final(self)@ == old(self)@,
    {
        let held: usize = self.len();
        let limit: usize = isize::MAX as usize;
        if held <= limit && chunk.len() <= limit - held {
            self.accept(chunk);
            true
        } else {
            false
        }
    }

    /// Ends the collection and hands out the body: every chunk that was
    /// accepted, in the order of arrival.
    pub fn finish(self) -> (content: Vec<u8>)
        ensures
            content@ == self@,
    {
        slice_to_vec(buffer_bytes(&self.bytes))
    }
}

/// The chunks of `chunks[..upto]` one after the other, in the order of
/// arrival.  A chunk on which the transport failed brought no bytes.
pub open spec fn joined<E>(chunks: Seq<Result<Vec<u8>, E>>, upto: int) -> Seq<u8>
    decreases upto,
{
    if upto <= 0 {
        Seq::empty()
    } else {
        joined(chunks, upto - 1) + match chunks[upto - 1] {
            Ok(bytes) => bytes@,
            Err(_) => Seq::empty(),
        }
    }
}

/// Whether the transport failed on one of the chunks.
pub open spec fn stream_failed<E>(chunks: Seq<Result<Vec<u8>, E>>) -> bool {
    exists|i: int| 0 <= i < chunks.len() && (#[trigger] chunks[i]) is Err
}

/// What is joined grows with every further chunk.
pub proof fn lemma_joined_grows<E>(chunks: Seq<Result<Vec<u8>, E>>, i: int, j: int)
    requires
        0 <= i <= j,
    ensures
        joined(chunks, i).len() <= joined(chunks, j).len(),
    decreases j - i,
{
    if i < j {
        lemma_joined_grows(chunks, i, j - 1);
    }
}

/// Collects the body of a request from the chunks that the transport
/// delivered: all of them joined in the order of arrival, or a stream error
/// if the transport failed on any.  The partial body is dropped in that case.
/// All the bytes together must fit into one buffer.
pub fn collect_body<E>(chunks: &Vec<Result<Vec<u8>, E>>) -> (body: Result<Vec<u8>, TransferError>)
    requires
        joined(chunks@, chunks@.len() as int).len() <= isize::MAX,
    ensures
        body is Err <==> stream_failed(chunks@),
        body matches Err(e) ==> e == TransferError::StreamError,
        body matches Ok(content) ==> content@ == joined(chunks@, chunks@.len() as int),
{
    let mut buffer = UploadBuffer::new();
    let mut i: usize = 0;
    while i < chunks.len()
        invariant
            i <= chunks.len(),
            buffer@ == joined(chunks@, i as int),
            joined(chunks@, chunks@.len() as int).len() <= isize::MAX,
            forall|k: int| 0 <= k < i ==> (#[trigger] chunks@[k]) is Ok,
        decreases chunks.len() - i,
    {
        match &chunks[i] {
            Ok(bytes) => {
                proof {
                    lemma_joined_grows(chunks@, i + 1, chunks@.len() as int);
                }
                buffer.accept(bytes.as_slice());
            },
            Err(_) => {
                return Err(TransferError::StreamError);
            },
        }
        i += 1;
    }
    Ok(buffer.finish())
}

} // verus!
