//! Writing bytes into fixed-size buffers, truncating what does not fit.
use arrayvec::{ArrayVec, CapacityError};
use vstd::prelude::*;

verus! {

/// The size of the debug-print buffer.
pub const PRINT_BUF_SIZE: usize = 0x100;

/// The debug-print buffer: a byte vector of fixed capacity.
pub type PrintBuf = ArrayVec<u8, 0x100>;

/// `arrayvec::ArrayVec`, a vector of fixed capacity, seen from outside:
/// what it holds is named by `print_buf_contents`.
#[verifier::external_type_specification]
#[verifier::external_body]
#[verifier::reject_recursive_types(T)]
pub struct ExArrayVec<T, const CAP: usize>(ArrayVec<T, CAP>);

/// `arrayvec::CapacityError`, the error of a vector that is full, carried
/// through as it is.
#[verifier::external_type_specification]
#[verifier::external_body]
#[verifier::reject_recursive_types(T)]
pub struct ExCapacityError<T>(CapacityError<T>);

/// The bytes that a print buffer holds.
pub uninterp spec fn print_buf_contents(v: ArrayVec<u8, 0x100>) -> Seq<u8>;

/// `ArrayVec::len`: how many bytes are held, never more than the capacity.
#[verifier::external_body]
fn print_buf_len(v: &PrintBuf) -> (res: usize)
    ensures
        res == print_buf_contents(*v).len(),
        res <= PRINT_BUF_SIZE,
{
    v.len()
}

/// `ArrayVec::clear`: drops every byte held.
#[verifier::external_body]
fn print_buf_clear(v: &mut PrintBuf)
    ensures
        print_buf_contents(*final(v)) == Seq::<u8>::empty(),
{
    v.clear()
}

/// `ArrayVec::push`: appends a byte; it panics when the vector is full,
/// which the precondition rules out.
#[verifier::external_body]
fn print_buf_push(v: &mut PrintBuf, b: u8)
    requires
        print_buf_contents(*old(v)).len() < PRINT_BUF_SIZE,
    ensures
        print_buf_contents(*final(v)) == print_buf_contents(*old(v)).push(b),
{
    v.push(b)
}

/// `ArrayVec::pop`: removes the last byte and gives it back; `None` and no
/// change when the vector is empty.
#[verifier::external_body]
fn print_buf_pop(v: &mut PrintBuf) -> (res: Option<u8>)
    ensures
        print_buf_contents(*old(v)).len() == 0 ==> res is None && print_buf_contents(*final(v))
            == print_buf_contents(*old(v)),
        print_buf_contents(*old(v)).len() > 0 ==> res == Some(print_buf_contents(*old(v)).last())
            && print_buf_contents(*final(v)) == print_buf_contents(*old(v)).drop_last(),
{
    v.pop()
}

/// `ArrayVec::try_extend_from_slice`: appends all of `other` when it fits
/// in the capacity left, else fails and leaves the vector as it was.
#[verifier::external_body]
fn print_buf_try_extend(v: &mut PrintBuf, other: &[u8]) -> (res: Result<(), CapacityError>)
    ensures
        print_buf_contents(*old(v)).len() + other@.len() <= PRINT_BUF_SIZE <==> res is Ok,
        res is Ok ==> print_buf_contents(*final(v)) == print_buf_contents(*old(v)) + other@,
        res is Err ==> print_buf_contents(*final(v)) == print_buf_contents(*old(v)),
{
    v.try_extend_from_slice(other)
}

/// A failed write: the destination could take no more.
#[derive(Clone, Copy, PartialEq, Eq, Structural, Debug)]
pub struct WriteError;

/// A byte sink.
pub trait Write {
    /// Writes as much of `buf` as fits.
    fn write(&mut self, buf: &[u8]) -> Result<(), WriteError>;
}

/// How many bytes of a write of `n` bytes fit in `room` bytes.
pub open spec fn fitting(room: int, n: int) -> int {
    if room < n {
        room
    } else {
        n
    }
}

/// A byte slice being written into: `bytes` is the whole slice and `pos`
/// where the part still to be written starts. Each write fills that part
/// from its start and moves past what it wrote, so writes follow one
/// another.
pub struct SliceCursor {
    pub bytes: Vec<u8>,
    pub pos: usize,
}

impl SliceCursor {
    /// How many bytes are left to write into.
    pub open spec fn room(&self) -> int {
        if self.pos <= self.bytes.len() {
            self.bytes.len() - self.pos
        } else {
            0
        }
    }

    /// A cursor at the start of `bytes`.
    pub fn new(bytes: Vec<u8>) -> (res: Self)
        ensures
            res.bytes@ == bytes@,
            res.pos == 0,
    {
        SliceCursor { bytes, pos: 0 }
    }
}

/// The bytes after writing `buf` at `pos` of `bytes`: as much of `buf` as
/// fits replaces the bytes from `pos` on; the others stay.
pub open spec fn written(bytes: Seq<u8>, pos: int, buf: Seq<u8>, count: int) -> Seq<u8> {
    bytes.subrange(0, pos) + buf.subrange(0, count) + bytes.subrange(pos + count, bytes.len() as int)
}

impl Write for SliceCursor {
    /// Copies as much of `buf` as the room left takes and moves past it;
    /// never fails.
    fn write(&mut self, buf: &[u8]) -> (res: Result<(), WriteError>)
        ensures
            res is Ok,
            ({
                let count = fitting(old(self).room(), buf.len() as int);
                &&& final(self).pos == old(self).pos + count
                &&& old(self).pos <= old(self).bytes.len() ==> final(self).bytes@ == written(
                    old(self).bytes@,
                    old(self).pos as int,
                    buf@,
                    count,
                )
                &&& old(self).pos > old(self).bytes.len() ==> final(self).bytes@ == old(
                    self,
                ).bytes@
            }),
    {
        let len = self.bytes.len();
        if self.pos > len {
            return Ok(());
        }
        let room = len - self.pos;
        let count = if room < buf.len() {
            room
        } else {
            buf.len()
        };
        let ghost original = self.bytes@;
        let start = self.pos;
        let mut i: usize = 0;
        while i < count
            invariant
                i <= count,
                count <= buf.len(),
                start + count <= len,
                len == original.len(),
                self.bytes@.len() == len,
                forall|j: int| 0 <= j < i ==> self.bytes@[start + j] == buf@[j],
                forall|j: int|
                    0 <= j < len && !(start <= j < start + i) ==> self.bytes@[j] == original[j],
            decreases count - i,
        {
            self.bytes.set(start + i, buf[i]);
            i = i + 1;
        }
        assert(self.bytes@ =~= written(original, start as int, buf@, count as int));
        self.pos = start + count;
        Ok(())
    }
}

impl Write for PrintBuf {
    /// Appends as much of `buf` as the capacity left takes; never fails.
    fn write(&mut self, buf: &[u8]) -> (res: Result<(), WriteError>)
        ensures
            res is Ok,
            print_buf_contents(*final(self)) == print_buf_contents(*old(self)) + buf@.subrange(
                0,
                fitting(PRINT_BUF_SIZE - print_buf_contents(*old(self)).len(), buf.len() as int),
            ),
    {
        let remaining = PRINT_BUF_SIZE - print_buf_len(self);
        let end = if buf.len() < remaining {
            buf.len()
        } else {
            remaining
        };
        let (head, _) = buf.split_at(end);
        match print_buf_try_extend(self, head) {
            Ok(()) => Ok(()),
            Err(_) => Err(WriteError),
        }
    }
}

/// The print buffer's text ended by a NUL byte: after what it holds, or,
/// when it is full, in place of its last byte.
pub open spec fn spec_terminated(contents: Seq<u8>) -> Seq<u8> {
    if contents.len() < PRINT_BUF_SIZE {
        contents.push(0)
    } else {
        contents.drop_last().push(0)
    }
}

/// Ends the text in the print buffer with a NUL byte; a full buffer gives
/// up its last byte for it.
pub fn terminate_print_buffer(buf: &mut PrintBuf)
    ensures
        print_buf_contents(*final(buf)) == spec_terminated(print_buf_contents(*old(buf))),
{
    if print_buf_len(buf) >= PRINT_BUF_SIZE {
        let _ = print_buf_pop(buf);
    }
    print_buf_push(buf, 0);
}

/// Empties the print buffer and writes `text` into it, cut to the
/// capacity.
pub fn fill_print_buffer(buf: &mut PrintBuf, text: &[u8])
    ensures
        print_buf_contents(*final(buf)) == text@.subrange(
            0,
            fitting(PRINT_BUF_SIZE as int, text.len() as int),
        ),
{
    print_buf_clear(buf);
    let _ = buf.write(text);
}

/// Writing into a print buffer never overfills it: what it holds after a
/// write is at most its capacity, and it keeps what it held before.
pub proof fn law_write_never_overflows(before: Seq<u8>, buf: Seq<u8>)
    requires
        before.len() <= PRINT_BUF_SIZE,
    ensures
        ({
            let after = before + buf.subrange(
                0,
                fitting(PRINT_BUF_SIZE - before.len(), buf.len() as int),
            );
            &&& after.len() <= PRINT_BUF_SIZE
            &&& after.subrange(0, before.len() as int) == before
            &&& buf.len() + before.len() <= PRINT_BUF_SIZE ==> after == before + buf
        }),
{
    let after = before + buf.subrange(0, fitting(PRINT_BUF_SIZE - before.len(), buf.len() as int));
    assert(after.subrange(0, before.len() as int) =~= before);
    if buf.len() + before.len() <= PRINT_BUF_SIZE {
        assert(buf.subrange(0, buf.len() as int) =~= buf);
    }
}

} // verus!
