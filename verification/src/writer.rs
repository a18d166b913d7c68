use vstd::prelude::*;

use vstd::arithmetic::power::pow;
use vstd::slice::slice_subrange;

verus! {

/// The standard-input descriptor.
pub const STDIN: i32 = 0;

/// The standard-output descriptor.
pub const STDOUT: i32 = 1;

/// The standard-error descriptor.
pub const STDERR: i32 = 2;

/// A writer over a raw file descriptor. The write system calls themselves
/// belong to the embedding; this type fixes which descriptor they target.
pub struct FdWriter(i32);

/// A reader over a raw file descriptor. The read system call itself belongs
/// to the embedding; this type fixes which descriptor it targets.
#[derive(Clone, Copy)]
pub struct FdReader(i32);

impl FdWriter {
    /// The descriptor this writer targets.
    pub closed spec fn fd(&self) -> i32 {
        self.0
    }

    /// A writer over standard output.
    pub fn stdout() -> (w: FdWriter)
        ensures
            w.fd() == STDOUT,
    {
        FdWriter(STDOUT)
    }

    /// A writer over standard error.
    pub fn stderr() -> (w: FdWriter)
        ensures
            w.fd() == STDERR,
    {
        FdWriter(STDERR)
    }

    /// The raw descriptor, for the embedding's write call.
    pub fn raw_fd(&self) -> (fd: i32)
        ensures
            fd == self.fd(),
    {
        self.0
    }
}

impl FdReader {
    /// The descriptor this reader targets.
    pub closed spec fn fd(&self) -> i32 {
        self.0
    }

    /// A reader over standard input.
    pub fn stdin() -> (r: FdReader)
        ensures
            r.fd() == STDIN,
    {
        FdReader(STDIN)
    }

    /// The raw descriptor, for the embedding's read call or for a read
    /// submission against standalone input.
    pub fn raw_fd(&self) -> (fd: i32)
        ensures
            fd == self.fd(),
    {
        self.0
    }
}

/// A byte sink with a known bound on how much more it accepts.
pub trait Write: Sized {
    /// Every byte accepted so far, in order.
    spec fn sunk(&self) -> Seq<u8>;

    /// How many more bytes the sink is certain to accept.
    spec fn room(&self) -> nat;

    /// Accepts all of `bytes`.
    fn write_all(&mut self, bytes: &[u8]) -> (r: Result<(), i32>)
        requires
            bytes@.len() <= old(self).room(),
        ensures
            r is Ok,
            final(self).sunk() == old(self).sunk() + bytes@,
            final(self).room() == old(self).room() - bytes@.len(),
    ;
}

/// The decimal digit characters of `n`, most significant first.
pub open spec fn dec_digits(n: u64) -> Seq<u8>
    decreases n,
{
    if n < 10 {
        seq![(48 + n) as u8]
    } else {
        dec_digits(n / 10).push((48 + n % 10) as u8)
    }
}

proof fn lemma_dec_digits_len_bound(n: u64, k: nat)
    requires
        k >= 1,
        (n as nat) < pow(10, k),
    ensures
        dec_digits(n).len() <= k,
    decreases k,
{
    if n >= 10 {
        assert(k >= 2) by {
            if k == 1 {
                vstd::arithmetic::power::lemma_pow1(10);
            }
        }
        assert(pow(10, k) == 10 * pow(10, (k - 1) as nat)) by {
            vstd::arithmetic::power::lemma_pow1(10);
            vstd::arithmetic::power::lemma_pow_adds(10, 1, (k - 1) as nat);
        }
        assert((n as int) / 10 < pow(10, (k - 1) as nat)) by {
            vstd::arithmetic::div_mod::lemma_multiply_divide_lt(
                n as int,
                10,
                pow(10, (k - 1) as nat) as int,
            );
        }
        lemma_dec_digits_len_bound(n / 10, (k - 1) as nat);
    }
}

/// A decimal rendering of a 64-bit value never exceeds twenty digits.
pub proof fn lemma_dec_digits_len(n: u64)
    ensures
        1 <= dec_digits(n).len() <= 20,
{
    assert((u64::MAX as nat) < pow(10, 20)) by {
        reveal_with_fuel(pow, 21);
    }
    lemma_dec_digits_len_bound(n, 20);
}

/// Renders `n` in decimal.
pub fn u64_to_dec(n: u64) -> (v: Vec<u8>)
    ensures
        v@ == dec_digits(n),
    decreases n,
{
    if n < 10 {
        let mut v: Vec<u8> = Vec::new();
        v.push(48 + (n as u8));
        proof {
            assert(v@ =~= dec_digits(n));
        }
        v
    } else {
        let mut v = u64_to_dec(n / 10);
        v.push(48 + ((n % 10) as u8));
        proof {
            assert(v@ =~= dec_digits(n));
        }
        v
    }
}

/// Writes the decimal digits of `n` and reports how many there were.
pub fn write_u64<W: Write>(w: &mut W, n: u64) -> (r: Result<usize, i32>)
    requires
        old(w).room() >= 20,
    ensures
        r is Ok,
        r.unwrap() == dec_digits(n).len(),
        final(w).sunk() == old(w).sunk() + dec_digits(n),
        final(w).room() == old(w).room() - dec_digits(n).len(),
{
    proof {
        lemma_dec_digits_len(n);
    }
    let v = u64_to_dec(n);
    w.write_all(v.as_slice())?;
    Ok(v.len())
}

/// A fixed-capacity writer over an owned byte buffer: bytes are placed at
/// the write position, which only advances. The `unchecked` write methods
/// demand the room they need instead of testing for it.
pub struct ArrayWriter {
    buf: Vec<u8>,
    len: usize,
}

impl ArrayWriter {
    /// The whole underlying buffer, written and unwritten part alike.
    pub closed spec fn buf_spec(&self) -> Seq<u8> {
        self.buf@
    }

    /// The write position.
    pub closed spec fn len_spec(&self) -> nat {
        self.len as nat
    }

    /// The buffer's fixed byte capacity.
    pub closed spec fn capacity(&self) -> nat {
        self.buf@.len()
    }

    /// The write position never passes the end of the buffer.
    pub closed spec fn wf(&self) -> bool {
        self.len <= self.buf@.len()
    }

    /// Everything written so far, in order.
    pub closed spec fn written(&self) -> Seq<u8> {
        self.buf@.take(self.len as int)
    }

    /// A writer over `buf`, starting at the beginning.
    pub fn new(buf: Vec<u8>) -> (w: ArrayWriter)
        ensures
            w.wf(),
            w.written() == Seq::<u8>::empty(),
            w.capacity() == buf@.len(),
            w.buf_spec() == buf@,
            w.len_spec() == 0,
    {
        let w = ArrayWriter { buf, len: 0 };
        proof {
            assert(w.written() =~= Seq::<u8>::empty());
        }
        w
    }

    /// Places one byte at the write position; the caller owes the room.
    pub fn write_byte_unchecked(&mut self, byte: u8)
        requires
            old(self).wf(),
            old(self).len_spec() < old(self).capacity(),
        ensures
            final(self).wf(),
            final(self).written() == old(self).written().push(byte),
            final(self).capacity() == old(self).capacity(),
            final(self).len_spec() == old(self).len_spec() + 1,
    {
        // reading the length as a machine word bounds the write position
        let cap = self.buf.len();
        self.buf.set(self.len, byte);
        self.len = self.len + 1;
        proof {
            assert(self.written() =~= old(self).written().push(byte));
        }
    }

    /// Places a run of bytes at the write position; the caller owes the room.
    pub fn write_bytes_unchecked(&mut self, bytes: &[u8])
        requires
            old(self).wf(),
            old(self).len_spec() + bytes@.len() <= old(self).capacity(),
        ensures
            final(self).wf(),
            final(self).written() == old(self).written() + bytes@,
            final(self).capacity() == old(self).capacity(),
            final(self).len_spec() == old(self).len_spec() + bytes@.len(),
    {
        let mut i: usize = 0;
        while i < bytes.len()
            invariant
                i <= bytes@.len(),
                self.wf(),
                self.capacity() == old(self).capacity(),
                self.len_spec() == old(self).len_spec() + i,
                old(self).len_spec() + bytes@.len() <= old(self).capacity(),
                self.written() == old(self).written() + bytes@.take(i as int),
            decreases bytes@.len() - i,
        {
            self.write_byte_unchecked(bytes[i]);
            i = i + 1;
            proof {
                assert(self.written() =~= old(self).written() + bytes@.take(i as int));
            }
        }
        proof {
            assert(bytes@.take(bytes@.len() as int) =~= bytes@);
        }
    }

    /// Places the decimal digits of `n` at the write position; the caller
    /// owes room for the longest rendering.
    pub fn write_u64_unchecked(&mut self, n: u64)
        requires
            old(self).wf(),
            old(self).len_spec() + 20 <= old(self).capacity(),
        ensures
            final(self).wf(),
            final(self).written() == old(self).written() + dec_digits(n),
            final(self).capacity() == old(self).capacity(),
            final(self).len_spec() == old(self).len_spec() + dec_digits(n).len(),
    {
        proof {
            lemma_dec_digits_len(n);
        }
        let v = u64_to_dec(n);
        self.write_bytes_unchecked(v.as_slice());
    }

    /// The whole underlying buffer.
    pub fn buffer(&self) -> (r: &Vec<u8>)
        ensures
            r@ == self.buf_spec(),
    {
        &self.buf
    }

    /// The write position.
    pub fn len(&self) -> (r: usize)
        ensures
            r == self.len_spec(),
    {
        self.len
    }
}

/// A buffering layer over a sink: short runs are collected in an owned
/// buffer and handed to the sink in one piece when the buffer fills or is
/// flushed.
pub struct BufWriter<W: Write> {
    writer: W,
    buffer: Vec<u8>,
    offset: usize,
}

impl<W: Write> BufWriter<W> {
    /// The buffered bytes not yet handed to the sink.
    pub closed spec fn buffered(&self) -> Seq<u8> {
        self.buffer@.take(self.offset as int)
    }

    /// Everything accepted so far: what the sink holds plus what is still
    /// buffered.
    pub closed spec fn total(&self) -> Seq<u8> {
        self.writer.sunk() + self.buffered()
    }

    /// The buffer's fixed byte capacity.
    pub closed spec fn buf_capacity(&self) -> nat {
        self.buffer@.len()
    }

    /// How many bytes are buffered.
    pub closed spec fn fill_level(&self) -> nat {
        self.offset as nat
    }

    /// The fill level never passes the end of the buffer, and the sink can
    /// always take what is buffered.
    pub closed spec fn wf(&self) -> bool {
        self.offset <= self.buffer@.len() && self.offset <= self.writer.room()
    }

    /// The sink underneath, as a value.
    pub closed spec fn inner_spec(&self) -> W {
        self.writer
    }

    /// Takes the sink back out; anything still buffered is dropped.
    pub fn into_inner(self) -> (w: W)
        ensures
            w == self.inner_spec(),
    {
        self.writer
    }

    /// A buffering layer over `writer` using the owned `buffer`.
    pub fn new(writer: W, buffer: Vec<u8>) -> (w: BufWriter<W>)
        ensures
            w.wf(),
            w.total() == writer.sunk(),
            w.room() == writer.room(),
            w.buf_capacity() == buffer@.len(),
    {
        let w = BufWriter { writer, buffer, offset: 0 };
        proof {
            assert(w.total() =~= w.writer.sunk());
        }
        w
    }

    /// Hands everything buffered to the sink and reports how much that was.
    pub fn flush(&mut self) -> (r: Result<usize, i32>)
        requires
            old(self).wf(),
        ensures
            r == Ok::<usize, i32>(old(self).buffered().len() as usize),
            final(self).wf(),
            final(self).total() == old(self).total(),
            final(self).buffered() == Seq::<u8>::empty(),
            final(self).room() == old(self).room(),
            final(self).buf_capacity() == old(self).buf_capacity(),
    {
        let n = self.offset;
        self.offset = 0;
        let prefix = slice_subrange(self.buffer.as_slice(), 0, n);
        let r = self.writer.write_all(prefix);
        match r {
            Ok(_) => {
                proof {
                    assert(self.buffered() =~= Seq::<u8>::empty());
                    assert(self.total() =~= old(self).total());
                }
                Ok(n)
            },
            Err(e) => Err(e),
        }
    }

    /// Collects one byte into the buffer; the caller owes the space.
    fn fill_byte(&mut self, b: u8)
        requires
            old(self).offset < old(self).buffer@.len(),
        ensures
            final(self).writer == old(self).writer,
            final(self).buffer@.len() == old(self).buffer@.len(),
            final(self).offset == old(self).offset + 1,
            final(self).buffered() == old(self).buffered().push(b),
    {
        // reading the length as a machine word bounds the fill level
        let cap = self.buffer.len();
        self.buffer.set(self.offset, b);
        self.offset = self.offset + 1;
        proof {
            assert(self.buffered() =~= old(self).buffered().push(b));
        }
    }

    /// Collects `bytes` into the buffer; the caller owes the space.
    fn fill(&mut self, bytes: &[u8])
        requires
            old(self).wf(),
            old(self).offset + bytes@.len() <= old(self).buffer@.len(),
            old(self).offset + bytes@.len() <= old(self).writer.room(),
        ensures
            final(self).wf(),
            final(self).writer == old(self).writer,
            final(self).buffered() == old(self).buffered() + bytes@,
            final(self).offset == old(self).offset + bytes@.len(),
            final(self).buf_capacity() == old(self).buf_capacity(),
    {
        let mut i: usize = 0;
        while i < bytes.len()
            invariant
                i <= bytes@.len(),
                self.offset == old(self).offset + i,
                self.writer == old(self).writer,
                self.buffer@.len() == old(self).buffer@.len(),
                old(self).offset + bytes@.len() <= old(self).buffer@.len(),
                old(self).offset + bytes@.len() <= old(self).writer.room(),
                self.buffered() == old(self).buffered() + bytes@.take(i as int),
            decreases bytes@.len() - i,
        {
            self.fill_byte(bytes[i]);
            i = i + 1;
            proof {
                assert(self.buffered() =~= old(self).buffered() + bytes@.take(i as int));
            }
        }
        proof {
            assert(bytes@.take(bytes@.len() as int) =~= bytes@);
        }
    }

    /// Accepts `bytes`: buffers what fits, hands full buffers to the sink,
    /// and passes oversized runs through directly. Reports the length of
    /// `bytes`.
    pub fn write(&mut self, bytes: &[u8]) -> (r: Result<usize, i32>)
        requires
            old(self).wf(),
            bytes@.len() <= old(self).room(),
        ensures
            r == Ok::<usize, i32>(bytes@.len() as usize),
            final(self).wf(),
            final(self).total() == old(self).total() + bytes@,
            final(self).room() == old(self).room() - bytes@.len(),
            final(self).buf_capacity() == old(self).buf_capacity(),
        decreases bytes@.len(), old(self).fill_level(),
    {
        let blen = self.buffer.len();
        if self.offset == 0 {
            if bytes.len() > blen {
                let r = self.writer.write_all(bytes);
                match r {
                    Ok(_) => {
                        proof {
                            assert(self.total() =~= old(self).total() + bytes@);
                        }
                        return Ok(bytes.len());
                    },
                    Err(e) => {
                        return Err(e);
                    },
                }
            }
            self.fill(bytes);
            return Ok(bytes.len());
        }
        let remaining = blen - self.offset;
        if bytes.len() <= remaining {
            self.fill(bytes);
            return Ok(bytes.len());
        }
        let head = slice_subrange(bytes, 0, remaining);
        self.fill(head);
        match self.flush() {
            Ok(_) => {},
            Err(e) => {
                return Err(e);
            },
        }
        let rest = slice_subrange(bytes, remaining, bytes.len());
        match self.write(rest) {
            Ok(_) => {
                proof {
                    assert(bytes@.take(remaining as int) + bytes@.subrange(
                        remaining as int,
                        bytes@.len() as int,
                    ) =~= bytes@);
                    assert(self.total() =~= old(self).total() + bytes@);
                }
                Ok(bytes.len())
            },
            Err(e) => Err(e),
        }
    }
}

impl<W: Write> Write for BufWriter<W> {
    closed spec fn sunk(&self) -> Seq<u8> {
        self.total()
    }

    closed spec fn room(&self) -> nat {
        if self.wf() {
            (self.writer.room() - self.offset) as nat
        } else {
            0
        }
    }

    fn write_all(&mut self, bytes: &[u8]) -> (r: Result<(), i32>) {
        if bytes.len() == 0 {
            proof {
                assert(self.total() + bytes@ =~= self.total());
            }
            return Ok(());
        }
        match self.write(bytes) {
            Ok(_) => Ok(()),
            Err(e) => Err(e),
        }
    }
}

/// A direction a cursor-movement escape sequence can take.
#[derive(Clone, Copy, PartialEq, Eq, Structural, Debug)]
pub enum Direction {
    /// Towards the first row.
    Up,
    /// Towards the last row.
    Down,
    /// Towards the last column.
    Right,
    /// Towards the first column.
    Left,
}

impl Direction {
    /// The final byte of the escape sequence for this direction.
    pub open spec fn byte_spec(self) -> u8 {
        match self {
            Direction::Up => 65,
            Direction::Down => 66,
            Direction::Right => 67,
            Direction::Left => 68,
        }
    }

    /// The final byte of the escape sequence for this direction.
    pub fn byte(self) -> (b: u8)
        ensures
            b == self.byte_spec(),
    {
        match self {
            Direction::Up => 65,
            Direction::Down => 66,
            Direction::Right => 67,
            Direction::Left => 68,
        }
    }
}

/// The escape sequence that moves the cursor `n` cells in a direction: the
/// escape byte, an opening bracket, the decimal count, and the direction
/// byte.
pub open spec fn cursor_move_bytes(n: u64, direction: Direction) -> Seq<u8> {
    seq![27u8, 91u8] + dec_digits(n) + seq![direction.byte_spec()]
}

/// Writes the escape sequence that moves the cursor `n` cells in a
/// direction.
pub fn cursor_move<W: Write>(writer: &mut W, n: u64, direction: Direction) -> (r: Result<
    (),
    i32,
>)
    requires
        old(writer).room() >= 23,
    ensures
        r is Ok,
        final(writer).sunk() == old(writer).sunk() + cursor_move_bytes(n, direction),
        final(writer).room() == old(writer).room() - cursor_move_bytes(n, direction).len(),
{
    proof {
        lemma_dec_digits_len(n);
    }
    let mut head: Vec<u8> = Vec::new();
    head.push(27);
    head.push(91);
    writer.write_all(head.as_slice())?;
    write_u64(writer, n)?;
    let mut tail: Vec<u8> = Vec::new();
    tail.push(direction.byte());
    writer.write_all(tail.as_slice())?;
    proof {
        assert(writer.sunk() =~= old(writer).sunk() + cursor_move_bytes(n, direction));
    }
    Ok(())
}

impl Write for ArrayWriter {
    closed spec fn sunk(&self) -> Seq<u8> {
        self.written()
    }

    closed spec fn room(&self) -> nat {
        if self.len <= self.buf@.len() {
            (self.buf@.len() - self.len) as nat
        } else {
            0
        }
    }

    fn write_all(&mut self, bytes: &[u8]) -> (r: Result<(), i32>) {
        if bytes.len() == 0 {
            proof {
                assert(self.written() + bytes@ =~= self.written());
            }
            return Ok(());
        }
        self.write_bytes_unchecked(bytes);
        Ok(())
    }
}

} // verus!
