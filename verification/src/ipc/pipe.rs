//! Pipes: a bounded byte buffer between readers and writers.

use vstd::prelude::*;
use super::{IpcError, IpcResult};

verus! {

/// Capacity of a pipe's buffer in bytes.
pub const PIPE_BUFFER_SIZE: usize = 65536;

/// A unidirectional pipe.
pub struct Pipe {
    /// Bytes written and not yet read, oldest first.
    buffer: Vec<u8>,
    /// Number of readers.
    readers: u32,
    /// Number of writers.
    writers: u32,
}

/// What `read` into a buffer of `buf_len` bytes returns, given the pipe's
/// bytes `data` and its number of writers.
pub open spec fn read_result(data: Seq<u8>, writers: u32, buf_len: nat) -> IpcResult<usize> {
    if data.len() == 0 {
        if writers == 0 {
            Ok(0)
        } else {
            Err(IpcError::QueueEmpty)
        }
    } else {
        Ok((if buf_len < data.len() { buf_len } else { data.len() }) as usize)
    }
}

impl Pipe {
    /// The bytes in the pipe, oldest first.
    pub closed spec fn view(&self) -> Seq<u8> {
        self.buffer@
    }

    /// The number of readers.
    pub closed spec fn readers_spec(&self) -> u32 {
        self.readers
    }

    /// The number of writers.
    pub closed spec fn writers_spec(&self) -> u32 {
        self.writers
    }

    /// The buffer never holds more than its capacity.
    pub open spec fn wf(&self) -> bool {
        self@.len() <= PIPE_BUFFER_SIZE
    }

    /// An empty pipe with no reader and no writer.
    pub fn new() -> (r: Self)
        ensures
            r.wf(),
            r@ == Seq::<u8>::empty(),
            r.readers_spec() == 0,
            r.writers_spec() == 0,
    {
        Pipe { buffer: Vec::with_capacity(PIPE_BUFFER_SIZE), readers: 0, writers: 0 }
    }

    /// The number of readers.
    pub fn readers(&self) -> (r: u32)
        ensures
            r == self.readers_spec(),
    {
        self.readers
    }

    /// The number of writers.
    pub fn writers(&self) -> (r: u32)
        ensures
            r == self.writers_spec(),
    {
        self.writers
    }

    /// Add a reader.
    pub fn add_reader(&mut self)
        requires
            old(self).readers_spec() < u32::MAX,
        ensures
            final(self).readers_spec() == old(self).readers_spec() + 1,
            final(self).writers_spec() == old(self).writers_spec(),
            final(self)@ == old(self)@,
    {
        self.readers = self.readers + 1;
    }

    /// Remove a reader.
    pub fn remove_reader(&mut self)
        requires
            old(self).readers_spec() > 0,
        ensures
            final(self).readers_spec() == old(self).readers_spec() - 1,
            final(self).writers_spec() == old(self).writers_spec(),
            final(self)@ == old(self)@,
    {
        self.readers = self.readers - 1;
    }

    /// Add a writer.
    pub fn add_writer(&mut self)
        requires
            old(self).writers_spec() < u32::MAX,
        ensures
            final(self).writers_spec() == old(self).writers_spec() + 1,
            final(self).readers_spec() == old(self).readers_spec(),
            final(self)@ == old(self)@,
    {
        self.writers = self.writers + 1;
    }

    /// Remove a writer.
    pub fn remove_writer(&mut self)
        requires
            old(self).writers_spec() > 0,
        ensures
            final(self).writers_spec() == old(self).writers_spec() - 1,
            final(self).readers_spec() == old(self).readers_spec(),
            final(self)@ == old(self)@,
    {
        self.writers = self.writers - 1;
    }

    /// Read the oldest bytes into `buf`, as many as fit.  An empty pipe
    /// gives end of file (0) when no writer is left, else `QueueEmpty`.
    pub fn read(&mut self, buf: &mut [u8]) -> (r: IpcResult<usize>)
        requires
            old(self).wf(),
        ensures
            final(self).wf(),
            final(self).readers_spec() == old(self).readers_spec(),
            final(self).writers_spec() == old(self).writers_spec(),
            r == read_result(old(self)@, old(self).writers_spec(), old(buf)@.len()),
            final(buf)@.len() == old(buf)@.len(),
            match r {
                Ok(k) => {
                    &&& final(self)@ == old(self)@.skip(k as int)
                    &&& final(buf)@ == old(self)@.take(k as int) + old(buf)@.skip(k as int)
                },
                Err(_) => final(self)@ == old(self)@ && final(buf)@ == old(buf)@,
            },
    {
        if self.buffer.is_empty() {
            if self.writers == 0 {
                assert(old(buf)@.take(0) + old(buf)@.skip(0) =~= old(buf)@);
                assert(old(self)@.skip(0) =~= old(self)@);
                return Ok(0);
            }
            return Err(IpcError::QueueEmpty);
        }
        let k = if buf.len() < self.buffer.len() { buf.len() } else { self.buffer.len() };
        let mut i: usize = 0;
        while i < k
            invariant
                k <= buf@.len(),
                k <= self.buffer@.len(),
                i <= k,
                self.buffer@ == old(self)@,
                buf@.len() == old(buf)@.len(),
                forall|j: int| 0 <= j < i ==> #[trigger] buf@[j] == self.buffer@[j],
                forall|j: int| i <= j < buf@.len() ==> #[trigger] buf@[j] == old(buf)@[j],
            decreases k - i,
        {
            buf[i] = self.buffer[i];
            i = i + 1;
        }
        let rest = self.buffer.split_off(k);
        self.buffer = rest;
        assert(buf@ =~= old(self)@.take(k as int) + old(buf)@.skip(k as int));
        assert(self.buffer@ =~= old(self)@.skip(k as int));
        Ok(k)
    }

    /// Append `buf`; refused with `QueueFull` when it does not fit.
    pub fn write(&mut self, buf: &[u8]) -> (r: IpcResult<usize>)
        requires
            old(self).wf(),
        ensures
            final(self).wf(),
            final(self).readers_spec() == old(self).readers_spec(),
            final(self).writers_spec() == old(self).writers_spec(),
            if old(self)@.len() + buf@.len() > PIPE_BUFFER_SIZE {
                r == Err::<usize, IpcError>(IpcError::QueueFull) && final(self)@ == old(self)@
            } else {
                r == Ok::<usize, IpcError>(buf@.len() as usize) && final(self)@ == old(self)@ + buf@
            },
    {
        if buf.len() > PIPE_BUFFER_SIZE - self.buffer.len() {
            return Err(IpcError::QueueFull);
        }
        let mut i: usize = 0;
        while i < buf.len()
            invariant
                i <= buf@.len(),
                self.buffer@ == old(self)@ + buf@.take(i as int),
                self.readers == old(self).readers,
                self.writers == old(self).writers,
            decreases buf@.len() - i,
        {
            self.buffer.push(buf[i]);
            assert(buf@.take(i + 1) =~= buf@.take(i as int).push(buf@[i as int]));
            i = i + 1;
        }
        assert(buf@.take(buf@.len() as int) =~= buf@);
        Ok(buf.len())
    }

    /// Whether there are bytes to read.
    pub fn can_read(&self) -> (r: bool)
        ensures
            r == (self@.len() > 0),
    {
        !self.buffer.is_empty()
    }

    /// Whether the buffer has room left.
    pub fn can_write(&self) -> (r: bool)
        ensures
            r == (self@.len() < PIPE_BUFFER_SIZE),
    {
        self.buffer.len() < PIPE_BUFFER_SIZE
    }
}

impl Default for Pipe {
    fn default() -> (r: Self)
        ensures
            r.wf(),
            r@ == Seq::<u8>::empty(),
            r.readers_spec() == 0,
            r.writers_spec() == 0,
    {
        Self::new()
    }
}

/// A read from a pipe that holds bytes delivers as many of them as the
/// buffer takes, whatever the number of writers: the bytes still in a pipe
/// are read before the end of file is seen.
pub proof fn lemma_read_delivers_buffered(data: Seq<u8>, writers: u32, buf_len: nat)
    requires
        data.len() > 0,
        buf_len <= usize::MAX,
    ensures
        read_result(data, writers, buf_len) is Ok,
        read_result(data, writers, buf_len)->Ok_0 as int == if buf_len < data.len() {
            buf_len as int
        } else {
            data.len() as int
        },
        buf_len > 0 ==> read_result(data, writers, buf_len)->Ok_0 > 0,
{
}

/// A read into a non-empty buffer gives the end of file (0 bytes) exactly
/// when the pipe is empty and no writer is left, and `QueueEmpty` exactly
/// when the pipe is empty and a writer is left.
pub proof fn lemma_read_eof(data: Seq<u8>, writers: u32, buf_len: nat)
    requires
        buf_len > 0,
        buf_len <= usize::MAX,
    ensures
        (read_result(data, writers, buf_len) == Ok::<usize, IpcError>(0)) == (data.len() == 0
            && writers == 0),
        (read_result(data, writers, buf_len) == Err::<usize, IpcError>(IpcError::QueueEmpty)) == (
        data.len() == 0 && writers > 0),
{
}

/// Bytes leave a pipe in the order they were written: after `d` is written
/// behind the bytes `b`, reading first takes `b` and then gives `d`.
pub proof fn lemma_pipe_fifo(b: Seq<u8>, d: Seq<u8>)
    ensures
        (b + d).take(b.len() as int) == b,
        (b + d).skip(b.len() as int) == d,
{
    assert((b + d).take(b.len() as int) =~= b);
    assert((b + d).skip(b.len() as int) =~= d);
}

} // verus!
