//! Reading the body of a file in chunks of bounded size.
//!
//! A `BodyReader` is a cursor over the window `[start, end)` of a file. It
//! owns no file: `read` says what to ask of the storage (where to seek, and
//! a zeroed buffer to fill), the caller lets the storage fill the buffer,
//! and `complete` takes the buffer back, cuts it to what was read and still
//! fits the window, and hands it out as the chunk.
//!
//! `Cursor` is the model of a reader, `delivered` the model of the storage,
//! and `Cursor::replay` the model of a whole run against a file; the laws
//! at the end are stated over them.

use vstd::prelude::*;
use crate::buffer::{buffer_bytes, chunk_bytes, filled};

verus! {

/// The model of a reader: its window, how many bytes it has handed out, and
/// whether a read has been made.
pub struct Cursor {
    pub start: nat,
    pub end: nat,
    pub emitted: nat,
    pub started: bool,
}

/// The smaller of two numbers.
pub open spec fn least(a: nat, b: nat) -> nat {
    if a <= b {
        a
    } else {
        b
    }
}

impl Cursor {
    /// The cursor over `[start, end)` before any read.
    pub open spec fn window(start: nat, end: nat) -> Cursor {
        Cursor { start, end, emitted: 0, started: false }
    }

    /// The window is in order, and no more was handed out than it holds.
    pub open spec fn wf(self) -> bool {
        self.start <= self.end && self.emitted <= self.end - self.start
    }

    /// How many bytes of the window are still to come.
    pub open spec fn remaining(self) -> nat {
        (self.end - self.start - self.emitted) as nat
    }

    /// Whether the whole window has been handed out.
    pub open spec fn exhausted(self) -> bool {
        self.emitted >= self.end - self.start
    }

    /// The position in the file of the next byte to hand out.
    pub open spec fn position(self) -> nat {
        self.start + self.emitted
    }

    /// Where to seek before the next read: to the start of the window, on
    /// the first read only and only where that is not the start of the file.
    pub open spec fn seek(self) -> Option<nat> {
        if !self.started && self.start != 0 {
            Some(self.start)
        } else {
            None
        }
    }

    /// How many bytes the next read asks for.
    pub open spec fn asked(self, chunk_size: nat) -> nat {
        least(chunk_size, self.remaining())
    }

    /// How many of `offered` bytes the window still takes.
    pub open spec fn taken(self, offered: nat) -> nat {
        least(offered, self.remaining())
    }

    /// The cursor once a read has been made.
    pub open spec fn touched(self) -> Cursor {
        Cursor { started: true, ..self }
    }

    /// The cursor once `n` more bytes have been handed out.
    pub open spec fn advanced(self, n: nat) -> Cursor {
        Cursor { emitted: self.emitted + n, started: true, ..self }
    }

    /// One read against `file`, of which the storage has `offered` bytes at
    /// hand: the cursor afterwards, and the chunk, or `None` at the end.
    pub open spec fn step(self, file: Seq<u8>, chunk_size: nat, offered: nat) -> (
        Cursor,
        Option<Seq<u8>>,
    ) {
        if self.exhausted() {
            (self.touched(), None)
        } else {
            let data = delivered(file, self.position(), self.asked(chunk_size), offered);
            let n = self.taken(data.len());
            (self.advanced(n), Some(data.take(n as int)))
        }
    }

    /// A run of reads against `file`, one for each entry of `offered`: the
    /// cursor afterwards, and the chunks one after the other.
    pub open spec fn replay(self, file: Seq<u8>, chunk_size: nat, offered: Seq<nat>) -> (
        Cursor,
        Seq<u8>,
    )
        decreases offered.len(),
    {
        if offered.len() == 0 {
            (self, Seq::empty())
        } else {
            let (next, chunk) = self.step(file, chunk_size, offered[0]);
            let (last, rest) = next.replay(file, chunk_size, offered.drop_first());
            (
                last,
                match chunk {
                    Some(bytes) => bytes + rest,
                    None => rest,
                },
            )
        }
    }
}

/// What the storage puts into a buffer of `asked` bytes at `position` of
/// `file`, when it has `offered` bytes at hand: the bytes at that position,
/// as many as are asked for, at hand, and left in the file.
pub open spec fn delivered(file: Seq<u8>, position: nat, asked: nat, offered: nat) -> Seq<u8> {
    if position <= file.len() {
        let left = (file.len() - position) as nat;
        let n = least(asked, least(offered, left));
        file.subrange(position as int, (position + n) as int)
    } else {
        Seq::empty()
    }
}

/// The chunk size that a response body is read with.
pub const CHUNK_SIZE: usize = 65536;

/// Why a window was not set.
#[derive(Clone, Copy, Debug, PartialEq, Eq)]
pub enum WindowError {
    /// A read has been made: the window can no longer change.
    Started,
    /// The window would end before it starts.
    Inverted,
}

/// What to ask of the storage for the next chunk.
pub struct ReadRequest {
    /// Where to seek from the start of the file before reading, if at all.
    pub seek: Option<u64>,
    /// The buffer to read into: zeroed, and as long as the read may be.
    pub buffer: bytes::BytesMut,
}

/// A cursor over a window of a file's bytes.
pub struct BodyReader {
    start: u64,
    end: u64,
    bytes_read: u64,
    started: bool,
}

impl View for BodyReader {
    type V = Cursor;

    closed spec fn view(&self) -> Cursor {
        Cursor {
            start: self.start as nat,
            end: self.end as nat,
            emitted: self.bytes_read as nat,
            started: self.started,
        }
    }
}

impl BodyReader {
    #[verifier::type_invariant]
    spec fn well_formed(self) -> bool {
        self@.wf()
    }

    /// A reader over the whole of a file of `total_length` bytes.
    pub fn new(total_length: u64) -> (reader: Self)
        ensures
            reader@ == Cursor::window(0, total_length as nat),
    {
        BodyReader { start: 0, end: total_length, bytes_read: 0, started: false }
    }

    /// Where the window starts.
    pub fn start(&self) -> (start: u64)
        ensures
            start == self@.start,
    {
        self.start
    }

    /// Where the window ends.
    pub fn end(&self) -> (end: u64)
        ensures
            end == self@.end,
    {
        self.end
    }

    /// How many bytes have been handed out.
    pub fn bytes_read(&self) -> (emitted: u64)
        ensures
            emitted == self@.emitted,
            self@.wf(),
    {
        proof {
            use_type_invariant(self);
        }
        self.bytes_read
    }

    /// Sets the window to `[start, end)`. The window can be set until the
    /// first read; after that, and for a window that would end before it
    /// starts, the reader stays as it is and the error says why.
    pub fn set_window(&mut self, start: u64, end: u64) -> (r: Result<(), WindowError>)
        ensures
            match r {
                Ok(()) => !old(self)@.started && start <= end && final(self)@ == Cursor::window(
                    start as nat,
                    end as nat,
                ),
                Err(WindowError::Started) => old(self)@.started && final(self)@ == old(self)@,
                Err(WindowError::Inverted) => !old(self)@.started && start > end && final(self)@
                    == old(self)@,
            },
    {
        proof {
            use_type_invariant(&*self);
        }
        if self.started {
            return Err(WindowError::Started);
        }
        if start > end {
            return Err(WindowError::Inverted);
        }
        *self = BodyReader { start, end, bytes_read: 0, started: false };
        Ok(())
    }

    /// Begins the read of the next chunk, of `chunk_size` bytes at most.
    ///
    /// Returns `None` once the whole window has been handed out, and from
    /// then on. Otherwise returns what to ask of the storage: to seek to the
    /// start of the window, on the first read only and only where the window
    /// does not start at the start of the file; and a zeroed buffer to read
    /// into, as long as the smaller of `chunk_size` and what is left of the
    /// window.
    pub fn read(&mut self, chunk_size: usize) -> (request: Option<ReadRequest>)
        requires
            0 < chunk_size <= isize::MAX,
        ensures
            final(self)@ == old(self)@.touched(),
            request is None <==> old(self)@.exhausted(),
            request matches Some(asked) ==> {
                &&& match asked.seek {
                    Some(position) => old(self)@.seek() == Some(position as nat),
                    None => old(self)@.seek() is None,
                }
                &&& buffer_bytes(asked.buffer) == filled(old(self)@.asked(chunk_size as nat), 0)
            },
    {
        proof {
            use_type_invariant(&*self);
        }
        let seek = if !self.started && self.start != 0 {
            Some(self.start)
        } else {
            None
        };
        self.started = true;
        let remaining: u64 = self.end - self.start - self.bytes_read;
        if remaining == 0 {
            return None;
        }
        let length: usize = if (chunk_size as u64) < remaining {
            chunk_size
        } else {
            remaining as usize
        };
        let mut buffer = bytes::BytesMut::with_capacity(length);
        buffer.resize(length, 0);
        assert(buffer_bytes(buffer) =~= filled(length as nat, 0));
        Some(ReadRequest { seek, buffer })
    }

    /// Completes a read: `buffer` comes back from the storage, which put
    /// `got` bytes at its front. The chunk is the front of the buffer, as
    /// long as the smallest of `got`, the length of the buffer and what is
    /// left of the window; the reader moves on by as many bytes. A chunk of
    /// no bytes is no end: the next `read` decides.
    pub fn complete(&mut self, buffer: bytes::BytesMut, got: usize) -> (chunk: bytes::Bytes)
        ensures
            chunk_bytes(chunk) == buffer_bytes(buffer).take(
                old(self)@.taken(least(got as nat, buffer_bytes(buffer).len())) as int,
            ),
            final(self)@ == old(self)@.advanced(
                old(self)@.taken(least(got as nat, buffer_bytes(buffer).len())),
            ),
    {
        proof {
            use_type_invariant(&*self);
        }
        let ghost handed = buffer_bytes(buffer);
        let mut buffer = buffer;
        let held: usize = buffer.len();
        let offered: usize = if got < held {
            got
        } else {
            held
        };
        let remaining: u64 = self.end - self.start - self.bytes_read;
        let taken: usize = if (offered as u64) < remaining {
            offered
        } else {
            remaining as usize
        };
        buffer.truncate(taken);
        assert(buffer_bytes(buffer) =~= handed.take(taken as int));
        self.bytes_read = self.bytes_read + (taken as u64);
        self.started = true;
        buffer.freeze()
    }
}

/// A step is what `read` and `complete` do between them: where `read`
/// hands out a buffer as long as it asks for, and the storage puts the
/// bytes it delivers at the front of that buffer, `complete` hands out
/// those bytes as the chunk and moves the cursor as the step does.
pub proof fn read_then_complete_is_step(
    cursor: Cursor,
    file: Seq<u8>,
    chunk_size: nat,
    offered: nat,
    buffer: Seq<u8>,
)
    requires
        cursor.wf(),
        !cursor.exhausted(),
        buffer.len() == cursor.asked(chunk_size),
        buffer.take(
            delivered(file, cursor.position(), cursor.asked(chunk_size), offered).len() as int,
        ) == delivered(file, cursor.position(), cursor.asked(chunk_size), offered),
    ensures
        ({
            let got = delivered(file, cursor.position(), cursor.asked(chunk_size), offered).len();
            let taken = cursor.touched().taken(least(got, buffer.len()));
            cursor.step(file, chunk_size, offered) == (
                cursor.touched().advanced(taken),
                Some(buffer.take(taken as int)),
            )
        }),
{
    let data = delivered(file, cursor.position(), cursor.asked(chunk_size), offered);
    let taken = cursor.touched().taken(least(data.len(), buffer.len()));
    assert(taken == data.len());
    assert(data.take(taken as int) =~= data);
}

/// A run hands out the bytes of the file from where the cursor stood to
/// where it stands afterwards, and leaves the window as it was.
pub proof fn lemma_replay(cursor: Cursor, file: Seq<u8>, chunk_size: nat, offered: Seq<nat>)
    requires
        cursor.wf(),
        cursor.end <= file.len(),
    ensures
        ({
            let (last, out) = cursor.replay(file, chunk_size, offered);
            &&& last.wf()
            &&& last.start == cursor.start
            &&& last.end == cursor.end
            &&& cursor.emitted <= last.emitted
            &&& out == file.subrange(cursor.position() as int, last.position() as int)
        }),
    decreases offered.len(),
{
    if offered.len() == 0 {
        assert(file.subrange(cursor.position() as int, cursor.position() as int) =~= Seq::<
            u8,
        >::empty());
    } else {
        let (next, chunk) = cursor.step(file, chunk_size, offered[0]);
        lemma_replay(next, file, chunk_size, offered.drop_first());
        let (last, rest) = next.replay(file, chunk_size, offered.drop_first());
        match chunk {
            Some(bytes) => {
                assert(bytes =~= file.subrange(cursor.position() as int, next.position() as int));
                assert(bytes + rest =~= file.subrange(
                    cursor.position() as int,
                    last.position() as int,
                ));
            },
            None => {},
        }
    }
}

/// While the storage gives at least one byte to every read, as many reads
/// as bytes are left drain the window.
pub proof fn lemma_reads_drain(cursor: Cursor, file: Seq<u8>, chunk_size: nat, offered: Seq<nat>)
    requires
        cursor.wf(),
        cursor.end <= file.len(),
        chunk_size > 0,
        offered.len() >= cursor.remaining(),
        forall|i: int| 0 <= i < offered.len() ==> offered[i] > 0,
    ensures
        cursor.replay(file, chunk_size, offered).0.exhausted(),
    decreases offered.len(),
{
    if offered.len() == 0 {
    } else {
        let (next, chunk) = cursor.step(file, chunk_size, offered[0]);
        let rest = offered.drop_first();
        assert forall|i: int| 0 <= i < rest.len() implies rest[i] > 0 by {
            assert(rest[i] == offered[i + 1]);
        }
        lemma_reads_drain(next, file, chunk_size, rest);
    }
}

/// Exhaustion is final: a read on a reader whose window has been handed
/// out gives `None` and leaves it exhausted, so every later read gives
/// `None` too, and a run from there hands out nothing.
pub proof fn exhaustion_is_final(
    cursor: Cursor,
    file: Seq<u8>,
    chunk_size: nat,
    offered: Seq<nat>,
)
    requires
        cursor.exhausted(),
    ensures
        cursor.touched().exhausted(),
        forall|amount: nat| (#[trigger] cursor.step(file, chunk_size, amount)).1 is None,
        forall|amount: nat| (#[trigger] cursor.step(file, chunk_size, amount)).0.exhausted(),
        cursor.replay(file, chunk_size, offered).0.exhausted(),
        cursor.replay(file, chunk_size, offered).1 == Seq::<u8>::empty(),
    decreases offered.len(),
{
    if offered.len() > 0 {
        exhaustion_is_final(cursor.touched(), file, chunk_size, offered.drop_first());
    }
}

/// Nothing undoes exhaustion: completing a read on an exhausted reader
/// takes no byte and leaves it exhausted.
pub proof fn exhausted_takes_nothing(cursor: Cursor, got: nat)
    requires
        cursor.wf(),
        cursor.exhausted(),
    ensures
        cursor.taken(got) == 0,
        cursor.advanced(cursor.taken(got)).exhausted(),
{
}

/// A reader that is drained has handed out its window: whatever the chunk
/// size, and however much the storage gave to each read, the chunks of a
/// run that ends exhausted are, one after the other, the bytes of the file
/// from `start` to `end`.
pub proof fn drained_reader_gave_window(
    start: nat,
    end: nat,
    file: Seq<u8>,
    chunk_size: nat,
    offered: Seq<nat>,
)
    requires
        start <= end <= file.len(),
    ensures
        Cursor::window(start, end).replay(file, chunk_size, offered).0.exhausted()
            ==> Cursor::window(start, end).replay(file, chunk_size, offered).1 == file.subrange(
            start as int,
            end as int,
        ),
{
    lemma_replay(Cursor::window(start, end), file, chunk_size, offered);
}

/// Round trip: reading a whole file yields its bytes, whatever the chunk
/// size, in as many reads as the file has bytes or more, while the storage
/// gives at least one byte to every read.
pub proof fn round_trip(file: Seq<u8>, chunk_size: nat, offered: Seq<nat>)
    requires
        chunk_size > 0,
        offered.len() >= file.len(),
        forall|i: int| 0 <= i < offered.len() ==> offered[i] > 0,
    ensures
        Cursor::window(0, file.len()).replay(file, chunk_size, offered).1 == file,
{
    let whole = Cursor::window(0, file.len());
    lemma_reads_drain(whole, file, chunk_size, offered);
    lemma_replay(whole, file, chunk_size, offered);
    assert(file.subrange(0, file.len() as int) =~= file);
}

/// Windowed read: a reader whose window starts at `k` yields what a reader
/// of the whole file yields, without its first `k` bytes. The two runs may
/// differ in their chunk sizes and in what the storage gave to each read.
pub proof fn windowed_read(
    file: Seq<u8>,
    k: nat,
    chunk_size: nat,
    offered: Seq<nat>,
    whole_chunk_size: nat,
    whole_offered: Seq<nat>,
)
    requires
        k <= file.len(),
        chunk_size > 0,
        offered.len() >= file.len() - k,
        forall|i: int| 0 <= i < offered.len() ==> offered[i] > 0,
        whole_chunk_size > 0,
        whole_offered.len() >= file.len(),
        forall|i: int| 0 <= i < whole_offered.len() ==> whole_offered[i] > 0,
    ensures
        Cursor::window(k, file.len()).replay(file, chunk_size, offered).1 == Cursor::window(
            0,
            file.len(),
        ).replay(file, whole_chunk_size, whole_offered).1.skip(k as int),
{
    let part = Cursor::window(k, file.len());
    lemma_reads_drain(part, file, chunk_size, offered);
    lemma_replay(part, file, chunk_size, offered);
    round_trip(file, whole_chunk_size, whole_offered);
    assert(file.subrange(k as int, file.len() as int) =~= file.skip(k as int));
}

} // verus!
