//! The receive buffer of an IPC connection: bytes arrive in chunks of unknown
//! size, and whole messages are taken off its front.

use vstd::prelude::*;

use crate::startup::{io_error_kind, io_error_kind_of, io_error_text_of, new_io_error, IoErrorKind};

verus! {

/// How many free bytes a read is offered at least.
pub const TRANSFER_WINDOW: usize = 1024;

/// What decoding one message from the front of some bytes gave.
pub enum DecodeOutcome<R, E> {
    /// A message, and how many bytes it took up.
    Decoded(R, usize),
    /// The bytes end before the message does.
    Incomplete,
    /// The bytes do not hold a valid message.
    Failed(E),
}

/// `decode` may give `outcome` when it is handed `bytes`.
pub open spec fn outcome_of<R, E, F: Fn(&[u8]) -> DecodeOutcome<R, E>>(
    decode: F,
    bytes: Seq<u8>,
    outcome: DecodeOutcome<R, E>,
) -> bool {
    exists|s: &[u8]| s@ == bytes && #[trigger] decode.ensures((s,), outcome)
}

/// Decoding `bytes` message by message gives `messages`, in order, taking up
/// `sizes` bytes each, and leaves `rest`.
pub open spec fn decodes_as<R, E, F: Fn(&[u8]) -> DecodeOutcome<R, E>>(
    decode: F,
    bytes: Seq<u8>,
    messages: Seq<R>,
    sizes: Seq<usize>,
    rest: Seq<u8>,
) -> bool
    decreases messages.len(),
{
    if messages.len() == 0 {
        sizes.len() == 0 && rest == bytes
    } else {
        &&& sizes.len() == messages.len()
        &&& 1 <= sizes[0] <= bytes.len()
        &&& outcome_of(decode, bytes, DecodeOutcome::Decoded(messages[0], sizes[0]))
        &&& decodes_as(
            decode,
            bytes.skip(sizes[0] as int),
            messages.drop_first(),
            sizes.drop_first(),
            rest,
        )
    }
}

/// One more message decoded from what is left extends the decoded sequence.
pub proof fn lemma_decodes_as_extend<R, E, F: Fn(&[u8]) -> DecodeOutcome<R, E>>(
    decode: F,
    bytes: Seq<u8>,
    messages: Seq<R>,
    sizes: Seq<usize>,
    rest: Seq<u8>,
    message: R,
    n: usize,
)
    requires
        decodes_as(decode, bytes, messages, sizes, rest),
        1 <= n <= rest.len(),
        outcome_of(decode, rest, DecodeOutcome::Decoded(message, n)),
    ensures
        decodes_as(decode, bytes, messages.push(message), sizes.push(n), rest.skip(n as int)),
    decreases messages.len(),
{
    let longer = messages.push(message);
    let longer_sizes = sizes.push(n);
    if messages.len() == 0 {
        assert(longer.drop_first() =~= Seq::<R>::empty());
        assert(longer_sizes.drop_first() =~= Seq::<usize>::empty());
        assert(rest == bytes);
        assert(longer[0] == message);
        assert(longer_sizes[0] == n);
        assert(outcome_of(decode, bytes, DecodeOutcome::Decoded(longer[0], longer_sizes[0])));
        assert(decodes_as(decode, bytes.skip(n as int), longer.drop_first(), longer_sizes.drop_first(), rest.skip(n as int)));
    } else {
        let first = sizes[0];
        lemma_decodes_as_extend(
            decode,
            bytes.skip(first as int),
            messages.drop_first(),
            sizes.drop_first(),
            rest,
            message,
            n,
        );
        assert(longer.drop_first() =~= messages.drop_first().push(message));
        assert(longer_sizes.drop_first() =~= sizes.drop_first().push(n));
    }
}

/// Bytes received over IPC that have not been decoded yet.
#[derive(Debug)]
pub struct IPCBuffer {
    inner: Vec<u8>,
    real_size: usize,
}

impl View for IPCBuffer {
    type V = Seq<u8>;

    /// The received bytes that are not decoded yet, oldest first.
    closed spec fn view(&self) -> Seq<u8> {
        self.inner@.take(self.real_size as int)
    }
}

impl IPCBuffer {
    /// The received bytes lie within the storage.
    pub closed spec fn wf(&self) -> bool {
        self.real_size <= self.inner@.len()
    }

    /// The storage behind the received bytes, which reads are written into.
    pub closed spec fn spare(&self) -> Seq<u8> {
        self.inner@.skip(self.real_size as int)
    }

    /// An empty buffer.
    pub fn new() -> (buffer: Self)
        ensures
            buffer.wf(),
            buffer@ == Seq::<u8>::empty(),
            buffer.spare() == Seq::<u8>::empty(),
    {
        let buffer = Self { inner: Vec::new(), real_size: 0 };
        assert(buffer@ =~= Seq::<u8>::empty());
        assert(buffer.spare() =~= Seq::<u8>::empty());
        buffer
    }

    /// Drops everything received.
    pub fn flush(&mut self)
        ensures
            final(self).wf(),
            final(self)@ == Seq::<u8>::empty(),
            final(self).spare() == Seq::<u8>::empty(),
    {
        self.inner.clear();
        self.real_size = 0;
        assert(self@ =~= Seq::<u8>::empty());
        assert(self.spare() =~= Seq::<u8>::empty());
    }

    /// Makes sure at least `TRANSFER_WINDOW` free bytes follow the received ones, growing
    /// the storage by `TRANSFER_WINDOW` zero bytes when fewer are free, and returns those
    /// free bytes for a read to fill.
    pub fn prepare_transfer_buffer(&mut self) -> (window: &mut [u8])
        requires
            old(self).wf(),
            old(self)@.len() + old(self).spare().len() + TRANSFER_WINDOW <= usize::MAX,
        ensures
            final(self).wf(),
            final(self)@ == old(self)@,
            window@ == if old(self).spare().len() < TRANSFER_WINDOW {
                old(self).spare() + Seq::new(TRANSFER_WINDOW as nat, |i: int| 0u8)
            } else {
                old(self).spare()
            },
            final(self).spare() == final(window)@,
    {
        let length = self.inner.len();
        let available = length - self.real_size;
        if available < TRANSFER_WINDOW {
            self.inner.resize(length + TRANSFER_WINDOW, 0);
        }
        let position = self.real_size;
        let (_, window) = self.inner.as_mut_slice().split_at_mut(position);
        window
    }

    /// Records that a read put `count` bytes at the start of the spare storage.
    pub fn mark_transferred(&mut self, count: usize)
        requires
            old(self).wf(),
            count <= old(self).spare().len(),
        ensures
            final(self).wf(),
            final(self)@ == old(self)@ + old(self).spare().take(count as int),
            final(self).spare() == old(self).spare().skip(count as int),
    {
        let length = self.inner.len();
        assert(old(self).spare().len() == length - self.real_size);
        self.real_size = self.real_size + count;
        assert(self@ =~= old(self)@ + old(self).spare().take(count as int));
        assert(self.spare() =~= old(self).spare().skip(count as int));
    }
}

impl IPCBuffer {
    /// Decodes messages from the front of the received bytes until they run out,
    /// the next message is incomplete, or decoding fails, and removes the bytes of
    /// every decoded message. A failure drops the messages decoded before it.
    pub fn decode_available_messages<R, E, F>(&mut self, decode: F) -> (result: Result<Vec<R>, E>)
        where F: Fn(&[u8]) -> DecodeOutcome<R, E>
        requires
            old(self).wf(),
            forall|s: &[u8]| #[trigger] decode.requires((s,)),
            forall|s: &[u8], o: DecodeOutcome<R, E>|
                #[trigger] decode.ensures((s,), o) ==> (o matches DecodeOutcome::Decoded(_, n)
                    ==> 1 <= n <= s@.len()),
        ensures
            final(self).wf(),
            result matches Ok(messages) ==> exists|sizes: Seq<usize>|
                #[trigger] decodes_as(decode, old(self)@, messages@, sizes, final(self)@),
            result is Ok ==> final(self)@.len() == 0 || outcome_of(
                decode,
                final(self)@,
                DecodeOutcome::Incomplete,
            ),
            result matches Err(error) ==> outcome_of(
                decode,
                final(self)@,
                DecodeOutcome::Failed(error),
            ),
            result is Err ==> exists|messages: Seq<R>, sizes: Seq<usize>|
                #[trigger] decodes_as(decode, old(self)@, messages, sizes, final(self)@),
    {
        let ghost start = self@;
        let mut decoded: Vec<R> = Vec::new();
        let ghost mut sizes: Seq<usize> = Seq::empty();
        proof {
            assert(decodes_as(decode, start, decoded@, sizes, self@));
        }
        while self.real_size > 0
            invariant
                self.wf(),
                forall|s: &[u8]| #[trigger] decode.requires((s,)),
                forall|s: &[u8], o: DecodeOutcome<R, E>|
                    #[trigger] decode.ensures((s,), o) ==> (o matches DecodeOutcome::Decoded(_, n)
                        ==> 1 <= n <= s@.len()),
                start == old(self)@,
                decodes_as(decode, start, decoded@, sizes, self@),
            decreases self.real_size,
        {
            let (received, _) = self.inner.as_slice().split_at(self.real_size);
            proof {
                assert(received@ =~= self@);
            }
            match decode(received) {
                DecodeOutcome::Decoded(message, read_size) => {
                    let ghost before = self@;
                    proof {
                        assert(outcome_of(decode, before, DecodeOutcome::Decoded(message, read_size)));
                        lemma_decodes_as_extend(
                            decode,
                            start,
                            decoded@,
                            sizes,
                            before,
                            message,
                            read_size,
                        );
                        sizes = sizes.push(read_size);
                    }
                    decoded.push(message);
                    self.real_size = self.real_size - read_size;
                    let tail = self.inner.split_off(read_size);
                    self.inner = tail;
                    proof {
                        assert(self@ =~= before.skip(read_size as int));
                    }
                },
                DecodeOutcome::Incomplete => {
                    let result: Result<Vec<R>, E> = Ok(decoded);
                    proof {
                        assert(outcome_of(decode, self@, DecodeOutcome::Incomplete));
                        assert(result matches Ok(m) ==> decodes_as(
                            decode,
                            old(self)@,
                            m@,
                            sizes,
                            self@,
                        ));
                    }
                    return result;
                },
                DecodeOutcome::Failed(error) => {
                    proof {
                        assert(outcome_of(decode, self@, DecodeOutcome::Failed(error)));
                        assert(decodes_as(decode, old(self)@, decoded@, sizes, self@));
                    }
                    return Err(error);
                },
            }
        }
        let result: Result<Vec<R>, E> = Ok(decoded);
        proof {
            assert(result matches Ok(m) ==> decodes_as(decode, old(self)@, m@, sizes, self@));
        }
        result
    }
}


/// What reading goes on to do after a read into the spare storage.
#[derive(Debug)]
pub enum ReadFlow {
    /// Bytes arrived: read again.
    Continue,
    /// Nothing more is there for now: stop reading.
    Done,
    /// Reading failed with this error.
    Failed(std::io::Error),
}

/// A read's outcome ends reading well: no bytes, or nothing there yet.
pub open spec fn ends_reading(outcome: Result<usize, std::io::Error>) -> bool {
    match outcome {
        Ok(count) => count == 0,
        Err(error) => io_error_kind_of(error) == Some(IoErrorKind::WouldBlock),
    }
}

/// The message of the error a read reporting more bytes than it was offered gives.
pub const OVERLONG_READ_MESSAGE: &'static str = "a read reported more bytes than it was offered";

/// The message of the error reading into a buffer that cannot grow any more gives.
pub const FULL_BUFFER_MESSAGE: &'static str = "the receive buffer cannot grow any more";

impl IPCBuffer {
    /// Takes in what a read into the first `offered` spare bytes came to: no bytes, or
    /// an error of kind `WouldBlock`, end reading; bytes that arrived are added to the
    /// received ones and reading goes on; any other error ends reading with it, and so
    /// does a read that reports more bytes than it was offered.
    pub fn take_read(&mut self, offered: usize, read: Result<usize, std::io::Error>) -> (flow:
        ReadFlow)
        requires
            old(self).wf(),
            offered <= old(self).spare().len(),
        ensures
            final(self).wf(),
            match read {
                Ok(count) => if count == 0 {
                    flow is Done && final(self)@ == old(self)@ && final(self).spare() == old(
                        self,
                    ).spare()
                } else if count <= offered {
                    &&& flow is Continue
                    &&& final(self)@ == old(self)@ + old(self).spare().take(count as int)
                    &&& final(self).spare() == old(self).spare().skip(count as int)
                } else {
                    &&& flow matches ReadFlow::Failed(error) && io_error_kind_of(error) == Some(
                        IoErrorKind::InvalidData,
                    ) && io_error_text_of(error) == OVERLONG_READ_MESSAGE@
                    &&& final(self)@ == old(self)@
                    &&& final(self).spare() == old(self).spare()
                },
                Err(error) => {
                    &&& final(self)@ == old(self)@
                    &&& final(self).spare() == old(self).spare()
                    &&& if io_error_kind_of(error) == Some(IoErrorKind::WouldBlock) {
                        flow is Done
                    } else {
                        flow == ReadFlow::Failed(error)
                    }
                },
            },
    {
        match read {
            Ok(count) => {
                if count == 0 {
                    ReadFlow::Done
                } else if count <= offered {
                    self.mark_transferred(count);
                    ReadFlow::Continue
                } else {
                    ReadFlow::Failed(
                        new_io_error(IoErrorKind::InvalidData, OVERLONG_READ_MESSAGE.to_string()),
                    )
                }
            },
            Err(error) => {
                if io_error_kind(&error) == Some(IoErrorKind::WouldBlock) {
                    ReadFlow::Done
                } else {
                    ReadFlow::Failed(error)
                }
            },
        }
    }

    /// Reads through `read` into the spare storage, growing it as
    /// [`IPCBuffer::prepare_transfer_buffer`] does, until a read gives no bytes or
    /// reports `WouldBlock`, which end reading well, or fails. What arrived before a
    /// failure stays received. Reading ends well only on such a read; it fails only with
    /// an error a read reported, on a read that reported more bytes than its window
    /// holds, or when the storage cannot grow by another transfer window within `usize`
    /// (both of kind `InvalidData`); a read of at most its window never fails it.
    pub fn read_using<F>(&mut self, read: F) -> (result: Result<(), std::io::Error>) where
        F: FnMut(&mut [u8]) -> Result<usize, std::io::Error>
        requires
            old(self).wf(),
            forall|window: &mut [u8]| #[trigger] read.requires((window,)),
        ensures
            final(self).wf(),
            old(self)@.len() <= final(self)@.len(),
            final(self)@.take(old(self)@.len() as int) == old(self)@,
            result matches Err(error) ==> io_error_kind_of(error) != Some(IoErrorKind::WouldBlock),
            result is Ok ==> exists|window: &mut [u8], outcome: Result<usize, std::io::Error>|
                #[trigger] read.ensures((window,), outcome) && ends_reading(outcome),
            result matches Err(error) ==> {
                ||| exists|window: &mut [u8]|
                    #[trigger] read.ensures((window,), Err::<usize, std::io::Error>(error))
                ||| exists|window: &mut [u8], count: usize|
                    #[trigger] read.ensures((window,), Ok::<usize, std::io::Error>(count)) && count
                        > final(window)@.len() && io_error_kind_of(error) == Some(IoErrorKind::InvalidData)
                        && io_error_text_of(error) == OVERLONG_READ_MESSAGE@
                ||| io_error_kind_of(error) == Some(IoErrorKind::InvalidData) && io_error_text_of(error)
                    == FULL_BUFFER_MESSAGE@ && final(self)@.len() + final(self).spare().len()
                    + TRANSFER_WINDOW > usize::MAX
            },
    {
        let mut reader = read;
        loop
            invariant
                self.wf(),
                reader == read,
                forall|window: &mut [u8]| #[trigger] read.requires((window,)),
                old(self)@.len() <= self@.len(),
                self@.take(old(self)@.len() as int) == old(self)@,
            decreases usize::MAX - self@.len(),
        {
            if self.inner.len() > usize::MAX - TRANSFER_WINDOW {
                return Err(new_io_error(IoErrorKind::InvalidData, FULL_BUFFER_MESSAGE.to_string()));
            }
            let ghost before = self@;
            let window = self.prepare_transfer_buffer();
            let outcome = reader(window);
            let ghost reported = outcome;
            let offered = self.inner.len() - self.real_size;
            assert(exists|w: &mut [u8]| #[trigger] read.ensures((w,), reported) && final(w)@.len()
                == offered);
            match self.take_read(offered, outcome) {
                ReadFlow::Continue => {
                    assert(self@.len() > before.len());
                    assert(self@.take(old(self)@.len() as int) =~= old(self)@);
                },
                ReadFlow::Done => {
                    assert(ends_reading(reported));
                    return Ok(());
                },
                ReadFlow::Failed(error) => {
                    return Err(error);
                },
            }
        }
    }
}

} // verus!
