//! Streaming deflate compression and decompression: a `Write` that compresses what it is given
//! and a `Read` that decompresses what it reads, both on top of `miniz_oxide`.
use vstd::prelude::*;

use crate::io::{write_all, Read, Write, WriteAllError};

verus! {

/// The state of a `miniz_oxide` compressor.
#[verifier::external_type_specification]
#[verifier::external_body]
pub struct ExCompressorOxide(miniz_oxide::deflate::core::CompressorOxide);

/// The state of a `miniz_oxide` decompressor.
#[verifier::external_type_specification]
#[verifier::external_body]
pub struct ExInflateState(miniz_oxide::inflate::stream::InflateState);

/// An error of `miniz_oxide`.
#[verifier::external_type_specification]
#[verifier::external_body]
pub struct ExMZError(miniz_oxide::MZError);

/// How much a step of the compressor flushes.
#[derive(Clone, Copy, PartialEq, Eq, Debug, Structural)]
pub enum FlushMode {
    /// Nothing is forced out; more input is expected.
    NoFlush,
    /// Everything taken so far is forced out.
    Sync,
    /// The stream is ended.
    Finish,
}

/// The wrapping of a compressed stream.
#[derive(Clone, Copy, PartialEq, Eq, Debug, Structural)]
pub enum StreamFormat {
    Zlib,
    Raw,
}

/// How a step of the compressor or decompressor ended.
pub enum StreamStatus {
    /// Progress was made.
    Progress,
    /// The end of the stream was reached.
    StreamEnd,
    /// A preset dictionary is asked for.
    NeedDict,
    /// No progress could be made for lack of input or output space.
    BufError,
    /// Any other error.
    Failed(miniz_oxide::MZError),
}

/// What a step of the compressor or decompressor did.
pub struct StreamOutcome {
    /// The bytes taken from the input.
    pub bytes_consumed: usize,
    /// The bytes put in the output.
    pub bytes_written: usize,
    pub status: StreamStatus,
}

/// The number of match probes of each compression level, `0` to `10`.
pub open spec fn level_probes(level: int) -> u32 {
    if level <= 0 {
        0
    } else if level == 1 {
        1
    } else if level == 2 {
        6
    } else if level == 3 {
        32
    } else if level == 4 {
        16
    } else if level == 5 {
        32
    } else if level == 6 {
        128
    } else if level == 7 {
        256
    } else if level == 8 {
        512
    } else if level == 9 {
        768
    } else {
        1500
    }
}

/// The compressor flags for a level, window bits and strategy, as `miniz_oxide` builds them: the
/// probes of the level (clamped to `10`, the default `6` for a negative level), greedy parsing up
/// to level `3`, a zlib header for positive window bits, and then raw blocks for level `0` or the
/// strategy's flag (filtered, Huffman only, fixed blocks, run lengths).
pub open spec fn zip_params_flags(level: i32, window_bits: i32, strategy: i32) -> u32 {
    let probes = level_probes(
        if level < 0 {
            6
        } else if level > 10 {
            10
        } else {
            level as int
        },
    );
    let greedy: u32 = if level <= 3 {
        0x4000
    } else {
        0
    };
    let base: u32 = probes | greedy;
    let wrapped: u32 = if window_bits > 0 {
        base | 0x1000
    } else {
        base
    };
    if level == 0 {
        wrapped | 0x8_0000
    } else if strategy == 1 {
        wrapped | 0x2_0000
    } else if strategy == 2 {
        wrapped & !0xFFFu32
    } else if strategy == 4 {
        wrapped | 0x4_0000
    } else if strategy == 3 {
        wrapped | 0x1_0000
    } else {
        wrapped
    }
}

/// `miniz_oxide::deflate::core::create_comp_flags_from_zip_params`: the compressor flags for a
/// level, window bits (positive for a zlib wrapper) and strategy, as `zip_params_flags` states
/// them after its source.
#[verifier::external_body]
fn comp_flags_from_zip_params(level: i32, window_bits: i32, strategy: i32) -> (r: u32)
    ensures
        r == zip_params_flags(level, window_bits, strategy),
{
    miniz_oxide::deflate::core::create_comp_flags_from_zip_params(level, window_bits, strategy)
}

/// `miniz_oxide::deflate::core::CompressorOxide::new`: a fresh compressor for the flags. Nothing
/// is claimed of the opaque state it returns.
#[verifier::external_body]
fn new_compressor(flags: u32) -> (r: miniz_oxide::deflate::core::CompressorOxide) {
    miniz_oxide::deflate::core::CompressorOxide::new(flags)
}

/// `miniz_oxide::inflate::stream::InflateState::new`: a fresh decompressor for the format.
/// Nothing is claimed of the opaque state it returns.
#[verifier::external_body]
fn new_inflate_state(format: StreamFormat) -> (r: miniz_oxide::inflate::stream::InflateState) {
    let data_format = match format {
        StreamFormat::Zlib => miniz_oxide::DataFormat::Zlib,
        StreamFormat::Raw => miniz_oxide::DataFormat::Raw,
    };
    miniz_oxide::inflate::stream::InflateState::new(data_format)
}

/// `miniz_oxide::deflate::stream::deflate`: compresses some of `input` into `output`. What comes
/// out depends on the state of the compressor; claimed is only what holds of every call, as the
/// source shows it: it takes at most the input, writes at most the output, never asks for a
/// dictionary, and fails with a buffer error, doing nothing, when the output is empty.
#[verifier::external_body]
fn deflate_step(
    compressor: &mut miniz_oxide::deflate::core::CompressorOxide,
    input: &[u8],
    output: &mut [u8],
    flush: FlushMode,
) -> (r: StreamOutcome)
    ensures
        r.bytes_consumed <= input@.len(),
        r.bytes_written <= old(output)@.len(),
        final(output)@.len() == old(output)@.len(),
        !(r.status is NeedDict),
        old(output)@.len() == 0 ==> r.bytes_consumed == 0,
        old(output)@.len() == 0 ==> r.bytes_written == 0,
        old(output)@.len() == 0 ==> r.status is BufError,
{
    let flush = match flush {
        FlushMode::NoFlush => miniz_oxide::MZFlush::None,
        FlushMode::Sync => miniz_oxide::MZFlush::Sync,
        FlushMode::Finish => miniz_oxide::MZFlush::Finish,
    };
    let result = miniz_oxide::deflate::stream::deflate(compressor, input, output, flush);
    let status = match result.status {
        Ok(miniz_oxide::MZStatus::Ok) => StreamStatus::Progress,
        Ok(miniz_oxide::MZStatus::StreamEnd) => StreamStatus::StreamEnd,
        Ok(miniz_oxide::MZStatus::NeedDict) => StreamStatus::NeedDict,
        Err(miniz_oxide::MZError::Buf) => StreamStatus::BufError,
        Err(e) => StreamStatus::Failed(e),
    };
    StreamOutcome { bytes_consumed: result.bytes_consumed, bytes_written: result.bytes_written, status }
}

/// `miniz_oxide::inflate::stream::inflate` with no flush: decompresses some of `input` into
/// `output`. What comes out depends on the state of the decompressor; claimed is only what holds
/// of every call, as the source shows it: it takes at most the input, writes at most the output
/// and never asks for a dictionary.
#[verifier::external_body]
fn inflate_step(
    state: &mut miniz_oxide::inflate::stream::InflateState,
    input: &[u8],
    output: &mut [u8],
) -> (r: StreamOutcome)
    ensures
        r.bytes_consumed <= input@.len(),
        r.bytes_written <= old(output)@.len(),
        final(output)@.len() == old(output)@.len(),
        !(r.status is NeedDict),
{
    let result = miniz_oxide::inflate::stream::inflate(state, input, output, miniz_oxide::MZFlush::None);
    let status = match result.status {
        Ok(miniz_oxide::MZStatus::Ok) => StreamStatus::Progress,
        Ok(miniz_oxide::MZStatus::StreamEnd) => StreamStatus::StreamEnd,
        Ok(miniz_oxide::MZStatus::NeedDict) => StreamStatus::NeedDict,
        Err(miniz_oxide::MZError::Buf) => StreamStatus::BufError,
        Err(e) => StreamStatus::Failed(e),
    };
    StreamOutcome { bytes_consumed: result.bytes_consumed, bytes_written: result.bytes_written, status }
}

/// Error of a [`CompressedWriter`].
#[derive(Debug, PartialEq, Eq)]
pub enum CompressedWriteError<WWE, WFE> {
    /// The compressor left some of the input; both counts are given.
    CompressorDidNotConsumeInput { bytes_input: usize, bytes_consumed: usize },
    MZError(miniz_oxide::MZError),
    /// The writer is already finished and cannot accept more data.
    Finished,
    IoWrite(WriteAllError<WWE>),
    IoFlush(WFE),
}

/// The flush mode a write asks of the compressor: everything forced out with a sync hint, nothing
/// otherwise.
pub fn flush_mode_for(sync_hint: bool) -> (r: FlushMode)
    ensures
        r == (if sync_hint {
            FlushMode::Sync
        } else {
            FlushMode::NoFlush
        }),
{
    if sync_hint {
        FlushMode::Sync
    } else {
        FlushMode::NoFlush
    }
}

/// What a compressed writer makes of a step of the compressor over `input_len` bytes: the
/// number of compressed bytes to hand on and whether the stream has ended; or an error when
/// some input was left or the compressor failed.
pub fn deflate_outcome_step<WE, FE>(outcome: StreamOutcome, input_len: usize) -> (r: Result<
    (usize, bool),
    CompressedWriteError<WE, FE>,
>)
    ensures
        outcome.bytes_consumed != input_len ==> r == Err::<(usize, bool), CompressedWriteError<WE, FE>>(
            CompressedWriteError::CompressorDidNotConsumeInput {
                bytes_input: input_len,
                bytes_consumed: outcome.bytes_consumed,
            },
        ),
        outcome.bytes_consumed == input_len ==> match outcome.status {
            StreamStatus::Failed(e) => r == Err::<(usize, bool), CompressedWriteError<WE, FE>>(
                CompressedWriteError::MZError(e),
            ),
            StreamStatus::StreamEnd => r == Ok::<(usize, bool), CompressedWriteError<WE, FE>>(
                (outcome.bytes_written, true),
            ),
            _ => r == Ok::<(usize, bool), CompressedWriteError<WE, FE>>((outcome.bytes_written, false)),
        },
{
    if outcome.bytes_consumed != input_len {
        return Err(
            CompressedWriteError::CompressorDidNotConsumeInput {
                bytes_input: input_len,
                bytes_consumed: outcome.bytes_consumed,
            },
        );
    }
    match outcome.status {
        StreamStatus::Failed(e) => Err(CompressedWriteError::MZError(e)),
        StreamStatus::StreamEnd => Ok((outcome.bytes_written, true)),
        _ => Ok((outcome.bytes_written, false)),
    }
}

/// What a compressed reader makes of a step of the decompressor over `bytes_read` bytes from its
/// source: the number of bytes to hand out (`Some`), or go on reading (`None`); or an error when
/// some input was left, the source ended before the stream, or the decompressor failed.
pub fn inflate_outcome_step<E>(outcome: StreamOutcome, bytes_read: usize) -> (r: Result<
    Option<usize>,
    CompressedReadError<E>,
>)
    ensures
        outcome.bytes_consumed != bytes_read ==> r == Err::<Option<usize>, CompressedReadError<E>>(
            CompressedReadError::DecompressorDidNotConsumeInput {
                bytes_input: bytes_read,
                bytes_consumed: outcome.bytes_consumed,
            },
        ),
        outcome.bytes_consumed == bytes_read ==> match outcome.status {
            StreamStatus::Progress => r == (if outcome.bytes_written != 0 {
                Ok::<Option<usize>, CompressedReadError<E>>(Some(outcome.bytes_written))
            } else {
                Ok::<Option<usize>, CompressedReadError<E>>(None)
            }),
            StreamStatus::StreamEnd => r == Ok::<Option<usize>, CompressedReadError<E>>(
                Some(outcome.bytes_written),
            ),
            StreamStatus::NeedDict => r == Ok::<Option<usize>, CompressedReadError<E>>(None),
            StreamStatus::BufError => r == (if bytes_read == 0 {
                Err::<Option<usize>, CompressedReadError<E>>(CompressedReadError::UnexpectedEof)
            } else {
                Ok::<Option<usize>, CompressedReadError<E>>(None)
            }),
            StreamStatus::Failed(e) => r == Err::<Option<usize>, CompressedReadError<E>>(
                CompressedReadError::MZError(e),
            ),
        },
{
    if outcome.bytes_consumed != bytes_read {
        return Err(
            CompressedReadError::DecompressorDidNotConsumeInput {
                bytes_input: bytes_read,
                bytes_consumed: outcome.bytes_consumed,
            },
        );
    }
    match outcome.status {
        StreamStatus::Progress => {
            if outcome.bytes_written != 0 {
                Ok(Some(outcome.bytes_written))
            } else {
                Ok(None)
            }
        },
        StreamStatus::StreamEnd => Ok(Some(outcome.bytes_written)),
        StreamStatus::NeedDict => Ok(None),
        StreamStatus::BufError => {
            if bytes_read == 0 {
                Err(CompressedReadError::UnexpectedEof)
            } else {
                Ok(None)
            }
        },
        StreamStatus::Failed(e) => Err(CompressedReadError::MZError(e)),
    }
}

/// A writer that compresses what it is given and hands the compressed bytes to a target writer.
///
/// Don't forget to call `finish()` when done to finalize the compression and flush any remaining
/// data.
pub struct CompressedWriter<'a, W: Write + ?Sized> {
    compressor: miniz_oxide::deflate::core::CompressorOxide,
    target_writer: &'a mut W,
    finished: bool,
    tmp_buffer: Vec<u8>,
    /// The bytes taken for compression so far.
    taken: Ghost<Seq<u8>>,
    /// The flags the compressor was made with.
    flags: Ghost<u32>,
    /// The input and flush mode of each step asked of the compressor, in order.
    steps: Ghost<Seq<(Seq<u8>, FlushMode)>>,
    /// Everything the compressor has put out, in order.
    produced: Ghost<Seq<u8>>,
}

impl<'a, W: Write + ?Sized> CompressedWriter<'a, W> {
    /// The stream has been ended.
    pub closed spec fn is_done(&self) -> bool {
        self.finished
    }

    /// The most compressed bytes handed on at once.
    pub closed spec fn chunk_size(&self) -> nat {
        self.tmp_buffer@.len()
    }

    /// What the target writer has taken: the compressed stream so far.
    pub closed spec fn target_accepted(&self) -> Seq<u8> {
        (*self.target_writer).accepted()
    }

    /// The flags the compressor was made with.
    pub closed spec fn compressor_flags(&self) -> u32 {
        self.flags@
    }

    /// The input and flush mode of each step asked of the compressor, in order.
    pub closed spec fn compressor_steps(&self) -> Seq<(Seq<u8>, FlushMode)> {
        self.steps@
    }

    /// Everything the compressor has put out, in order.
    pub closed spec fn compressed_output(&self) -> Seq<u8> {
        self.produced@
    }

    /// What the compressor put out since `earlier`.
    pub open spec fn output_since(&self, earlier: Self) -> Seq<u8> {
        self.compressed_output().skip(earlier.compressed_output().len() as int)
    }

    /// A compressor with the given level, with a zlib wrapper or raw, that hands on at most
    /// `tmp_buffer_size` bytes at once.
    pub fn new(target_writer: &'a mut W, level: u8, zlib_wrapped: bool, tmp_buffer_size: usize) -> (r: Self)
        ensures
            !r.is_done(),
            r.chunk_size() == tmp_buffer_size,
            r.accepted() == Seq::<u8>::empty(),
            r.compressor_flags() == zip_params_flags(
                level as i32,
                if zlib_wrapped {
                    1
                } else {
                    0
                },
                0,
            ),
            r.compressor_steps() == Seq::<(Seq<u8>, FlushMode)>::empty(),
            r.compressed_output() == Seq::<u8>::empty(),
    {
        let window_bits: i32 = if zlib_wrapped {
            1
        } else {
            0
        };
        let flags = comp_flags_from_zip_params(level as i32, window_bits, 0);
        let mut tmp_buffer: Vec<u8> = Vec::new();
        tmp_buffer.resize(tmp_buffer_size, 0);
        CompressedWriter {
            compressor: new_compressor(flags),
            target_writer,
            finished: false,
            tmp_buffer,
            taken: Ghost(Seq::empty()),
            flags: Ghost(flags),
            steps: Ghost(Seq::empty()),
            produced: Ghost(Seq::empty()),
        }
    }

    /// Compresses all of `input_buffer` and hands on what comes out; returns the number of
    /// compressed bytes handed on. The end of the stream marks the writer finished.
    fn write_internal(&mut self, input_buffer: &[u8], flush: FlushMode) -> (r: Result<
        usize,
        CompressedWriteError<W::WriteError, W::FlushError>,
    >)
        ensures
            final(self).chunk_size() == old(self).chunk_size(),
            final(self).taken == old(self).taken,
            final(self).flags == old(self).flags,
            final(self).compressor_steps() == old(self).compressor_steps().push((input_buffer@, flush)),
            old(self).compressed_output().is_prefix_of(final(self).compressed_output()),
            old(self).is_done() ==> final(self).is_done(),
            r matches Ok(written) ==> written <= old(self).chunk_size(),
            r matches Ok(written) ==> final(self).output_since(*old(self)).len() == written,
            r is Ok ==> final(self).target_accepted() == old(self).target_accepted() + final(self).output_since(*old(self)),
            r matches Err(CompressedWriteError::CompressorDidNotConsumeInput { bytes_input, bytes_consumed })
                ==> bytes_input == input_buffer@.len() && bytes_consumed < bytes_input,
            !(r matches Err(CompressedWriteError::Finished)),
            !(r matches Err(CompressedWriteError::IoFlush(_))),
            old(self).chunk_size() == 0 && input_buffer@.len() == 0 ==> r == Ok::<
                usize,
                CompressedWriteError<W::WriteError, W::FlushError>,
            >(0),
            old(self).chunk_size() == 0 && input_buffer@.len() > 0 ==> r == Err::<
                usize,
                CompressedWriteError<W::WriteError, W::FlushError>,
            >(
                CompressedWriteError::CompressorDidNotConsumeInput {
                    bytes_input: input_buffer@.len() as usize,
                    bytes_consumed: 0,
                },
            ),
            r matches Ok(n) ==> old(self).target_accepted().is_prefix_of(final(self).target_accepted())
                && final(self).target_accepted().len() == old(self).target_accepted().len() + n,
            r is Err && !(r matches Err(CompressedWriteError::IoWrite(_))) ==> final(self).target_accepted()
                == old(self).target_accepted(),
    {
        let result = deflate_step(&mut self.compressor, input_buffer, self.tmp_buffer.as_mut_slice(), flush);
        let ghost p0 = self.produced@;
        proof {
            self.steps@ = self.steps@.push((input_buffer@, flush));
            self.produced@ = self.produced@ + self.tmp_buffer@.take(result.bytes_written as int);
            assert(p0.is_prefix_of(self.produced@)) by {
                assert(self.produced@.subrange(0, p0.len() as int) =~= p0);
            }
            assert(self.produced@.skip(p0.len() as int) =~= self.tmp_buffer@.take(result.bytes_written as int));
        }
        let (written, ended) = match deflate_outcome_step(result, input_buffer.len()) {
            Ok(d) => d,
            Err(e) => {
                return Err(e);
            },
        };
        if ended {
            self.finished = true;
        }
        let sync_hint = flush != FlushMode::NoFlush;
        let chunk = &self.tmp_buffer.as_slice()[0..written];
        let ghost t0 = self.target_accepted();
        proof {
            assert(chunk@ =~= self.produced@.skip(p0.len() as int));
        }
        match write_all(&mut *self.target_writer, chunk, sync_hint) {
            Ok(()) => {
                proof {
                    assert(t0.is_prefix_of(self.target_accepted())) by {
                        assert(self.target_accepted().subrange(0, t0.len() as int) =~= t0);
                    }
                }
                Ok(written)
            },
            Err(e) => Err(CompressedWriteError::IoWrite(e)),
        }
    }

    /// Whether the stream has been ended.
    pub fn is_finished(&self) -> (r: bool)
        ensures
            r == self.is_done(),
    {
        self.finished
    }

    /// Ends the stream: hands on everything the compressor still holds, and the end of the
    /// stream. Gives up after `usize::MAX` rounds, which no real stream reaches.
    pub fn finish(&mut self) -> (r: Result<(), CompressedWriteError<W::WriteError, W::FlushError>>)
        ensures
            r is Ok ==> final(self).is_done(),
            final(self).chunk_size() == old(self).chunk_size(),
            (*final(self)).accepted() == (*old(self)).accepted(),
            old(self).chunk_size() == 0 ==> r is Ok,
            r is Ok ==> old(self).target_accepted().is_prefix_of(final(self).target_accepted()),
            final(self).compressor_flags() == old(self).compressor_flags(),
            final(self).compressor_steps().len() > old(self).compressor_steps().len(),
            final(self).compressor_steps().take(old(self).compressor_steps().len() as int) == old(self).compressor_steps(),
            forall|i: int|
                old(self).compressor_steps().len() <= i < final(self).compressor_steps().len() ==> #[trigger] final(self).compressor_steps()[i] == (Seq::<u8>::empty(), FlushMode::Finish),
            old(self).compressed_output().is_prefix_of(final(self).compressed_output()),
            r is Ok ==> final(self).target_accepted() == old(self).target_accepted() + final(self).output_since(*old(self)),
    {
        let mut rounds: usize = 0;
        let ghost s0 = self.steps@;
        let ghost p0 = self.produced@;
        let ghost t00 = self.target_accepted();
        proof {
            assert(self.target_accepted().subrange(0, self.target_accepted().len() as int) =~= self.target_accepted());
            assert(self.produced@.subrange(0, p0.len() as int) =~= p0);
            assert(self.steps@.take(s0.len() as int) =~= s0);
            assert(t00 + p0.skip(p0.len() as int) =~= t00);
        }
        while rounds < usize::MAX
            invariant
                self.chunk_size() == old(self).chunk_size(),
                self.taken == old(self).taken,
                self.flags == old(self).flags,
                s0 == old(self).steps@,
                p0 == old(self).produced@,
                t00 == old(self).target_accepted(),
                old(self).target_accepted().is_prefix_of(self.target_accepted()),
                rounds == 0 || self.steps@.len() > s0.len(),
                self.steps@.len() >= s0.len(),
                self.steps@.take(s0.len() as int) == s0,
                forall|i: int|
                    s0.len() <= i < self.steps@.len() ==> #[trigger] self.steps@[i] == (
                        Seq::<u8>::empty(),
                        FlushMode::Finish,
                    ),
                p0.is_prefix_of(self.produced@),
                self.target_accepted() == t00 + self.produced@.skip(p0.len() as int),
            ensures
                self.steps@.len() > s0.len(),
            decreases usize::MAX - rounds,
        {
            let ghost t0 = self.target_accepted();
            let ghost pa = self.produced@;
            let ghost sa = self.steps@;
            let nothing: &[u8] = &[];
            proof {
                assert(nothing@ =~= Seq::<u8>::empty());
            }
            let written = match self.write_internal(nothing, FlushMode::Finish) {
                Ok(n) => n,
                Err(e) => {
                    proof {
                        assert(self.steps@.take(s0.len() as int) =~= s0);
                        assert(self.produced@.subrange(0, p0.len() as int) =~= pa.subrange(0, p0.len() as int));
                    }
                    return Err(e);
                },
            };
            proof {
                let t1 = self.target_accepted();
                assert(t1.subrange(0, old(self).target_accepted().len() as int) =~= t0.subrange(
                    0,
                    old(self).target_accepted().len() as int,
                ));
                assert(self.steps@.take(s0.len() as int) =~= s0);
                assert(self.produced@.subrange(0, p0.len() as int) =~= pa.subrange(0, p0.len() as int));
                assert(self.produced@.skip(p0.len() as int) =~= pa.skip(p0.len() as int) + self.produced@.skip(
                    pa.len() as int,
                ));
                assert(t1 =~= t00 + self.produced@.skip(p0.len() as int));
                assert forall|i: int| s0.len() <= i < self.steps@.len() implies #[trigger] self.steps@[i] == (
                    Seq::<u8>::empty(),
                    FlushMode::Finish,
                ) by {
                    if i < sa.len() {
                        assert(self.steps@[i] == sa[i]);
                    } else {
                        assert(self.steps@[i] == (Seq::<u8>::empty(), FlushMode::Finish));
                    }
                }
            }
            if written == 0 {
                break;
            }
            rounds = rounds + 1;
        }
        self.finished = true;
        Ok(())
    }
}

impl<'a, W: Write + ?Sized> Write for CompressedWriter<'a, W> {
    type WriteError = CompressedWriteError<W::WriteError, W::FlushError>;

    type FlushError = CompressedWriteError<W::WriteError, W::FlushError>;

    /// The bytes taken for compression so far.
    closed spec fn accepted(&self) -> Seq<u8> {
        self.taken@
    }

    /// Compresses all of `buffer_input`; with `sync_hint` everything taken so far is forced out.
    fn write(&mut self, buffer_input: &[u8], sync_hint: bool) -> (r: Result<usize, Self::WriteError>)
        ensures
            old(self).is_done() ==> r matches Err(CompressedWriteError::Finished),
            (r matches Err(CompressedWriteError::Finished)) ==> old(self).is_done(),
            r matches Ok(n) ==> n == buffer_input@.len(),
            old(self).is_done() ==> final(self).is_done(),
            !old(self).is_done() && old(self).chunk_size() == 0 && buffer_input@.len() == 0 ==> r
                == Ok::<usize, Self::WriteError>(0),
            !old(self).is_done() && old(self).chunk_size() == 0 && buffer_input@.len() > 0 ==> r == Err::<
                usize,
                Self::WriteError,
            >(
                CompressedWriteError::CompressorDidNotConsumeInput {
                    bytes_input: buffer_input@.len() as usize,
                    bytes_consumed: 0,
                },
            ),
            r is Ok ==> old(self).target_accepted().is_prefix_of(final(self).target_accepted()),
            old(self).is_done() ==> final(self).target_accepted() == old(self).target_accepted(),
            final(self).compressor_flags() == old(self).compressor_flags(),
            old(self).is_done() ==> final(self).compressor_steps() == old(self).compressor_steps(),
            !old(self).is_done() ==> final(self).compressor_steps() == old(self).compressor_steps().push(
                (
                    buffer_input@,
                    if sync_hint {
                        FlushMode::Sync
                    } else {
                        FlushMode::NoFlush
                    },
                ),
            ),
            old(self).compressed_output().is_prefix_of(final(self).compressed_output()),
            r is Ok ==> final(self).target_accepted() == old(self).target_accepted() + final(self).output_since(*old(self)),
    {
        if self.finished {
            proof {
                assert(self.produced@.subrange(0, self.produced@.len() as int) =~= self.produced@);
            }
            return Err(CompressedWriteError::Finished);
        }
        let flush = flush_mode_for(sync_hint);
        let ghost log = self.taken@;
        match self.write_internal(buffer_input, flush) {
            Ok(_) => {
                proof {
                    self.taken@ = log + buffer_input@;
                    assert(buffer_input@.take(buffer_input@.len() as int) =~= buffer_input@);
                }
                Ok(buffer_input.len())
            },
            Err(e) => Err(e),
        }
    }

    /// Forces out everything taken so far, then flushes the target writer.
    fn flush(&mut self) -> (r: Result<(), Self::FlushError>)
        ensures
            old(self).is_done() ==> r matches Err(CompressedWriteError::Finished),
            (r matches Err(CompressedWriteError::Finished)) ==> old(self).is_done(),
            !old(self).is_done() ==> final(self).compressor_steps() == old(self).compressor_steps().push(
                (Seq::<u8>::empty(), FlushMode::Sync),
            ),
    {
        if self.finished {
            return Err(CompressedWriteError::Finished);
        }
        let nothing: &[u8] = &[];
        proof {
            assert(nothing@ =~= Seq::<u8>::empty());
        }
        match self.write_internal(nothing, FlushMode::Sync) {
            Ok(_) => {},
            Err(e) => {
                return Err(e);
            },
        }
        match self.target_writer.flush() {
            Ok(()) => Ok(()),
            Err(e) => Err(CompressedWriteError::IoFlush(e)),
        }
    }
}

/// Error of a [`CompressedReader`].
#[derive(Debug)]
pub enum CompressedReadError<U> {
    /// The decompressor left some of the input; both counts are given.
    DecompressorDidNotConsumeInput { bytes_input: usize, bytes_consumed: usize },
    /// The source ended before the compressed stream did.
    UnexpectedEof,
    MZError(miniz_oxide::MZError),
    Io(U),
}

/// A reader that decompresses what it reads from a source reader.
pub struct CompressedReader<R: Read> {
    source_reader: R,
    decompressor: miniz_oxide::inflate::stream::InflateState,
    tmp_buffer: Vec<u8>,
    /// The decompressed bytes handed out so far.
    given: Ghost<Seq<u8>>,
    /// The compressed bytes handed to the decompressor so far.
    fed: Ghost<Seq<u8>>,
    /// Everything the decompressor has put out, in order.
    inflated: Ghost<Seq<u8>>,
}

impl<R: Read> CompressedReader<R> {
    /// The most compressed bytes read from the source at once.
    pub closed spec fn chunk_size(&self) -> nat {
        self.tmp_buffer@.len()
    }

    /// The reader of the compressed stream.
    pub closed spec fn source(&self) -> R {
        self.source_reader
    }

    /// The compressed bytes handed to the decompressor so far.
    pub closed spec fn compressed_taken(&self) -> Seq<u8> {
        self.fed@
    }

    /// Everything the decompressor has put out, in order.
    pub closed spec fn decompressed_output(&self) -> Seq<u8> {
        self.inflated@
    }

    /// The last `n` bytes the decompressor put out.
    pub open spec fn last_output(&self, n: nat) -> Seq<u8> {
        self.decompressed_output().skip(self.decompressed_output().len() - n)
    }

    /// A decompressor of a zlib-wrapped or raw stream that reads at most `tmp_buffer_size`
    /// bytes of it at once.
    pub fn new(reader: R, zlib_wrapped: bool, tmp_buffer_size: usize) -> (r: Self)
        ensures
            r.chunk_size() == tmp_buffer_size,
            r.delivered() == Seq::<u8>::empty(),
            r.compressed_taken() == Seq::<u8>::empty(),
            r.decompressed_output() == Seq::<u8>::empty(),
            r.source() == reader,
    {
        let format = if zlib_wrapped {
            StreamFormat::Zlib
        } else {
            StreamFormat::Raw
        };
        let mut tmp_buffer: Vec<u8> = Vec::new();
        tmp_buffer.resize(tmp_buffer_size, 0);
        CompressedReader {
            source_reader: reader,
            decompressor: new_inflate_state(format),
            tmp_buffer,
            given: Ghost(Seq::empty()),
            fed: Ghost(Seq::empty()),
            inflated: Ghost(Seq::empty()),
        }
    }
}

impl<R: Read> CompressedReader<R> {
    /// Reads from the source and decompresses until some bytes come out, the stream ends, or the
    /// source ends too early. Gives up after `usize::MAX` rounds, which no real stream reaches.
    fn read_into(&mut self, output_buffer: &mut [u8]) -> (r: Result<usize, CompressedReadError<R::ReadError>>)
        ensures
            final(output_buffer)@.len() == old(output_buffer)@.len(),
            r matches Ok(n) ==> n <= old(output_buffer)@.len(),
            old(output_buffer)@.len() == 0 ==> r == Ok::<usize, CompressedReadError<R::ReadError>>(0),
            final(self).chunk_size() == old(self).chunk_size(),
            r is Ok ==> old(self).source().delivered().is_prefix_of(final(self).source().delivered())
                && final(self).compressed_taken() == old(self).compressed_taken()
                + final(self).source().delivered().skip(old(self).source().delivered().len() as int),
            old(self).decompressed_output().is_prefix_of(final(self).decompressed_output()),
            r matches Ok(n) ==> n <= final(self).decompressed_output().len() - old(self).decompressed_output().len()
                && final(output_buffer)@.take(n as int) == final(self).last_output(n as nat),
    {
        let ghost d0 = self.source().delivered();
        let ghost f0 = self.fed@;
        proof {
            assert(d0.skip(d0.len() as int) =~= Seq::<u8>::empty());
            assert(f0 + Seq::<u8>::empty() =~= f0);
            assert(d0.subrange(0, d0.len() as int) =~= d0);
        }
        proof {
            assert(self.inflated@.subrange(0, self.inflated@.len() as int) =~= self.inflated@);
        }
        if output_buffer.len() == 0 {
            proof {
                assert(output_buffer@.take(0) =~= self.inflated@.skip(self.inflated@.len() as int));
            }
            return Ok(0);
        }
        let ghost i0 = self.inflated@;
        let ghost out_len = output_buffer@.len();
        let mut rounds: usize = 0;
        while rounds < usize::MAX
            invariant
                output_buffer@.len() == out_len,
                out_len == old(output_buffer)@.len(),
                out_len > 0,
                self.chunk_size() == old(self).chunk_size(),
                d0 == old(self).source().delivered(),
                f0 == old(self).compressed_taken(),
                d0.is_prefix_of(self.source().delivered()),
                self.fed@ == f0 + self.source().delivered().skip(d0.len() as int),
                i0 == old(self).inflated@,
                i0.is_prefix_of(self.inflated@),
            decreases usize::MAX - rounds,
        {
            let ghost d1 = self.source().delivered();
            let bytes_read_count = match self.source_reader.read(self.tmp_buffer.as_mut_slice()) {
                Ok(n) => n,
                Err(e) => {
                    return Err(CompressedReadError::Io(e));
                },
            };
            let chunk = &self.tmp_buffer.as_slice()[0..bytes_read_count];
            let result = inflate_step(&mut self.decompressor, chunk, output_buffer);
            let next = inflate_outcome_step(result, bytes_read_count);
            let ghost ia = self.inflated@;
            proof {
                self.inflated@ = self.inflated@ + output_buffer@.take(result.bytes_written as int);
                assert(self.inflated@.subrange(0, i0.len() as int) =~= ia.subrange(0, i0.len() as int));
                assert(self.inflated@.skip(self.inflated@.len() - result.bytes_written) =~= output_buffer@.take(
                    result.bytes_written as int,
                ));
                let d2 = self.source().delivered();
                assert(chunk@ =~= self.tmp_buffer@.take(bytes_read_count as int));
                assert(d2.skip(d0.len() as int) =~= d1.skip(d0.len() as int) + chunk@);
                assert(d2.subrange(0, d0.len() as int) =~= d1.subrange(0, d0.len() as int));
                self.fed@ = self.fed@ + chunk@;
                assert(self.fed@ =~= f0 + self.source().delivered().skip(d0.len() as int));
            }
            match next {
                Ok(Some(n)) => {
                    return Ok(n);
                },
                Ok(None) => {},
                Err(e) => {
                    return Err(e);
                },
            }
            rounds = rounds + 1;
        }
        Err(CompressedReadError::UnexpectedEof)
    }
}

impl<R: Read> Read for CompressedReader<R> {
    type ReadError = CompressedReadError<R::ReadError>;

    /// The decompressed bytes handed out so far.
    closed spec fn delivered(&self) -> Seq<u8> {
        self.given@
    }

    /// Reads from the source and decompresses until some bytes come out, the stream ends, or the
    /// source ends too early. Gives up after `usize::MAX` rounds, which no real stream reaches.
    fn read(&mut self, output_buffer: &mut [u8]) -> (r: Result<usize, Self::ReadError>)
        ensures
            final(output_buffer)@.len() == old(output_buffer)@.len(),
            r matches Ok(n) ==> n <= old(output_buffer)@.len(),
            old(output_buffer)@.len() == 0 ==> r == Ok::<usize, Self::ReadError>(0),
            final(self).chunk_size() == old(self).chunk_size(),
            r is Ok ==> old(self).source().delivered().is_prefix_of(final(self).source().delivered())
                && final(self).compressed_taken() == old(self).compressed_taken()
                + final(self).source().delivered().skip(old(self).source().delivered().len() as int),
            old(self).decompressed_output().is_prefix_of(final(self).decompressed_output()),
            r matches Ok(n) ==> n <= final(self).decompressed_output().len() - old(self).decompressed_output().len()
                && final(output_buffer)@.take(n as int) == final(self).last_output(n as nat),
    {
        let ghost log = self.given@;
        let r = self.read_into(output_buffer);
        proof {
            if r is Ok {
                self.given@ = log + output_buffer@.take(r->Ok_0 as int);
            }
        }
        r
    }
}

} // verus!
