# no_std_io

Streaming byte I/O for environments without `std`, with a tar parser, gzip headers and
deflate streams built on top, verified with Verus.

- `src/io.rs`: the `Read` and `Write` traits, `write_all`, `read_all` and `copy`.
- `src/buffers.rs`, `src/cursor.rs`: backing buffers and a cursor that reads, writes and seeks.
- `src/streams.rs`: empty, null, slice, vector, bytewise and limited streams.
- `src/buffered.rs`: buffered readers (with forks that read ahead) and writers.
- `src/compression.rs`: deflate compression and decompression streams over `miniz_oxide`.
- `src/gz.rs`: the gzip member header.
- `src/tar/`: the tar parser (`v7`, `ustar`, `pax`, GNU and its sparse formats), fed through
  `Write` in pieces of any size.
- `app/lib.rs`: human-readable messages for the errors.

Every reader and writer has a model: `Read::delivered` is the sequence of bytes it has handed
out, `Write::accepted` the sequence of bytes it has taken, and each successful call extends it
by exactly the bytes it reports. The helpers are stated over these models: `write_all` hands
over the whole input in order, `read_all` fills the buffer from the front of the stream, `copy`
gives the writer exactly what it read, a buffered writer has handed its target everything once
flushed, and a buffered reader stays in step with its source. Where a stream passes a call on to
an inner reader or writer, what it does with the result is a verified function of its own
(`limited_read_result`, `limited_write_result`, `write_all_step`, `copy_read_step`,
`copy_write_step`), and what it hands on is stated (`clip`, `bytewise_hint`).

The tar parser records every entry it finishes (`TarParser::entries`) and keeps the files
chosen from them (`TarParser::files`): every version, or the last one of each path. For
`v7`, `ustar` and GNU archives, the contract of `write` ties the entries to the archive bytes: a
regular file entry, fed in writes of any sizes, is recorded with the data and path its header
announces (`taken_of_file_entry`, `law_whole_file_entry_is_recorded`), and so is each of a run
of such entries, in turn, however the run is cut into writes (`taken_of_file_entries`,
`law_whole_file_entries_are_recorded`); a whole `v7` file entry also gives its owner ids, time
and mode (`has_v7_metadata`); a `v7` directory block records a directory; zero blocks record
nothing.

The contracts state what each function returns or changes; the `law_*` proof functions state
what holds across calls, such as which files the tar parser keeps.

Runs of calls are stated over the contracts of the single calls: `law_buffer_writer_run`,
`law_slice_writer_run`, `law_limited_reader_run` and `law_limited_writer_run` take the states a
writer or reader goes through and what each call returned, and state what it holds or has
counted at the end.

The deflate streams keep a model of what they handed to `miniz_oxide` and what came back: a
`CompressedWriter` records the input and flush mode of each compressor step
(`compressor_steps`, with the flush mode `flush_mode_for` picks) and everything the compressor
put out (`compressed_output`); a successful write, flush or finish has handed the target exactly
what the compressor put out meanwhile. A `CompressedReader` records the source bytes it fed to
the decompressor (`compressed_taken`) and what came out (`decompressed_output`); a read hands out
the last bytes the decompressor put out. What each outcome of a step means is stated by
`deflate_outcome_step` and `inflate_outcome_step`. The compressor flags are those
`zip_params_flags` states.

What the PAX records give an entry is stated where the entry is put together: a local record
wins over everything its headers gave, a global one over the headers alone
(`law_local_pax_value_wins`, `law_global_pax_value_over_headers`,
`law_local_pax_path_names_the_entry`, `law_header_path_names_the_entry`).

Some types take a simpler shape here:

- Reading a fixed number of bytes from a buffered reader fails with `ReadExactError`, which
  carries what a read error, a short source or a full buffer gives.
- The `LimitedHashMap` of attributes offers the operations the parser uses (`new`,
  `max_keys`, `len`, `is_empty`, `get`, `contains_key`, `insert`, `clear`, `entries`,
  `as_hash_map`) over a `hashbrown` map of strings (`StringMap`); the header counts and the path index are maps of their own over `hashbrown`
  (`TypeFlagCounts`, `PathIndex`). Its contents are read out with `entries`, in place of
  iterators over keys, values or pairs.
- The header layouts are `V7Header` with `CommonHeaderAdditions`, `UstarHeaderAdditions` and
  `GnuHeaderAdditions` (with `GnuSparseInstruction` and `GnuHeaderExtSparse` for the old GNU
  sparse map), read from the bytes of a block; the parser's errors are `TarParserError`.
