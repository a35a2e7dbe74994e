# libisdb

Building blocks for reading ISDB (Japanese digital broadcasting) transport
streams, written in Verus. Verus proves the library's functions against their
contracts; where a result rests on state shared behind a lock or on a user's
implementation of one of the library's traits, the contract says what holds
whatever that state or implementation does. A few calls into the standard
library that Verus has no specification for (`RefCell` borrows, `Rc`/`Arc`
identity and cloning, `String::push`, `char::from_u32`) go through small
trusted wrappers, each documented with what it claims.

## Layout

- `src/utilities.rs`, `src/bitstream.rs`: byte order, BCD, rounding, bit reading
  (Exp-Golomb codes included).
- `src/ts_packet.rs`, `src/pid_map.rs`, `src/ts_packet_counter.rs`: transport
  packets, routing by PID, packet and bit-rate counting.
- `src/psi_section.rs`, `src/pes_packet.rs`: reassembly of PSI sections (with
  their CRC) and PES packets from transport packets.
- `src/adts_parser.rs`, `src/mpeg2_video_parser.rs`: AAC ADTS frames and MPEG-2
  video sequence headers.
- `src/pmt_analyzer.rs`, `src/sdt_analyzer.rs`, `src/bit_analyzer.rs`: service,
  stream and broadcaster information from the program map, service description
  and broadcaster information tables, given as their parsed contents.
- `src/logo_downloader.rs`, `src/logo_service_map.rs`: station logo records and
  the byte formats that carry them; which services and data streams the logo
  downloader watches.
- `src/datetime.rs`, `src/datetime_laws.rs`: calendar arithmetic, the MJD/BCD
  time encodings, and the laws that tie them together.
- `src/md5.rs`: MD5, proved against the RFC 1321 definition.
- `src/stream.rs`, `src/data_storage.rs`, `src/stream_buffer.rs`,
  `src/stream_writer.rs`: byte streams, storages, the block-queue stream buffer
  with its readers, and stream writers.
- `src/arib_string.rs`, `src/arib_decoder.rs`: the ARIB STD-B24 8-unit
  character coding: its code sets and character tables, and the decoder (escape
  sequences, shifts, control codes, UCS text, caption formats). The JIS X 0213
  kanji map is given to the decoder as data.
- `src/source_filter.rs`, `src/stream_source_filter.rs`,
  `src/async_streaming_filter.rs`: source filter state and listeners, a source
  filter that reads a stream in push or pull mode, and a filter that buffers
  what it receives in a stream buffer and sends it on in chunks. The chunks a
  filter sends downstream are queued for the caller to take.
- `src/bitrate.rs`, `src/recorder.rs`, `src/ts_info.rs`: bit rates, recording
  records, and the table of stream and language names.

`tests/` holds the unit tests, one file per module.
