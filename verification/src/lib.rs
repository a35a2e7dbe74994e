//! Verified building blocks of an ISDB transport-stream toolkit.
pub mod utilities;
pub mod bitstream;
pub mod ts_packet;
pub mod mpeg2_video_parser;
pub mod adts_parser;
pub mod pes_packet;
pub mod psi_section;
pub mod md5;
pub mod stream;
pub mod data_storage;
pub mod bitrate;
pub mod pid_map;
pub mod stream_writer;
pub mod ts_info;
pub mod datetime;
pub mod stream_buffer;
pub mod source_filter;
pub mod logo_downloader;
pub mod pmt_analyzer;
pub mod sdt_analyzer;
pub mod bit_analyzer;
pub mod recorder;
pub mod arib_string;
pub mod arib_decoder;
pub mod datetime_laws;
pub mod ts_packet_counter;
pub mod logo_service_map;
pub mod stream_source_filter;
pub mod async_streaming_filter;
