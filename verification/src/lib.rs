//! Asynchronous discovery of device special files.
//!
//! A searcher surfaces the device files of one kind that live under a
//! well-known directory: it first enumerates the entries that already exist
//! (the scan phase), then watches the directory through a kernel
//! change-notification stream and decodes that stream incrementally (the watch
//! phase).  Every entry whose file name starts with the kind's prefix is
//! yielded as a discovered device path.
//!
//! The crate holds the verified core: the wire-format decoder, the
//! scan-then-watch state machine, and the stub platform used where the kernel
//! facility is absent.  Opening the notification channel, polling it for
//! readiness, and opening a discovered device are operating-system calls that
//! a host program performs, feeding the plain bytes and directory entries it
//! obtains into the state machine.

mod decode;
mod search;
mod stub;

pub use decode::consumed_records;
pub use decode::decode_rest;
pub use decode::decode_result;
pub use decode::first_null;
pub use decode::has_complete_record;
pub use decode::le32_at;
pub use decode::lemma_exact_consumption;
pub use decode::lemma_incomplete_consumes_nothing;
pub use decode::lemma_prefix_filter;
pub use decode::lossy_decode;
pub use decode::next_match;
pub use decode::null_trim;
pub use decode::parse_header;
pub use decode::rec_len;
pub use decode::rec_name;
pub use decode::rec_name_len;
pub use decode::signed32;
pub use decode::total_len;
pub use decode::EventHeader;
pub use decode::HEADER_LEN;
pub use search::audio_prefix;
pub use search::camera_prefix;
pub use search::input_prefix;
pub use search::midi_prefix;
pub use search::Events;
pub use search::Found;
pub use search::Kind;
pub use search::PollEvent;
pub use search::PollStep;
pub use search::Searcher;
pub use search::OPEN_NONBLOCK;
pub use stub::stub_open;
pub use stub::stub_searcher;
