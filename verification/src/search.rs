//! The device searcher: a scan-then-watch state machine.
//!
//! A [`Searcher`] runs through two phases, in one direction only.  In the
//! scan phase the entries of the searched directory that already exist are
//! filtered one by one ([`Searcher::scan_entry`]); when the listing is
//! exhausted the scan is retired for good ([`Searcher::finish_scan`]).  In
//! the watch phase the bytes that the kernel's change-notification stream
//! delivers are accumulated ([`Searcher::push_bytes`]) and decoded
//! ([`Searcher::find`]).  [`Searcher::on_event`] drives the whole machine by
//! one external event at a time; a host program supplies those events from
//! the directory listing and the watch descriptor it owns.

use vstd::prelude::*;
use vstd::string::StringExecFns;

use crate::decode::decode_name;
use crate::decode::decode_rest;
use crate::decode::decode_result;
use crate::decode::lossy_decode;
use crate::decode::next_match;
use crate::decode::starts_with_bytes;

verus! {

/// Flag added to every device open call so that it cannot block.
pub const OPEN_NONBLOCK: i32 = 2048;

/// A discovered device: one absolute path under the searched directory.
#[derive(Debug)]
pub struct Found {
    path: String,
}

impl View for Found {
    type V = Seq<char>;

    closed spec fn view(&self) -> Seq<char> {
        self.path@
    }
}

impl Found {
    /// The discovered path.
    pub fn path(&self) -> (r: &str)
        ensures
            r@ == self@,
    {
        self.path.as_str()
    }
}

/// Category of device searched for.
#[derive(Clone, Copy, Debug)]
pub enum Kind {
    /// Input devices: keyboards, mice, gamepads.
    Input,
    /// Audio devices: speakers, microphones.
    Audio,
    /// MIDI devices.
    Midi,
    /// Cameras.
    Camera,
}

/// Name prefix of input device files.
pub open spec fn input_prefix() -> Seq<u8> {
    seq![101u8, 118u8, 101u8, 110u8, 116u8]
}

/// Name prefix of audio device files.
pub open spec fn audio_prefix() -> Seq<u8> {
    seq![112u8, 99u8, 109u8]
}

/// Name prefix of MIDI device files.
pub open spec fn midi_prefix() -> Seq<u8> {
    seq![109u8, 105u8, 100u8, 105u8]
}

/// Name prefix of camera device files.
pub open spec fn camera_prefix() -> Seq<u8> {
    seq![118u8, 105u8, 100u8, 101u8, 111u8]
}

/// Access interest under which a discovered device is opened.
#[derive(Clone, Copy, Debug)]
pub enum Events {
    /// Read access only.
    Read,
    /// Write access only.
    Write,
    /// Read and write access.
    All,
}

impl Events {
    /// The (read, write) pair that an open call under this interest requests.
    pub fn access(&self) -> (r: (bool, bool))
        ensures
            *self is Read ==> r == (true, false),
            *self is Write ==> r == (false, true),
            *self is All ==> r == (true, true),
    {
        match self {
            Events::Read => (true, false),
            Events::Write => (false, true),
            Events::All => (true, true),
        }
    }
}

/// One external event handed to the state machine by its driver.
#[derive(Debug)]
pub enum PollEvent {
    /// The directory listing produced an entry with this file name.
    ScanEntry(Vec<u8>),
    /// The directory listing is exhausted (or could not be opened).
    ScanDone,
    /// The watch descriptor was readable and one read delivered these bytes.
    Chunk(Vec<u8>),
    /// The watch descriptor reported not-ready.
    WatchPending,
}

/// What the state machine asks its driver to do next.
#[derive(Debug)]
pub enum PollStep {
    /// Deliver this discovered device to the caller.
    Yield(Found),
    /// Feed the next event.
    Continue,
    /// Nothing can happen until the watch descriptor wakes; suspend.
    Suspend,
}

/// The state machine that discovers the devices of one directory.
#[derive(Debug)]
pub struct Searcher {
    /// Searched directory, with a trailing separator.
    pub path: String,
    /// Required file-name prefix.
    pub prefix: Vec<u8>,
    /// True while the initial directory listing is still being drained.
    pub scanning: bool,
    /// Raw, not yet decoded tail of the kernel's event stream.
    pub buffer: Vec<u8>,
}

impl Searcher {
    /// A searcher over `dir` for entries whose name starts with `prefix`,
    /// in the scan phase, with nothing buffered.
    pub fn with(dir: &str, prefix: Vec<u8>) -> (r: Searcher)
        ensures
            r.path@ == dir@,
            r.prefix@ == prefix@,
            r.scanning,
            r.buffer@ == Seq::<u8>::empty(),
    {
        Searcher { path: dir.to_owned(), prefix, scanning: true, buffer: Vec::new() }
    }

    /// Searcher for input devices: `/dev/input/event*`.
    pub fn with_input() -> (r: Searcher)
        ensures
            r.path@ == "/dev/input/"@,
            r.prefix@ == input_prefix(),
            r.scanning,
            r.buffer@ == Seq::<u8>::empty(),
    {
        let mut prefix: Vec<u8> = Vec::new();
        prefix.push(101u8);
        prefix.push(118u8);
        prefix.push(101u8);
        prefix.push(110u8);
        prefix.push(116u8);
        assert(prefix@ =~= input_prefix());
        Searcher::with("/dev/input/", prefix)
    }

    /// Searcher for audio devices: `/dev/snd/pcm*`.
    pub fn with_audio() -> (r: Searcher)
        ensures
            r.path@ == "/dev/snd/"@,
            r.prefix@ == audio_prefix(),
            r.scanning,
            r.buffer@ == Seq::<u8>::empty(),
    {
        let mut prefix: Vec<u8> = Vec::new();
        prefix.push(112u8);
        prefix.push(99u8);
        prefix.push(109u8);
        assert(prefix@ =~= audio_prefix());
        Searcher::with("/dev/snd/", prefix)
    }

    /// Searcher for MIDI devices: `/dev/snd/midi*`.  Where that directory
    /// cannot be watched, [`Searcher::midi_fallback`] is the next candidate.
    pub fn with_midi() -> (r: Searcher)
        ensures
            r.path@ == "/dev/snd/"@,
            r.prefix@ == midi_prefix(),
            r.scanning,
            r.buffer@ == Seq::<u8>::empty(),
    {
        let mut prefix: Vec<u8> = Vec::new();
        prefix.push(109u8);
        prefix.push(105u8);
        prefix.push(100u8);
        prefix.push(105u8);
        assert(prefix@ =~= midi_prefix());
        Searcher::with("/dev/snd/", prefix)
    }

    /// Fallback searcher for MIDI devices: `/dev/midi*`, tried when the
    /// sound directory of [`Searcher::with_midi`] yields no watch.
    pub fn midi_fallback() -> (r: Searcher)
        ensures
            r.path@ == "/dev/"@,
            r.prefix@ == midi_prefix(),
            r.scanning,
            r.buffer@ == Seq::<u8>::empty(),
    {
        let mut prefix: Vec<u8> = Vec::new();
        prefix.push(109u8);
        prefix.push(105u8);
        prefix.push(100u8);
        prefix.push(105u8);
        assert(prefix@ =~= midi_prefix());
        Searcher::with("/dev/", prefix)
    }

    /// Searcher for camera devices: `/dev/video*`.
    pub fn with_camera() -> (r: Searcher)
        ensures
            r.path@ == "/dev/"@,
            r.prefix@ == camera_prefix(),
            r.scanning,
            r.buffer@ == Seq::<u8>::empty(),
    {
        let mut prefix: Vec<u8> = Vec::new();
        prefix.push(118u8);
        prefix.push(105u8);
        prefix.push(100u8);
        prefix.push(101u8);
        prefix.push(111u8);
        assert(prefix@ =~= camera_prefix());
        Searcher::with("/dev/", prefix)
    }

    /// Scan-phase filter: a directory entry is surfaced as a discovered
    /// device exactly when its name starts with the required prefix.  The
    /// searcher itself is untouched.
    pub fn scan_entry(&self, name: &[u8]) -> (r: Option<Found>)
        ensures
            self.prefix@.is_prefix_of(name@) ==> (r matches Some(f) && f@ == self.path@
                + lossy_decode(name@)),
            !self.prefix@.is_prefix_of(name@) ==> r is None,
    {
        if starts_with_bytes(name, self.prefix.as_slice()) {
            let decoded = decode_name(name);
            let mut path = self.path.clone();
            path.append(decoded.as_str());
            Some(Found { path })
        } else {
            None
        }
    }

    /// Retires the scan phase.  The transition is one-way: no operation of
    /// the searcher re-arms it.
    pub fn finish_scan(&mut self)
        ensures
            !final(self).scanning,
            final(self).path@ == old(self).path@,
            final(self).prefix@ == old(self).prefix@,
            final(self).buffer@ == old(self).buffer@,
    {
        self.scanning = false;
    }

    /// Appends the bytes of one kernel read behind any carried-over partial
    /// record, so that a record split across reads is decoded whole.
    pub fn push_bytes(&mut self, data: &[u8])
        ensures
            final(self).buffer@ == old(self).buffer@ + data@,
            final(self).path@ == old(self).path@,
            final(self).prefix@ == old(self).prefix@,
            final(self).scanning == old(self).scanning,
    {
        let mut i: usize = 0;
        while i < data.len()
            invariant
                i <= data@.len(),
                self.buffer@ == old(self).buffer@ + data@.take(i as int),
                self.path@ == old(self).path@,
                self.prefix@ == old(self).prefix@,
                self.scanning == old(self).scanning,
            decreases data@.len() - i,
        {
            self.buffer.push(data[i]);
            assert(self.buffer@ =~= old(self).buffer@ + data@.take(i + 1));
            i += 1;
        }
        assert(data@.take(i as int) =~= data@);
    }

    /// One decode attempt over the buffered event stream: surfaces the first
    /// buffered record whose name matches, consuming every record up to and
    /// including it; otherwise consumes all complete records and keeps the
    /// partial tail.
    pub fn find(&mut self) -> (r: Option<Found>)
        ensures
            final(self).buffer@ == decode_rest(old(self).buffer@, old(self).prefix@),
            final(self).path@ == old(self).path@,
            final(self).prefix@ == old(self).prefix@,
            final(self).scanning == old(self).scanning,
            r is None <==> decode_result(old(self).buffer@, old(self).prefix@) is None,
            decode_result(old(self).buffer@, old(self).prefix@) matches Some(name) ==> (
            r matches Some(f) && f@ == old(self).path@ + lossy_decode(name)),
    {
        let found = next_match(&mut self.buffer, self.prefix.as_slice(), self.path.as_str());
        match found {
            Some(path) => Some(Found { path }),
            None => None,
        }
    }

    /// Drives the state machine by one external event.  Scan entries may
    /// only arrive while the scan phase is still active; once it is retired
    /// it stays retired, whatever events follow.
    pub fn on_event(&mut self, ev: PollEvent) -> (r: PollStep)
        requires
            ev matches PollEvent::ScanEntry(_) ==> old(self).scanning,
        ensures
            final(self).path@ == old(self).path@,
            final(self).prefix@ == old(self).prefix@,
            !old(self).scanning ==> !final(self).scanning,
            ev matches PollEvent::ScanEntry(name) ==> {
                &&& final(self).scanning == old(self).scanning
                &&& final(self).buffer@ == old(self).buffer@
                &&& old(self).prefix@.is_prefix_of(name@) ==> (r matches PollStep::Yield(f)
                    && f@ == old(self).path@ + lossy_decode(name@))
                &&& !old(self).prefix@.is_prefix_of(name@) ==> r is Continue
            },
            ev is ScanDone ==> {
                &&& !final(self).scanning
                &&& final(self).buffer@ == old(self).buffer@
                &&& r is Continue
            },
            ev matches PollEvent::Chunk(data) ==> {
                &&& final(self).scanning == old(self).scanning
                &&& final(self).buffer@ == decode_rest(old(self).buffer@ + data@, old(self).prefix@)
                &&& decode_result(old(self).buffer@ + data@, old(self).prefix@) matches Some(name)
                    ==> (r matches PollStep::Yield(f) && f@ == old(self).path@ + lossy_decode(name))
                &&& decode_result(old(self).buffer@ + data@, old(self).prefix@) is None
                    ==> r is Continue
            },
            ev is WatchPending ==> {
                &&& final(self).scanning == old(self).scanning
                &&& final(self).buffer@ == old(self).buffer@
                &&& r is Suspend
            },
    {
        match ev {
            PollEvent::ScanEntry(name) => match self.scan_entry(name.as_slice()) {
                Some(f) => PollStep::Yield(f),
                None => PollStep::Continue,
            },
            PollEvent::ScanDone => {
                self.finish_scan();
                PollStep::Continue
            },
            PollEvent::Chunk(data) => {
                self.push_bytes(data.as_slice());
                match self.find() {
                    Some(f) => PollStep::Yield(f),
                    None => PollStep::Continue,
                }
            },
            PollEvent::WatchPending => PollStep::Suspend,
        }
    }
}

} // verus!
