//! The entry stream processor: a state machine over the events decoded from
//! one archive, deciding per entry whether it is wanted, where its bytes go,
//! and when the active sink must be torn down.
//!
//! The processor itself performs no I/O: each event yields a [`StepAction`]
//! that the surrounding program carries out (print a path, open a sink,
//! write a chunk, close the sink).

use vstd::prelude::*;

use crate::options::{use_pager, Args};
use crate::pattern::{match_reported, Match};
use crate::strutil::basename_of;
use crate::strutil::{basename, concat_str, slash_prefixed};

verus! {

/// POSIX file-type mask within a mode word.
pub const FILE_TYPE_MASK: u32 = 0o170000;

/// The file-type bits of a regular file.
pub const FILE_TYPE_REGULAR: u32 = 0o100000;

/// The owner-execute permission bit.
pub const OWNER_EXECUTE: u32 = 0o100;

/// Whether a chunk counts as binary: it holds a zero byte among its first
/// 512 bytes.
pub open spec fn is_binary_chunk(data: Seq<u8>) -> bool {
    exists|i: int| 0 <= i < data.len() && i < 512 && data[i] == 0
}

/// Classifies a first chunk of content: binary when a zero byte occurs
/// within its first 512 bytes.
pub fn is_binary(data: &[u8]) -> (r: bool)
    ensures
        r == is_binary_chunk(data@),
{
    let n = data.len();
    let lim: usize = if n < 512 {
        n
    } else {
        512
    };
    let mut i: usize = 0;
    while i < lim
        invariant
            i <= lim,
            lim <= n == data@.len(),
            lim == if n < 512 {
                n as int
            } else {
                512int
            },
            forall|k: int| 0 <= k < i ==> data@[k] != 0,
        decreases lim - i,
    {
        if data[i] == 0 {
            return true;
        }
        i = i + 1;
    }
    false
}

/// How matched entries are handled during one archive scan.
#[derive(Clone)]
pub struct ScanOpts {
    /// Print file names instead of contents.
    pub list: bool,
    /// Extract matched files into the current directory.
    pub extract: bool,
    /// Install matched files under the root directory.
    pub install: bool,
    /// Binary content may be written.
    pub binary: bool,
    /// Only executable regular files are considered.
    pub executable: bool,
    /// Report every occurrence, not only the first.
    pub all: bool,
    /// Matched content goes through the pager.
    pub use_pager: bool,
    /// The run may change file ownership (it holds elevated privilege).
    pub elevated: bool,
    /// The root directory installed files go under.
    pub root: String,
}

impl ScanOpts {
    /// The scan options one run derives from its arguments: the output mode
    /// flags carry over, and the pager is used only when printing content in
    /// color with a pager available.
    pub fn from_args(args: &Args, color: bool, pager_available: bool, elevated: bool, root: String) -> (r: Self)
        ensures
            r.list == args.list,
            r.extract == args.extract,
            r.install == args.install,
            r.binary == args.binary,
            r.executable == args.executable,
            r.all == args.all,
            r.use_pager == (color && !args.list && !args.extract && !args.install
                && pager_available),
            r.elevated == elevated,
            r.root == root,
    {
        ScanOpts {
            list: args.list,
            extract: args.extract,
            install: args.install,
            binary: args.binary,
            executable: args.executable,
            all: args.all,
            use_pager: use_pager(color, args.list, args.extract, args.install, pager_available),
            elevated,
            root,
        }
    }
}

/// One event decoded from an archive byte stream, in archive order.
pub enum ArchiveEvent {
    /// A new entry begins, with its path and recorded mode and ownership.
    EntryStart { path: String, mode: u32, uid: u32, gid: u32 },
    /// A chunk of the current entry's content.
    DataChunk { data: Vec<u8> },
    /// The current entry is complete.
    EntryEnd,
}

/// Where the processor stands inside the current entry.
#[derive(Copy, Clone, PartialEq, Eq, Structural, Debug)]
pub enum EntryState {
    /// No destination is open; content is ignored.
    Skip,
    /// An entry was selected; its first chunk decides binary handling.
    FirstChunk,
    /// Content is being forwarded to the open sink.
    Reading,
}

/// The kind of sink the current entry's content goes to.
#[derive(Copy, Clone, PartialEq, Eq, Structural, Debug)]
pub enum SinkKind {
    /// No sink is open.
    NoSink,
    /// Plain pass-through to standard output.
    PassThrough,
    /// An external pager process.
    Pager,
    /// A destination file (extraction or installation).
    Dest,
}

/// What the surrounding program must do after one event.
pub enum StepAction {
    /// Nothing.
    Ignore,
    /// Print the matched path; no content follows.
    AnnouncePath { path: String },
    /// Print the matched path and open the destination file with the given
    /// permission bits; when `chown_if_new` is set and the destination did
    /// not exist before, hand it to the recorded owner.
    BeginExtract { path: String, dest: String, mode: u32, uid: u32, gid: u32, chown_if_new: bool },
    /// Open the pass-through or pager sink for the entry titled with the
    /// absolute path, unless a destination file is already committed.
    BeginStream { pager: bool, title: String },
    /// Write the chunk to the open sink.
    WriteChunk { data: Vec<u8> },
    /// Replace the pager sink with plain pass-through, then write the chunk.
    FallbackWrite { data: Vec<u8> },
    /// Drop the pager sink and warn that the named file is binary.
    AbandonBinary { name: String },
    /// Close the open sink; for a pager, await it and check its exit status.
    FinishEntry { pager: bool },
}

/// The bytes an action writes to the open sink.
pub open spec fn action_writes(act: StepAction) -> Seq<u8> {
    match act {
        StepAction::WriteChunk { data } => data@,
        StepAction::FallbackWrite { data } => data@,
        _ => Seq::empty(),
    }
}

/// Whether an entry is eligible for matching: a regular file, executable by
/// its owner when only executables are wanted.
pub open spec fn eligible_entry(opts: ScanOpts, mode: u32) -> bool {
    &&& mode & FILE_TYPE_MASK == FILE_TYPE_REGULAR
    &&& !opts.executable || mode & OWNER_EXECUTE != 0
}

/// The routing state one data chunk leads to.
pub open spec fn chunk_next_state(opts: ScanOpts, state: EntryState, sink: SinkKind, data: Seq<u8>) -> (EntryState, SinkKind) {
    match state {
        EntryState::Skip => (state, sink),
        EntryState::FirstChunk => {
            if is_binary_chunk(data) && sink == SinkKind::Pager {
                if opts.binary {
                    (EntryState::Reading, SinkKind::PassThrough)
                } else {
                    (EntryState::Skip, SinkKind::PassThrough)
                }
            } else {
                (EntryState::Reading, sink)
            }
        },
        EntryState::Reading => (state, sink),
    }
}

/// The bytes one data chunk sends to the open sink.
pub open spec fn chunk_written(opts: ScanOpts, state: EntryState, sink: SinkKind, data: Seq<u8>) -> Seq<u8> {
    match state {
        EntryState::Skip => Seq::empty(),
        EntryState::FirstChunk => {
            if is_binary_chunk(data) && sink == SinkKind::Pager && !opts.binary {
                Seq::empty()
            } else {
                data
            }
        },
        EntryState::Reading => data,
    }
}

/// The archive-entry state machine.
pub struct EntryProcessor {
    /// Where the processor stands inside the current entry.
    pub state: EntryState,
    /// The sink the current entry's content goes to.
    pub sink: SinkKind,
    /// The basename of the current entry, for the binary warning.
    pub name: String,
    /// The options of this scan.
    pub opts: ScanOpts,
}

impl EntryProcessor {
    /// A fresh processor: skipping, no sink open.
    pub fn new(opts: ScanOpts) -> (r: Self)
        ensures
            r.state == EntryState::Skip,
            r.sink == SinkKind::NoSink,
            r.name@ == Seq::<char>::empty(),
            r.opts == opts,
    {
        EntryProcessor { state: EntryState::Skip, sink: SinkKind::NoSink, name: String::new(), opts }
    }

    /// Drives the state machine by one decoded event.
    ///
    /// Entry start: entries that are not regular files (or lack the execute
    /// bit under the executable filter) are skipped without consulting the
    /// matcher. Otherwise the path is offered to the matcher, consuming
    /// unless every occurrence is wanted. On a reported match the action
    /// announces the path (list), opens a destination file (extract or
    /// install, under the root for install, by basename for extract), or
    /// opens the pass-through or pager sink, and the first chunk is awaited.
    ///
    /// Data chunk: the first chunk falls back from the pager to pass-through
    /// when it is binary, and abandons the entry when binary content is not
    /// allowed; all forwarded chunks reach the sink verbatim.
    ///
    /// Entry end: the sink is closed (a pager awaited), and the processor
    /// returns to skipping.
    pub fn on_event(&mut self, m: &mut Match, ev: ArchiveEvent) -> (act: StepAction)
        requires
            old(m).wf(),
        ensures
            final(m).wf(),
            final(m).patterns() == old(m).patterns(),
            final(m).is_regex() == old(m).is_regex(),
            final(m).exact() == old(m).exact(),
            final(self).opts == old(self).opts,
            (match ev {
                ArchiveEvent::EntryStart { path, mode, uid, gid } => {
                    if !eligible_entry(old(self).opts, mode) {
                        &&& *final(m) == *old(m)
                        &&& *final(self) == *old(self)
                        &&& act is Ignore
                    } else {
                        let opts = old(self).opts;
                        let reported = match_reported(*old(m), path@, !opts.all);
                        &&& final(m).ledger() == old(m).ledger() + old(m).hits(path@)
                        &&& final(self).name@ == basename_of(path@)
                        &&& if !reported {
                            &&& final(self).state == old(self).state
                            &&& final(self).sink == old(self).sink
                            &&& act is Ignore
                        } else if opts.extract || opts.install {
                            &&& final(self).state == EntryState::FirstChunk
                            &&& final(self).sink == SinkKind::Dest
                            &&& act matches StepAction::BeginExtract {
                                path: ap,
                                dest,
                                mode: am,
                                uid: au,
                                gid: ag,
                                chown_if_new,
                            } && ap@ == path@ && am == mode && au == uid && ag == gid
                                && chown_if_new == (opts.install && opts.elevated) && dest@ == (
                            if opts.install {
                                opts.root@ + path@
                            } else {
                                basename_of(path@)
                            })
                        } else if opts.list {
                            &&& final(self).state == old(self).state
                            &&& final(self).sink == old(self).sink
                            &&& act matches StepAction::AnnouncePath { path: ap } && ap@ == path@
                        } else {
                            &&& final(self).state == EntryState::FirstChunk
                            &&& final(self).sink == (if old(self).sink == SinkKind::Dest {
                                SinkKind::Dest
                            } else if opts.use_pager {
                                SinkKind::Pager
                            } else {
                                SinkKind::PassThrough
                            })
                            &&& act matches StepAction::BeginStream { pager, title } && pager == (
                            final(self).sink == SinkKind::Pager) && title@ == seq!['/'] + path@
                        }
                    }
                },
                ArchiveEvent::DataChunk { data } => {
                    let next = chunk_next_state(
                        old(self).opts,
                        old(self).state,
                        old(self).sink,
                        data@,
                    );
                    &&& *final(m) == *old(m)
                    &&& final(self).name == old(self).name
                    &&& final(self).state == next.0
                    &&& final(self).sink == next.1
                    &&& action_writes(act) == chunk_written(
                        old(self).opts,
                        old(self).state,
                        old(self).sink,
                        data@,
                    )
                    &&& if old(self).state is Skip {
                        act is Ignore
                    } else if old(self).state is FirstChunk && is_binary_chunk(data@) && old(
                        self,
                    ).sink == SinkKind::Pager {
                        if old(self).opts.binary {
                            act matches StepAction::FallbackWrite { data: d } && d@ == data@
                        } else {
                            act matches StepAction::AbandonBinary { name } && name@ == old(
                                self,
                            ).name@
                        }
                    } else {
                        act matches StepAction::WriteChunk { data: d } && d@ == data@
                    }
                },
                ArchiveEvent::EntryEnd => {
                    &&& *final(m) == *old(m)
                    &&& final(self).name == old(self).name
                    &&& final(self).state == EntryState::Skip
                    &&& final(self).sink == SinkKind::NoSink
                    &&& act matches StepAction::FinishEntry { pager } && pager == (old(self).sink
                        == SinkKind::Pager)
                },
            }),
    {
        match ev {
            ArchiveEvent::EntryStart { path, mode, uid, gid } => {
                if mode & FILE_TYPE_MASK != FILE_TYPE_REGULAR {
                    return StepAction::Ignore;
                }
                if self.opts.executable && mode & OWNER_EXECUTE == 0 {
                    return StepAction::Ignore;
                }
                self.name = basename(path.as_str()).to_owned();
                let match_once = !self.opts.all;
                if !m.is_match(path.as_str(), match_once) {
                    return StepAction::Ignore;
                }
                if self.opts.extract || self.opts.install {
                    self.state = EntryState::FirstChunk;
                    self.sink = SinkKind::Dest;
                    let dest = if self.opts.install {
                        concat_str(self.opts.root.as_str(), path.as_str())
                    } else {
                        basename(path.as_str()).to_owned()
                    };
                    let chown_if_new = self.opts.install && self.opts.elevated;
                    StepAction::BeginExtract { path, dest, mode, uid, gid, chown_if_new }
                } else if self.opts.list {
                    StepAction::AnnouncePath { path }
                } else {
                    if self.sink != SinkKind::Dest {
                        self.sink = if self.opts.use_pager {
                            SinkKind::Pager
                        } else {
                            SinkKind::PassThrough
                        };
                    }
                    self.state = EntryState::FirstChunk;
                    let pager = self.sink == SinkKind::Pager;
                    let title = slash_prefixed(path.as_str());
                    StepAction::BeginStream { pager, title }
                }
            },
            ArchiveEvent::DataChunk { data } => {
                match self.state {
                    EntryState::Skip => StepAction::Ignore,
                    EntryState::FirstChunk => {
                        if is_binary(data.as_slice()) && self.sink == SinkKind::Pager {
                            self.sink = SinkKind::PassThrough;
                            if self.opts.binary {
                                self.state = EntryState::Reading;
                                StepAction::FallbackWrite { data }
                            } else {
                                self.state = EntryState::Skip;
                                StepAction::AbandonBinary { name: self.name.clone() }
                            }
                        } else {
                            self.state = EntryState::Reading;
                            StepAction::WriteChunk { data }
                        }
                    },
                    EntryState::Reading => StepAction::WriteChunk { data },
                }
            },
            ArchiveEvent::EntryEnd => {
                let pager = self.sink == SinkKind::Pager;
                self.state = EntryState::Skip;
                self.sink = SinkKind::NoSink;
                StepAction::FinishEntry { pager }
            },
        }
    }
}

/// Decides the pager's fate when its sink closes: a clean exit passes, any
/// other exit code is surfaced as an error even though partial output may
/// already be visible.
pub fn pager_exit_result(success: bool, code: i32) -> (r: Result<(), i32>)
    ensures
        success ==> r is Ok,
        !success ==> (r matches Err(c) && c == code),
{
    if success {
        Ok(())
    } else {
        Err(code)
    }
}

/// The bytes a sequence of data chunks sends to the sink, from a given
/// routing state.
pub open spec fn written_from(opts: ScanOpts, state: EntryState, sink: SinkKind, chunks: Seq<Seq<u8>>) -> Seq<u8>
    decreases chunks.len(),
{
    if chunks.len() == 0 {
        Seq::empty()
    } else {
        let w = chunk_written(opts, state, sink, chunks[0]);
        let next = chunk_next_state(opts, state, sink, chunks[0]);
        w + written_from(opts, next.0, next.1, chunks.drop_first())
    }
}

/// Round trip: once an entry is selected for extraction (destination sink
/// open, first chunk pending), its chunks are forwarded verbatim: the
/// destination receives exactly the concatenation of the entry's chunks.
pub proof fn lemma_extract_round_trip(opts: ScanOpts, state: EntryState, chunks: Seq<Seq<u8>>)
    requires
        state == EntryState::FirstChunk || state == EntryState::Reading,
    ensures
        written_from(opts, state, SinkKind::Dest, chunks) == chunks.flatten(),
    decreases chunks.len(),
{
    if chunks.len() > 0 {
        let next = chunk_next_state(opts, state, SinkKind::Dest, chunks[0]);
        assert(next.0 == EntryState::Reading && next.1 == SinkKind::Dest);
        lemma_extract_round_trip(opts, next.0, chunks.drop_first());
        assert(chunks.flatten() == chunks[0] + chunks.drop_first().flatten());
    }
}

} // verus!
