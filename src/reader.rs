//! The reader's decisions: spool the file from the start, then follow its
//! growth, truncation and removal.

use vstd::prelude::*;

verus! {

/// An event of the reader: a line read (whole, or as far as it has been
/// written), the file shrank, or the file can no longer be followed.
#[derive(Debug)]
pub enum ReaderUpdate {
    Line { line_content: String, offset: u64, line_bytes: usize, partial: bool, file_bytes: u64 },
    Truncated,
    FileError { reason: String },
}

/// What the file watcher reports while the reader tails.
#[derive(Debug)]
pub enum WatchEvent {
    /// The file or its directory was removed.
    Removed,
    /// The file changed; `size` is its length now.
    Changed { size: u64 },
    /// The watcher itself failed.
    Failed { reason: String },
}

/// What the reader's runtime does next after a watcher event.
#[derive(Debug)]
pub enum TailAction {
    /// Send `update` and stop: the file is gone.
    Finish { update: ReaderUpdate },
    /// Send `update` and stop with an error: the watcher failed.
    Abort { update: ReaderUpdate },
    /// Go on tailing. If `truncated`, send `ReaderUpdate::Truncated` and
    /// reopen the file first; if `read`, seek to `position` and read lines
    /// until the end of the data.
    Resume { truncated: bool, read: bool, position: u64 },
}

/// The reason given when the file disappears.
pub open spec fn removed_reason() -> Seq<char> {
    seq!['F', 'i', 'l', 'e', ' ', 'r', 'e', 'm', 'o', 'v', 'e', 'd']
}

/// The reader's position in the file: where the next read starts, where
/// the current line started and how many of its bytes were read, and
/// whether that line still waits for its newline.
pub struct ReaderModel {
    pub pos: u64,
    pub line_offset: u64,
    pub line_bytes: usize,
    pub previous_partial: bool,
}

/// A reader that has read nothing.
pub open spec fn fresh_reader() -> ReaderModel {
    ReaderModel { pos: 0, line_offset: 0, line_bytes: 0, previous_partial: false }
}

/// One read: the bytes it consumed, whether the line is still unfinished,
/// and the text of the line so far.
pub struct ReadResult {
    pub bytes: usize,
    pub partial: bool,
    pub content: String,
}

impl ReaderModel {
    /// Before a read: a finished line means a new one starts here.
    pub open spec fn begin(self) -> ReaderModel {
        if self.previous_partial {
            self
        } else {
            ReaderModel { line_bytes: 0, line_offset: self.pos, ..self }
        }
    }

    /// After a read of `bytes` bytes; a read of nothing is the end of the
    /// data for now.
    pub open spec fn after_read(self, bytes: usize, partial: bool) -> ReaderModel {
        if bytes == 0 {
            self
        } else {
            ReaderModel {
                pos: (self.pos + bytes) as u64,
                line_bytes: (self.line_bytes + bytes) as usize,
                previous_partial: partial,
                ..self
            }
        }
    }

    /// The event that a read gives: the line again in full, with the offset
    /// where it starts.
    pub open spec fn read_update(self, bytes: usize, partial: bool, content: String) -> Option<ReaderUpdate> {
        if bytes == 0 {
            None
        } else {
            Some(
                ReaderUpdate::Line {
                    line_content: content,
                    offset: self.line_offset,
                    line_bytes: (self.line_bytes + bytes) as usize,
                    partial,
                    file_bytes: (self.pos + bytes) as u64,
                },
            )
        }
    }

    /// The reads fit the counters.
    pub open spec fn fits(self, bytes: usize) -> bool {
        self.pos + bytes <= u64::MAX && self.line_bytes + bytes <= usize::MAX
    }

    /// After a watcher event.
    pub open spec fn after_event(self, event: WatchEvent) -> ReaderModel {
        match event {
            WatchEvent::Changed { size } => if size < self.pos {
                fresh_reader()
            } else {
                self
            },
            _ => self,
        }
    }

    /// What a change of the file to `size` bytes calls for.
    pub open spec fn resume_action(self, size: u64) -> TailAction {
        let truncated = size < self.pos;
        let pos = if truncated {
            0
        } else {
            self.pos
        };
        TailAction::Resume { truncated, read: size != pos, position: pos }
    }
}

/// The events that a sequence of reads gives, one read after another.
pub open spec fn read_stream(m: ReaderModel, reads: Seq<ReadResult>) -> Seq<Option<ReaderUpdate>>
    decreases reads.len(),
{
    if reads.len() == 0 {
        Seq::empty()
    } else {
        let b = m.begin();
        let r = reads[0];
        seq![b.read_update(r.bytes, r.partial, r.content)] + read_stream(
            b.after_read(r.bytes, r.partial),
            reads.drop_first(),
        )
    }
}

/// The decisions of the reader: spool the file from the start, then follow
/// it as the watcher reports changes. Reading and watching are left to the
/// runtime, which hands each result in.
pub struct Reader {
    pos: u64,
    line_offset: u64,
    line_bytes: usize,
    previous_partial: bool,
}

impl View for Reader {
    type V = ReaderModel;

    closed spec fn view(&self) -> ReaderModel {
        ReaderModel {
            pos: self.pos,
            line_offset: self.line_offset,
            line_bytes: self.line_bytes,
            previous_partial: self.previous_partial,
        }
    }
}

impl Reader {
    pub fn new() -> (r: Reader)
        ensures
            r@ == fresh_reader(),
    {
        Reader { pos: 0, line_offset: 0, line_bytes: 0, previous_partial: false }
    }

    /// Where the next read starts.
    pub fn position(&self) -> (r: u64)
        ensures
            r == self@.pos,
    {
        self.pos
    }

    /// Whether a read of `bytes` more bytes still fits the counters.
    pub fn can_take(&self, bytes: usize) -> (r: bool)
        ensures
            r == self@.fits(bytes),
    {
        bytes as u64 <= u64::MAX - self.pos && bytes <= usize::MAX - self.line_bytes
    }

    /// Called before each read. Returns true when a new line starts, in
    /// which case the line buffer must be emptied first.
    pub fn begin_line(&mut self) -> (clear: bool)
        ensures
            final(self)@ == old(self)@.begin(),
            clear == !old(self)@.previous_partial,
    {
        if !self.previous_partial {
            self.line_bytes = 0;
            self.line_offset = self.pos;
            true
        } else {
            false
        }
    }

    /// Takes the result of a read: `bytes` consumed, `partial` when no
    /// newline ended them, `line` the buffer holding the line so far. Gives
    /// the event to send, or nothing at the end of the data.
    pub fn take_read(&mut self, bytes: usize, partial: bool, line: &String) -> (r: Option<ReaderUpdate>)
        requires
            old(self)@.fits(bytes),
        ensures
            final(self)@ == old(self)@.after_read(bytes, partial),
            r == old(self)@.read_update(bytes, partial, *line),
    {
        if bytes == 0 {
            return None;
        }
        self.line_bytes = self.line_bytes + bytes;
        self.pos = self.pos + bytes as u64;
        self.previous_partial = partial;
        Some(
            ReaderUpdate::Line {
                line_content: line.clone(),
                offset: self.line_offset,
                line_bytes: self.line_bytes,
                partial,
                file_bytes: self.pos,
            },
        )
    }

    /// Decides what a watcher event means. A file shorter than what was read
    /// was truncated: the reader starts over from offset zero.
    pub fn on_watch_event(&mut self, event: WatchEvent) -> (r: TailAction)
        ensures
            final(self)@ == old(self)@.after_event(event),
            match event {
                WatchEvent::Removed => r matches TailAction::Finish {
                    update: ReaderUpdate::FileError { reason },
                } && reason@ == removed_reason(),
                WatchEvent::Failed { reason } => r == (TailAction::Abort {
                    update: ReaderUpdate::FileError { reason },
                }),
                WatchEvent::Changed { size } => r == old(self)@.resume_action(size),
            },
    {
        match event {
            WatchEvent::Removed => {
                proof {
                    reveal_strlit("File removed");
                }
                TailAction::Finish { update: ReaderUpdate::FileError { reason: "File removed".to_owned() } }
            },
            WatchEvent::Failed { reason } => TailAction::Abort { update: ReaderUpdate::FileError { reason } },
            WatchEvent::Changed { size } => {
                let truncated = size < self.pos;
                if truncated {
                    self.pos = 0;
                    self.line_offset = 0;
                    self.line_bytes = 0;
                    self.previous_partial = false;
                }
                TailAction::Resume { truncated, read: size != self.pos, position: self.pos }
            },
        }
    }
}

/// Truncating and then writing the same bytes again: the shrink is reported
/// once, and the reader is back where it started, so the same reads give the
/// same events as the first time.
pub proof fn lemma_truncation_replays(m: ReaderModel, size: u64, reads: Seq<ReadResult>)
    requires
        size < m.pos,
    ensures
        m.resume_action(size) matches TailAction::Resume { truncated, .. } && truncated,
        m.after_event(WatchEvent::Changed { size }) == fresh_reader(),
        read_stream(m.after_event(WatchEvent::Changed { size }), reads) == read_stream(fresh_reader(), reads),
{
}

} // verus!
