//! Views: a window over the lines of the indexed or filtered file, with a
//! sparse cache of the visible lines, a cursor and a horizontal offset.

use std::ops::Range;
use vstd::prelude::*;
use vstd::view::View as ModelView;

use crate::common::{clamped_add, clamped_sub, spec_clamped_add, spec_clamped_sub, LineContent};
use crate::ifile::{FileReq, FileResp};

verus! {

/// A window of lines: the first one and how many.
#[derive(Debug, Clone, Copy, PartialEq, Eq, Structural)]
pub struct LinesSlice {
    pub first_line: usize,
    pub num_lines: usize,
}

impl Default for LinesSlice {
    fn default() -> (r: LinesSlice)
        ensures
            r.first_line == 0 && r.num_lines == 0,
    {
        LinesSlice { first_line: 0, num_lines: 0 }
    }
}

/// `l` lies in the window.
pub open spec fn in_window(w: LinesSlice, l: int) -> bool {
    w.first_line <= l < w.first_line + w.num_lines
}

impl LinesSlice {
    /// The line numbers of the window, as a half-open range.
    pub fn range(&self) -> (r: Range<usize>)
        requires
            self.first_line + self.num_lines <= usize::MAX,
        ensures
            r.start == self.first_line,
            r.end == self.first_line + self.num_lines,
    {
        Range { start: self.first_line, end: self.first_line + self.num_lines }
    }
}

/// Counters of the upstream file as a view last heard them.
#[derive(Debug, Clone, Copy, PartialEq, Eq, Structural)]
pub struct Stats {
    pub file_lines: usize,
    pub file_bytes: u64,
    pub view_lines: usize,
}

impl Default for Stats {
    fn default() -> (r: Stats)
        ensures
            r.file_lines == 0 && r.file_bytes == 0 && r.view_lines == 0,
    {
        Stats { file_lines: 0, file_bytes: 0, view_lines: 0 }
    }
}

/// The line numbers of the empty slots, in order.
pub open spec fn missing_in<L>(first: int, slots: Seq<Option<L>>) -> Seq<usize>
    decreases slots.len(),
{
    if slots.len() == 0 {
        Seq::empty()
    } else {
        let prev = missing_in(first, slots.drop_last());
        if slots.last() is None {
            prev.push((first + slots.len() - 1) as usize)
        } else {
            prev
        }
    }
}

/// The slots of window `new` after moving from window `old`: a line kept in
/// both keeps its content, every other slot is empty.
pub open spec fn moved_slots<L>(old: LinesSlice, slots: Seq<Option<L>>, new: LinesSlice) -> Seq<Option<L>> {
    Seq::new(
        new.num_lines as nat,
        |j: int|
            if in_window(old, new.first_line + j) {
                slots[new.first_line + j - old.first_line]
            } else {
                None
            },
    )
}

/// The sparse cache of a view: one slot per line of the window.
#[derive(Debug)]
pub struct LineCache<L> {
    pub range: LinesSlice,
    pub lines: Vec<Option<L>>,
}

impl<L: Clone + LineContent> LineCache<L> {
    /// One slot per line of the window, and the window fits in `usize`.
    pub open spec fn wf(&self) -> bool {
        &&& self.lines@.len() == self.range.num_lines
        &&& self.range.first_line + self.range.num_lines <= usize::MAX
    }

    /// Empties every slot and returns every line of the window, to be
    /// fetched again.
    pub fn reset(&mut self) -> (r: Vec<usize>)
        requires
            old(self).wf(),
        ensures
            final(self).wf(),
            final(self).range == old(self).range,
            final(self).lines@ == Seq::new(old(self).range.num_lines as nat, |j: int| None::<L>),
            r@ == missing_in(final(self).range.first_line as int, final(self).lines@),
    {
        self.lines = empty_slots(self.range.num_lines);
        self.missing_lines()
    }

    /// Moves the window to `viewport`, keeping the lines that stay in view,
    /// and returns the lines now missing, to be fetched.
    pub fn set_viewport(&mut self, viewport: LinesSlice) -> (r: Vec<usize>)
        requires
            old(self).wf(),
            viewport.first_line + viewport.num_lines <= usize::MAX,
        ensures
            final(self).wf(),
            final(self).range == viewport,
            final(self).lines@ == moved_slots(old(self).range, old(self).lines@, viewport),
            r@ == missing_in(viewport.first_line as int, final(self).lines@),
    {
        let ofl = self.range.first_line;
        let oend = ofl + self.range.num_lines;
        let nfl = viewport.first_line;
        let nend = nfl + viewport.num_lines;
        let lo = if ofl > nfl { ofl } else { nfl };
        let hi = if oend < nend { oend } else { nend };
        let mut old_lines: Vec<Option<L>> = Vec::new();
        std::mem::swap(&mut old_lines, &mut self.lines);
        let ghost old_slots = old_lines@;
        let mut new_lines: Vec<Option<L>>;
        if lo < hi {
            new_lines = empty_slots(lo - nfl);
            old_lines.truncate(hi - ofl);
            let mut kept = old_lines.split_off(lo - ofl);
            new_lines.append(&mut kept);
            let mut tail = empty_slots(nend - hi);
            new_lines.append(&mut tail);
        } else {
            new_lines = empty_slots(viewport.num_lines);
        }
        assert(new_lines@ =~= moved_slots(self.range, old_slots, viewport));
        self.lines = new_lines;
        self.range = viewport;
        self.missing_lines()
    }

    fn missing_lines(&self) -> (r: Vec<usize>)
        requires
            self.wf(),
        ensures
            r@ == missing_in(self.range.first_line as int, self.lines@),
    {
        let first = self.range.first_line;
        let mut r: Vec<usize> = Vec::new();
        let mut i: usize = 0;
        while i < self.lines.len()
            invariant
                self.wf(),
                first == self.range.first_line,
                i <= self.lines@.len(),
                r@ == missing_in(first as int, self.lines@.take(i as int)),
            decreases self.lines.len() - i,
        {
            assert(self.lines@.take(i + 1).drop_last() =~= self.lines@.take(i as int));
            if self.lines[i].is_none() {
                r.push(i + first);
            }
            i = i + 1;
        }
        assert(self.lines@.take(i as int) =~= self.lines@);
        r
    }

    /// Stores `line` in its slot. A line just past the window while tailing
    /// shifts the window down by one to make room. Returns whether the line
    /// was stored.
    pub fn set_line(&mut self, line_no: usize, line: L, tailing: bool) -> (r: bool)
        requires
            old(self).wf(),
        ensures
            final(self).wf(),
            in_window(old(self).range, line_no as int) ==> {
                &&& r
                &&& final(self).range == old(self).range
                &&& final(self).lines@ == old(self).lines@.update(
                    line_no - old(self).range.first_line,
                    Some(line),
                )
            },
            !in_window(old(self).range, line_no as int) ==> if tailing && line_no == old(
                self,
            ).range.first_line + old(self).range.num_lines && old(self).range.num_lines > 0
                && line_no < usize::MAX {
                &&& r
                &&& final(self).range == (LinesSlice {
                    first_line: (old(self).range.first_line + 1) as usize,
                    num_lines: old(self).range.num_lines,
                })
                &&& final(self).lines@ == old(self).lines@.drop_first().push(Some(line))
            } else {
                &&& !r
                &&& *final(self) == *old(self)
            },
    {
        let first = self.range.first_line;
        let num = self.range.num_lines;
        if line_no < first || line_no - first >= num {
            if tailing && line_no >= first && line_no - first == num && num > 0 && line_no < usize::MAX {
                self.add_tail(line);
                return true;
            }
            return false;
        }
        self.lines.set(line_no - first, Some(line));
        true
    }

    fn add_tail(&mut self, line: L)
        requires
            old(self).wf(),
            old(self).range.num_lines > 0,
            old(self).range.first_line + old(self).range.num_lines < usize::MAX,
        ensures
            final(self).wf(),
            final(self).range == (LinesSlice {
                first_line: (old(self).range.first_line + 1) as usize,
                num_lines: old(self).range.num_lines,
            }),
            final(self).lines@ == old(self).lines@.drop_first().push(Some(line)),
    {
        self.lines.remove(0);
        self.range.first_line = self.range.first_line + 1;
        self.lines.push(Some(line));
        assert(self.lines@ =~= old(self).lines@.drop_first().push(Some(line)));
    }

    /// The cached content of a line, if it lies in the window and has
    /// arrived.
    pub fn get_line(&self, line_no: usize) -> (r: Option<L>)
        requires
            self.wf(),
        ensures
            !in_window(self.range, line_no as int) ==> r is None,
            in_window(self.range, line_no as int) ==> match self.lines@[line_no - self.range.first_line] {
                Some(l) => r matches Some(c) && cloned(l, c),
                None => r is None,
            },
    {
        if line_no < self.range.first_line || line_no - self.range.first_line >= self.range.num_lines {
            return None;
        }
        self.lines[line_no - self.range.first_line].clone()
    }
}

/// `n` empty slots.
fn empty_slots<L>(n: usize) -> (r: Vec<Option<L>>)
    ensures
        r@ == Seq::new(n as nat, |j: int| None::<L>),
{
    let mut r: Vec<Option<L>> = Vec::new();
    let mut i: usize = 0;
    while i < n
        invariant
            i <= n,
            r@ =~= Seq::new(i as nat, |j: int| None::<L>),
        decreases n - i,
    {
        r.push(None);
        i = i + 1;
        assert(r@ =~= Seq::new(i as nat, |j: int| None::<L>));
    }
    r
}

/// The longest content among the filled slots.
pub open spec fn longest_in<L: LineContent>(slots: Seq<Option<L>>) -> nat
    decreases slots.len(),
{
    if slots.len() == 0 {
        0
    } else {
        let prev = longest_in(slots.drop_last());
        match slots.last() {
            Some(l) => if l.spec_len() > prev {
                l.spec_len()
            } else {
                prev
            },
            None => prev,
        }
    }
}

proof fn lemma_longest_in_bounds<L: LineContent>(slots: Seq<Option<L>>)
    ensures
        forall|j: int|
            0 <= j < slots.len() && (#[trigger] slots[j]) is Some ==> slots[j].unwrap().spec_len()
                <= longest_in(slots),
    decreases slots.len(),
{
    if slots.len() > 0 {
        lemma_longest_in_bounds(slots.drop_last());
        assert forall|j: int|
            0 <= j < slots.len() && (#[trigger] slots[j]) is Some implies slots[j].unwrap().spec_len()
                <= longest_in(slots) by {
            if j < slots.len() - 1 {
                assert(slots.drop_last()[j] == slots[j]);
            }
        }
    }
}

/// `GetLine` from the view `id` for each line of `missing`, in order.
pub open spec fn get_requests(id: String, missing: Seq<usize>) -> Seq<FileReq> {
    Seq::new(missing.len(), |i: int| FileReq::GetLine { id, line_no: missing[i] })
}

/// Moves `first` back so that a window of `height` lines from it fits in
/// `usize`.
pub open spec fn fit_first(first: int, height: int) -> int {
    if first + height > usize::MAX {
        usize::MAX - height
    } else {
        first
    }
}

/// The window after the cursor moves to `line_no`: unchanged while the line
/// is visible, else the smallest move that shows it.
pub open spec fn window_for_current(w: LinesSlice, line_no: usize) -> LinesSlice {
    if in_window(w, line_no as int) {
        w
    } else if line_no < w.first_line {
        LinesSlice { first_line: line_no, num_lines: w.num_lines }
    } else if line_no < w.num_lines {
        LinesSlice { first_line: 0, num_lines: w.num_lines }
    } else {
        LinesSlice { first_line: (line_no - w.num_lines + 1) as usize, num_lines: w.num_lines }
    }
}

/// The window of `height` lines that puts `current` about halfway down.
pub open spec fn centered_window(current: usize, height: usize) -> LinesSlice {
    LinesSlice {
        first_line: fit_first(spec_clamped_sub(current as int, (height / 2) as int), height as int) as usize,
        num_lines: height,
    }
}

/// The window after a change of height: the first line stays while the
/// cursor remains visible, else the cursor becomes the last visible line.
pub open spec fn resized_window(w: LinesSlice, current: usize, height: usize) -> LinesSlice {
    if w.first_line <= current < w.first_line + height {
        LinesSlice { first_line: fit_first(w.first_line as int, height as int) as usize, num_lines: height }
    } else {
        LinesSlice { first_line: spec_clamped_sub(current + 1, height as int) as usize, num_lines: height }
    }
}

/// The model of a view.
pub struct ViewModel<L> {
    pub id: String,
    pub current: usize,
    pub start_point: usize,
    pub longest_line_length: usize,
    pub stats: Stats,
    pub range: LinesSlice,
    pub slots: Seq<Option<L>>,
    pub tailing: bool,
}

impl<L: LineContent> ViewModel<L> {
    /// The cursor is visible whenever the window has a line.
    pub open spec fn wf(self) -> bool {
        &&& self.frame_wf()
        &&& self.range.num_lines > 0 ==> in_window(self.range, self.current as int)
    }

    /// One slot per line of a window that fits in `usize`, a cursor below
    /// `usize::MAX`, and no cached line longer than the recorded longest.
    pub open spec fn frame_wf(self) -> bool {
        &&& self.slots.len() == self.range.num_lines
        &&& self.range.first_line + self.range.num_lines <= usize::MAX
        &&& self.current < usize::MAX
        &&& self.slots_within_longest()
    }

    /// No cached line is longer than `longest_line_length`.
    pub open spec fn slots_within_longest(self) -> bool {
        forall|j: int|
            0 <= j < self.slots.len() && (#[trigger] self.slots[j]) is Some ==> self.slots[j].unwrap().spec_len()
                <= self.longest_line_length
    }

    /// The view after moving its window to `w` (nothing happens if it is the
    /// current one).
    pub open spec fn after_viewport(self, w: LinesSlice) -> ViewModel<L> {
        if w == self.range {
            self
        } else {
            let slots = moved_slots(self.range, self.slots, w);
            ViewModel { range: w, slots, longest_line_length: longest_in(slots) as usize, ..self }
        }
    }

    /// The lines that moving the window to `w` asks for.
    pub open spec fn viewport_requests(self, w: LinesSlice) -> Seq<FileReq> {
        if w == self.range {
            Seq::empty()
        } else {
            get_requests(self.id, missing_in(w.first_line as int, moved_slots(self.range, self.slots, w)))
        }
    }

    /// The view after the cursor moves to `line_no`.
    pub open spec fn after_current(self, line_no: usize) -> ViewModel<L> {
        ViewModel { current: line_no, ..self }.after_viewport(window_for_current(self.range, line_no))
    }

    pub open spec fn current_requests(self, line_no: usize) -> Seq<FileReq> {
        self.viewport_requests(window_for_current(self.range, line_no))
    }

    /// The view after `line` arrives as line `line_no`.
    pub open spec fn after_line(self, line_no: usize, line: L) -> ViewModel<L> {
        let longest = if line.spec_len() > self.longest_line_length {
            line.spec_len() as usize
        } else {
            self.longest_line_length
        };
        if in_window(self.range, line_no as int) {
            ViewModel {
                slots: self.slots.update(line_no - self.range.first_line, Some(line)),
                longest_line_length: longest,
                ..self
            }
        } else if self.tailing && line_no == self.range.first_line + self.range.num_lines
            && self.range.num_lines > 0 && line_no < usize::MAX {
            ViewModel {
                range: LinesSlice {
                    first_line: (self.range.first_line + 1) as usize,
                    num_lines: self.range.num_lines,
                },
                slots: self.slots.drop_first().push(Some(line)),
                longest_line_length: longest,
                ..self
            }
        } else {
            self
        }
    }

    /// Length of the cached line under the cursor; zero if it is not cached.
    pub open spec fn current_len(self) -> nat {
        if in_window(self.range, self.current as int) {
            match self.slots[self.current - self.range.first_line] {
                Some(l) => l.spec_len(),
                None => 0,
            }
        } else {
            0
        }
    }

    /// The line that a tailing view keeps its cursor on.
    pub open spec fn last_line(self) -> usize {
        spec_clamped_sub(self.stats.file_lines as int, 1) as usize
    }
}

/// A pane's view of the indexed or filtered file: a window with its sparse
/// cache, a cursor, a horizontal offset and a tailing flag. Its operations
/// return the requests that the upstream actor must be sent, in order.
#[derive(Debug)]
pub struct View<L> {
    id: String,
    current: usize,
    start_point: usize,
    longest_line_length: usize,
    stats: Stats,
    line_cache: LineCache<L>,
    tailing: bool,
}

impl<L: Clone + LineContent> View<L> {
    pub closed spec fn view(&self) -> ViewModel<L> {
        ViewModel {
            id: self.id,
            current: self.current,
            start_point: self.start_point,
            longest_line_length: self.longest_line_length,
            stats: self.stats,
            range: self.line_cache.range,
            slots: self.line_cache.lines@,
            tailing: self.tailing,
        }
    }

    pub fn new(id: String) -> (r: View<L>)
        ensures
            r.view().wf(),
            r.view().id == id,
            r.view().current == 0,
            r.view().start_point == 0,
            r.view().longest_line_length == 0,
            r.view().stats == (Stats { file_lines: 0, file_bytes: 0, view_lines: 0 }),
            r.view().range == (LinesSlice { first_line: 0, num_lines: 0 }),
            !r.view().tailing,
    {
        View {
            id,
            current: 0,
            start_point: 0,
            longest_line_length: 0,
            stats: Stats { file_lines: 0, file_bytes: 0, view_lines: 0 },
            line_cache: LineCache { range: LinesSlice { first_line: 0, num_lines: 0 }, lines: Vec::new() },
            tailing: false,
        }
    }

    /// The request that registers this view with its upstream actor.
    pub fn init(&self) -> (r: FileReq)
        ensures
            r == (FileReq::RegisterClient { id: self.view().id }),
    {
        FileReq::RegisterClient { id: self.id.clone() }
    }

    pub fn id(&self) -> (r: &String)
        ensures
            *r == self.view().id,
    {
        &self.id
    }

    /// The cached content of a line, if it is in the window and has arrived.
    pub fn get_line(&self, line_no: usize) -> (r: Option<L>)
        requires
            self.view().wf(),
        ensures
            !in_window(self.view().range, line_no as int) ==> r is None,
            in_window(self.view().range, line_no as int) ==> match self.view().slots[line_no
                - self.view().range.first_line] {
                Some(l) => r matches Some(c) && cloned(l, c),
                None => r is None,
            },
    {
        self.line_cache.get_line(line_no)
    }

    pub fn get_stats(&self) -> (r: Stats)
        ensures
            r == self.view().stats,
    {
        self.stats
    }

    pub fn current(&self) -> (r: usize)
        ensures
            r == self.view().current,
    {
        self.current
    }

    pub fn is_tailing(&self) -> (r: bool)
        ensures
            r == self.view().tailing,
    {
        self.tailing
    }

    pub fn longest_line_length(&self) -> (r: usize)
        ensures
            r == self.view().longest_line_length,
    {
        self.longest_line_length
    }

    /// Length of the line under the cursor, or zero if it is not cached.
    pub fn current_line_length(&self) -> (r: usize)
        requires
            self.view().wf(),
        ensures
            r as nat == self.view().current_len(),
            r <= self.view().longest_line_length,
    {
        let first = self.line_cache.range.first_line;
        if self.current < first || self.current - first >= self.line_cache.range.num_lines {
            return 0;
        }
        match &self.line_cache.lines[self.current - first] {
            Some(l) => l.len(),
            None => 0,
        }
    }

    /// The window, as a half-open range of line numbers.
    pub fn range(&self) -> (r: Range<usize>)
        requires
            self.view().wf(),
        ensures
            r.start == self.view().range.first_line,
            r.end == self.view().range.first_line + self.view().range.num_lines,
    {
        self.line_cache.range.range()
    }

    pub fn viewport(&self) -> (r: LinesSlice)
        ensures
            r == self.view().range,
    {
        self.line_cache.range
    }

    pub fn get_viewport_height(&self) -> (r: usize)
        ensures
            r == self.view().range.num_lines,
    {
        self.line_cache.range.num_lines
    }

    pub fn get_start_point(&self) -> (r: usize)
        ensures
            r == self.view().start_point,
    {
        self.start_point
    }

    /// Moves the window to `viewport`, keeping the lines still in view, and
    /// asks for the ones missing. The longest length is taken anew from the
    /// lines kept.
    fn set_viewport(&mut self, viewport: LinesSlice) -> (r: Vec<FileReq>)
        requires
            old(self).view().frame_wf(),
            viewport.first_line + viewport.num_lines <= usize::MAX,
        ensures
            final(self).view() == (ViewModel { current: final(self).view().current, ..old(self).view() }).after_viewport(
                viewport,
            ),
            final(self).view().current == old(self).view().current,
            r@ == old(self).view().viewport_requests(viewport),
            final(self).view().frame_wf(),
    {
        if self.line_cache.range == viewport {
            return Vec::new();
        }
        let missing = self.line_cache.set_viewport(viewport);
        let mut longest: usize = 0;
        let mut i: usize = 0;
        while i < self.line_cache.lines.len()
            invariant
                i <= self.line_cache.lines@.len(),
                longest == longest_in(self.line_cache.lines@.take(i as int)),
            decreases self.line_cache.lines.len() - i,
        {
            assert(self.line_cache.lines@.take(i + 1).drop_last() =~= self.line_cache.lines@.take(i as int));
            if let Some(l) = &self.line_cache.lines[i] {
                let len = l.len();
                if len > longest {
                    longest = len;
                }
            }
            i = i + 1;
        }
        assert(self.line_cache.lines@.take(i as int) =~= self.line_cache.lines@);
        self.longest_line_length = longest;
        proof {
            lemma_longest_in_bounds(self.line_cache.lines@);
        }
        self.request_missing(missing)
    }

    /// `GetLine` for each line of `missing`.
    fn request_missing(&self, missing: Vec<usize>) -> (r: Vec<FileReq>)
        ensures
            r@ == get_requests(self.view().id, missing@),
    {
        let mut r: Vec<FileReq> = Vec::new();
        let mut i: usize = 0;
        while i < missing.len()
            invariant
                i <= missing@.len(),
                r@ =~= get_requests(self.id, missing@.take(i as int)),
            decreases missing.len() - i,
        {
            r.push(FileReq::GetLine { id: self.id.clone(), line_no: missing[i] });
            i = i + 1;
            assert(r@ =~= get_requests(self.id, missing@.take(i as int)));
        }
        assert(missing@.take(i as int) =~= missing@);
        r
    }

    /// Back to the top: cursor, offset and counters to zero, every slot of a
    /// window at line zero emptied and asked for again.
    pub fn reset(&mut self) -> (r: Vec<FileReq>)
        requires
            old(self).view().wf(),
        ensures
            final(self).view().wf(),
            final(self).view() == (ViewModel {
                current: 0,
                start_point: 0,
                longest_line_length: 0,
                stats: Stats { file_lines: 0, file_bytes: 0, view_lines: 0 },
                range: LinesSlice { first_line: 0, num_lines: old(self).view().range.num_lines },
                slots: Seq::new(old(self).view().range.num_lines as nat, |j: int| None::<L>),
                ..old(self).view()
            }),
            r@ == get_requests(
                old(self).view().id,
                missing_in(0, Seq::new(old(self).view().range.num_lines as nat, |j: int| None::<L>)),
            ),
    {
        let height = self.line_cache.range.num_lines;
        self.current = 0;
        self.start_point = 0;
        self.longest_line_length = 0;
        self.stats = Stats { file_lines: 0, file_bytes: 0, view_lines: 0 };
        self.line_cache.set_viewport(LinesSlice { first_line: 0, num_lines: height });
        let missing = self.line_cache.reset();
        self.request_missing(missing)
    }

    /// Scrolls horizontally by `delta`, keeping the offset within
    /// `[0, max(0, longest - width)]`.
    pub fn pan(&mut self, delta: isize, width: usize)
        ensures
            final(self).view() == (ViewModel {
                start_point: spec_clamped_add(
                    old(self).view().start_point as int,
                    delta as int,
                    0,
                    spec_clamped_sub(old(self).view().longest_line_length as int, width as int),
                ) as usize,
                ..old(self).view()
            }),
            final(self).view().start_point <= spec_clamped_sub(
                final(self).view().longest_line_length as int,
                width as int,
            ),
    {
        let max = clamped_sub(self.longest_line_length, width);
        self.start_point = clamped_add(self.start_point, delta, 0, max);
    }

    pub fn pan_start(&mut self)
        ensures
            final(self).view() == (ViewModel { start_point: 0, ..old(self).view() }),
    {
        self.start_point = 0;
    }

    /// Scrolls so that the end of the line under the cursor is at the right
    /// edge.
    pub fn pan_end(&mut self, width: usize)
        requires
            old(self).view().wf(),
        ensures
            final(self).view() == (ViewModel {
                start_point: spec_clamped_sub(old(self).view().current_len() as int, width as int) as usize,
                ..old(self).view()
            }),
            final(self).view().start_point <= spec_clamped_sub(
                final(self).view().longest_line_length as int,
                width as int,
            ),
    {
        let len = self.current_line_length();
        self.start_point = clamped_sub(len, width);
    }

    /// Puts the cursor on `line_no`, moving the window only as far as needed
    /// to show it.
    pub fn set_current(&mut self, line_no: usize) -> (r: Vec<FileReq>)
        requires
            old(self).view().frame_wf(),
            line_no < usize::MAX,
        ensures
            final(self).view().wf(),
            final(self).view() == old(self).view().after_current(line_no),
            r@ == old(self).view().current_requests(line_no),
            final(self).view().range.num_lines > 0 ==> in_window(final(self).view().range, line_no as int),
    {
        let w = self.line_cache.range;
        self.current = line_no;
        let target = if line_no >= w.first_line && line_no - w.first_line < w.num_lines {
            w
        } else if line_no < w.first_line {
            LinesSlice { first_line: line_no, num_lines: w.num_lines }
        } else if line_no < w.num_lines {
            LinesSlice { first_line: 0, num_lines: w.num_lines }
        } else {
            LinesSlice { first_line: line_no - w.num_lines + 1, num_lines: w.num_lines }
        };
        self.set_viewport(target)
    }

    /// Moves the window so that the cursor is about halfway down.
    pub fn center_current_line(&mut self) -> (r: Vec<FileReq>)
        requires
            old(self).view().wf(),
        ensures
            final(self).view().wf(),
            final(self).view() == old(self).view().after_viewport(
                centered_window(old(self).view().current, old(self).view().range.num_lines),
            ),
            r@ == old(self).view().viewport_requests(
                centered_window(old(self).view().current, old(self).view().range.num_lines),
            ),
    {
        let height = self.line_cache.range.num_lines;
        let first = fit_window(clamped_sub(self.current, height / 2), height);
        self.set_viewport(LinesSlice { first_line: first, num_lines: height })
    }

    /// Changes the height of the window, keeping the cursor visible.
    pub fn set_height(&mut self, height: usize) -> (r: Vec<FileReq>)
        requires
            old(self).view().wf(),
        ensures
            final(self).view().wf(),
            final(self).view() == old(self).view().after_viewport(
                resized_window(old(self).view().range, old(self).view().current, height),
            ),
            r@ == old(self).view().viewport_requests(
                resized_window(old(self).view().range, old(self).view().current, height),
            ),
    {
        let first = self.line_cache.range.first_line;
        let current = self.current;
        let target = if first <= current && current - first < height {
            LinesSlice { first_line: fit_window(first, height), num_lines: height }
        } else {
            LinesSlice { first_line: clamped_sub(current + 1, height), num_lines: height }
        };
        self.set_viewport(target)
    }

    /// Starts or stops tailing. Starting puts the cursor on the last line and
    /// asks upstream to replay from there.
    pub fn set_tail(&mut self, tail: bool) -> (r: Vec<FileReq>)
        requires
            old(self).view().wf(),
        ensures
            final(self).view().wf(),
            !tail ==> final(self).view() == (ViewModel { tailing: false, ..old(self).view() }) && r@
                == seq![FileReq::DisableTailing { id: old(self).view().id }],
            tail ==> final(self).view() == (ViewModel { tailing: true, ..old(self).view() }).after_current(
                old(self).view().last_line(),
            ) && r@ == old(self).view().current_requests(old(self).view().last_line()).push(
                FileReq::EnableTailing { id: old(self).view().id, last_seen_line: old(self).view().last_line() },
            ),
    {
        self.tailing = tail;
        if !tail {
            let mut r = Vec::new();
            r.push(FileReq::DisableTailing { id: self.id.clone() });
            return r;
        }
        let last_line = clamped_sub(self.stats.file_lines, 1);
        let mut r = self.set_current(last_line);
        r.push(FileReq::EnableTailing { id: self.id.clone(), last_seen_line: last_line });
        r
    }

    /// Takes an update from upstream: counters are recorded; a line is
    /// stored if it falls in the window (or, while tailing, just after it,
    /// which moves the window down one line), and a tailing view then moves
    /// its cursor to the last line.
    pub fn handle_update(&mut self, update: FileResp<L>) -> (r: Vec<FileReq>)
        requires
            old(self).view().wf(),
        ensures
            final(self).view().wf(),
            match update {
                FileResp::Stats { view_lines, file_lines, file_bytes } => {
                    &&& final(self).view() == (ViewModel {
                        stats: Stats { file_lines, file_bytes, view_lines },
                        ..old(self).view()
                    })
                    &&& r@ == Seq::<FileReq>::empty()
                },
                FileResp::Line { line_no, line_content, partial } => {
                    let stored = old(self).view().after_line(line_no, line_content);
                    if old(self).view().tailing {
                        &&& final(self).view() == stored.after_current(stored.last_line())
                        &&& r@ == stored.current_requests(stored.last_line())
                    } else {
                        &&& final(self).view() == stored
                        &&& r@ == Seq::<FileReq>::empty()
                    }
                },
            },
    {
        match update {
            FileResp::Stats { view_lines, file_lines, file_bytes } => {
                self.stats = Stats { file_lines, file_bytes, view_lines };
                Vec::new()
            },
            FileResp::Line { line_no, line_content, partial } => {
                let len = line_content.len();
                let stored = self.line_cache.set_line(line_no, line_content, self.tailing);
                if stored && len > self.longest_line_length {
                    self.longest_line_length = len;
                }
                if self.tailing {
                    let last = clamped_sub(self.stats.file_lines, 1);
                    self.set_current(last)
                } else {
                    Vec::new()
                }
            },
        }
    }
}

/// Moves `first` back so that `height` lines from it fit in `usize`.
fn fit_window(first: usize, height: usize) -> (r: usize)
    ensures
        r == fit_first(first as int, height as int),
{
    if first > usize::MAX - height {
        usize::MAX - height
    } else {
        first
    }
}

/// A line that arrives inside the window is what its slot holds afterwards,
/// and no other slot changes.
pub proof fn lemma_arrived_line_is_cached<L: LineContent>(v: ViewModel<L>, line_no: usize, line: L)
    requires
        v.wf(),
        in_window(v.range, line_no as int),
    ensures
        v.after_line(line_no, line).range == v.range,
        v.after_line(line_no, line).slots[line_no - v.range.first_line] == Some(line),
        forall|j: int|
            0 <= j < v.slots.len() && j != line_no - v.range.first_line ==> #[trigger] v.after_line(
                line_no,
                line,
            ).slots[j] == v.slots[j],
{
}

} // verus!
