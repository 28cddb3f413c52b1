//! The indexed file: the line index of the file on disk (line number to
//! offset) and the fan-out of its updates to the clients.

use std::collections::HashSet;
use vstd::prelude::*;

use crate::reader::ReaderUpdate;

verus! {

broadcast use vstd::std_specs::hash::group_hash_axioms;

/// What the index keeps of one line of the file: where it starts, its length
/// in bytes, and whether its newline has been seen yet.
#[derive(Clone, Copy, Debug, PartialEq, Eq)]
pub struct FileLine {
    pub offset: u64,
    pub line_no: usize,
    pub line_bytes: usize,
    pub partial: bool,
}

/// An update that a view consumes: fresh counters, or the content of a line.
#[derive(Debug)]
pub enum FileResp<L> {
    Stats { view_lines: usize, file_lines: usize, file_bytes: u64 },
    Line { line_no: usize, line_content: L, partial: bool },
}

/// What the indexed file sends to each of its clients.
#[derive(Debug)]
pub enum IFResp<L> {
    ViewUpdate { update: FileResp<L> },
    Truncated,
    FileError { reason: String },
}

/// A request from a client. The same protocol serves the indexed file, where
/// `line_no` is a line of the file, and the filtered file, where it is a match
/// number. The response channel of `RegisterClient` is kept by the runtime.
#[derive(Debug)]
pub enum FileReq {
    GetLine { id: String, line_no: usize },
    CancelLine { id: String, line_no: usize },
    RegisterClient { id: String },
    EnableTailing { id: String, last_seen_line: usize },
    DisableTailing { id: String },
}

/// One message for the runtime to deliver. Clients are named by their position
/// in registration order.
#[derive(Debug)]
pub enum IFAction {
    /// Send `message` to the client.
    Send { client: usize, message: IFResp<String> },
    /// Read the line that starts at `offset` in the backing file and send it
    /// to the client as `FileResp::Line { line_no, .., partial }`.
    ServeLine { client: usize, line_no: usize, offset: u64, partial: bool },
}

/// A registered client of the indexed file.
struct Client {
    id: String,
    tailing: bool,
    interested: HashSet<usize>,
}

/// The model of a client: its id, whether it tails, and the line numbers it
/// waits for.
pub struct ClientView {
    pub id: Seq<char>,
    pub tailing: bool,
    pub interested: Set<usize>,
}

impl View for Client {
    type V = ClientView;

    closed spec fn view(&self) -> ClientView {
        ClientView { id: self.id@, tailing: self.tailing, interested: self.interested@ }
    }
}

/// Position of the client registered under `id`, if any.
pub open spec fn client_pos(cs: Seq<ClientView>, id: Seq<char>) -> Option<int> {
    if exists|k: int| 0 <= k < cs.len() && (#[trigger] cs[k]).id == id {
        Some(choose|k: int| 0 <= k < cs.len() && (#[trigger] cs[k]).id == id)
    } else {
        None
    }
}

/// No two clients share an id.
pub open spec fn ids_unique(cs: Seq<ClientView>) -> bool {
    forall|i: int, j: int| 0 <= i < j < cs.len() ==> cs[i].id != cs[j].id
}

pub open spec fn with_tailing(c: ClientView, tailing: bool) -> ClientView {
    ClientView { tailing, ..c }
}

pub open spec fn with_interest(c: ClientView, interested: Set<usize>) -> ClientView {
    ClientView { interested, ..c }
}

/// Every client stops waiting for line `l`.
pub open spec fn drop_interest(cs: Seq<ClientView>, l: usize) -> Seq<ClientView> {
    Seq::new(cs.len(), |i: int| with_interest(cs[i], cs[i].interested.remove(l)))
}

/// The mathematical state of the indexed file.
pub struct IndexModel {
    pub lines: Seq<FileLine>,
    pub file_lines: usize,
    pub file_bytes: u64,
    pub previous_partial: bool,
    pub clients: Seq<ClientView>,
}

/// `Line` message for a client.
pub open spec fn line_msg(line_no: usize, content: String, partial: bool) -> IFResp<String> {
    IFResp::ViewUpdate { update: FileResp::Line { line_no, line_content: content, partial } }
}

/// `Stats` message for a client.
pub open spec fn stats_msg(file_lines: usize, file_bytes: u64) -> IFResp<String> {
    IFResp::ViewUpdate { update: FileResp::Stats { view_lines: file_lines, file_lines, file_bytes } }
}

/// What one client receives when line `line_no` is added or updated: the new
/// counters, then the line itself if it waited for it or tails.
pub open spec fn client_line_update(
    c: ClientView,
    i: int,
    line_no: usize,
    file_lines: usize,
    file_bytes: u64,
    content: String,
    partial: bool,
) -> Seq<IFAction> {
    let stats = seq![IFAction::Send { client: i as usize, message: stats_msg(file_lines, file_bytes) }];
    if c.interested.contains(line_no) || c.tailing {
        stats.push(IFAction::Send { client: i as usize, message: line_msg(line_no, content, partial) })
    } else {
        stats
    }
}

/// The updates of the first `n` clients, in registration order.
pub open spec fn line_fanout(
    cs: Seq<ClientView>,
    n: int,
    line_no: usize,
    file_lines: usize,
    file_bytes: u64,
    content: String,
    partial: bool,
) -> Seq<IFAction>
    decreases n,
{
    if n <= 0 {
        Seq::empty()
    } else {
        line_fanout(cs, n - 1, line_no, file_lines, file_bytes, content, partial) + client_line_update(
            cs[n - 1],
            n - 1,
            line_no,
            file_lines,
            file_bytes,
            content,
            partial,
        )
    }
}

/// `Truncated`, or `FileError` with the reason given.
pub open spec fn error_msg(reason: Option<String>) -> IFResp<String> {
    match reason {
        None => IFResp::Truncated,
        Some(reason) => IFResp::FileError { reason },
    }
}

/// One message to every client, in registration order.
pub open spec fn broadcast(n: int, message: IFResp<String>) -> Seq<IFAction> {
    Seq::new(n as nat, |i: int| IFAction::Send { client: i as usize, message })
}

/// `ServeLine` for the lines `[from, lines.len())`, in order.
pub open spec fn serve_range(lines: Seq<FileLine>, client: int, from: int) -> Seq<IFAction> {
    if from < lines.len() {
        Seq::new(
            (lines.len() - from) as nat,
            |j: int|
                IFAction::ServeLine {
                    client: client as usize,
                    line_no: (from + j) as usize,
                    offset: lines[from + j].offset,
                    partial: lines[from + j].partial,
                },
        )
    } else {
        Seq::empty()
    }
}

impl IndexModel {
    /// A partial line can only be the last one.
    pub open spec fn partial_only_last(self) -> bool {
        forall|i: int| 0 <= i < self.lines.len() - 1 ==> !(#[trigger] self.lines[i]).partial
    }

    /// Every line sits at its own number.
    pub open spec fn numbered_in_order(self) -> bool {
        forall|i: int| 0 <= i < self.lines.len() ==> (#[trigger] self.lines[i]).line_no == i
    }

    /// A client only waits for lines that do not exist yet.
    pub open spec fn interest_ahead(self) -> bool {
        forall|i: int, l: usize|
            0 <= i < self.clients.len() && #[trigger] self.clients[i].interested.contains(l)
                ==> l >= self.file_lines
    }

    /// The invariants of the index: the line count is the number of records,
    /// lines are numbered in order, only the last may be partial and the
    /// flag of the last event says whether it is, ids are unique, and
    /// clients only wait for lines still to come.
    pub open spec fn wf(self) -> bool {
        &&& self.file_lines == self.lines.len()
        &&& self.numbered_in_order()
        &&& self.partial_only_last()
        &&& self.previous_partial == (self.lines.len() > 0 && self.lines.last().partial)
        &&& ids_unique(self.clients)
        &&& self.clients.len() <= usize::MAX
        &&& self.interest_ahead()
    }

    /// Where `RegisterClient { id }` puts the client.
    pub open spec fn register_pos(self, id: Seq<char>) -> int {
        match client_pos(self.clients, id) {
            Some(k) => k,
            None => self.clients.len() as int,
        }
    }

    /// The line that a `Line` event from the reader writes: the last one
    /// again while it is partial, else a new one.
    pub open spec fn line_target(self) -> int {
        if self.previous_partial {
            self.lines.len() - 1
        } else {
            self.lines.len() as int
        }
    }

    pub open spec fn after_line(self, offset: u64, line_bytes: usize, partial: bool, file_bytes: u64) -> IndexModel {
        let k = self.line_target();
        let fl = FileLine { offset, line_no: k as usize, line_bytes, partial };
        IndexModel {
            lines: if self.previous_partial {
                self.lines.update(k, fl)
            } else {
                self.lines.push(fl)
            },
            file_lines: if self.previous_partial {
                self.file_lines
            } else {
                (self.file_lines + 1) as usize
            },
            file_bytes,
            previous_partial: partial,
            clients: drop_interest(self.clients, k as usize),
        }
    }

    pub open spec fn line_actions(self, content: String, partial: bool, file_bytes: u64) -> Seq<IFAction> {
        let file_lines = if self.previous_partial {
            self.file_lines
        } else {
            (self.file_lines + 1) as usize
        };
        line_fanout(
            self.clients,
            self.clients.len() as int,
            self.line_target() as usize,
            file_lines,
            file_bytes,
            content,
            partial,
        )
    }

    /// Every client stops waiting.
    pub open spec fn interest_cleared(self) -> Seq<ClientView> {
        Seq::new(self.clients.len(), |i: int| with_interest(self.clients[i], Set::empty()))
    }

    pub open spec fn after_truncate(self) -> IndexModel {
        IndexModel {
            lines: Seq::empty(),
            file_lines: 0,
            file_bytes: 0,
            previous_partial: false,
            clients: self.interest_cleared(),
        }
    }

    pub open spec fn after_error(self) -> IndexModel {
        IndexModel { clients: self.interest_cleared(), ..self }
    }

    pub open spec fn after_reader(self, update: ReaderUpdate) -> IndexModel {
        match update {
            ReaderUpdate::Line { offset, line_bytes, partial, file_bytes, .. } => self.after_line(
                offset,
                line_bytes,
                partial,
                file_bytes,
            ),
            ReaderUpdate::Truncated => self.after_truncate(),
            ReaderUpdate::FileError { .. } => self.after_error(),
        }
    }

    pub open spec fn reader_actions(self, update: ReaderUpdate) -> Seq<IFAction> {
        match update {
            ReaderUpdate::Line { line_content, partial, file_bytes, .. } => self.line_actions(
                line_content,
                partial,
                file_bytes,
            ),
            ReaderUpdate::Truncated => broadcast(self.clients.len() as int, error_msg(None)),
            ReaderUpdate::FileError { reason } => broadcast(
                self.clients.len() as int,
                error_msg(Some(reason)),
            ),
        }
    }

    /// The state with client `k` replaced by `c`.
    pub open spec fn with_client(self, k: int, c: ClientView) -> IndexModel {
        IndexModel { clients: self.clients.update(k, c), ..self }
    }

    pub open spec fn after_request(self, req: FileReq) -> IndexModel {
        match req {
            FileReq::RegisterClient { id } => self.after_register(id@),
            FileReq::GetLine { id, line_no } => match client_pos(self.clients, id@) {
                Some(k) => if line_no < self.lines.len() {
                    self
                } else {
                    self.with_client(
                        k,
                        with_interest(self.clients[k], self.clients[k].interested.insert(line_no)),
                    )
                },
                None => self,
            },
            FileReq::CancelLine { id, line_no } => match client_pos(self.clients, id@) {
                Some(k) => self.with_client(
                    k,
                    with_interest(self.clients[k], self.clients[k].interested.remove(line_no)),
                ),
                None => self,
            },
            FileReq::EnableTailing { id, .. } => match client_pos(self.clients, id@) {
                Some(k) => self.with_client(k, with_tailing(self.clients[k], true)),
                None => self,
            },
            FileReq::DisableTailing { id } => match client_pos(self.clients, id@) {
                Some(k) => self.with_client(k, with_tailing(self.clients[k], false)),
                None => self,
            },
        }
    }

    pub open spec fn request_actions(self, req: FileReq) -> Seq<IFAction> {
        match req {
            FileReq::RegisterClient { id } => seq![
                IFAction::Send {
                    client: self.register_pos(id@) as usize,
                    message: stats_msg(self.file_lines, self.file_bytes),
                },
            ],
            FileReq::GetLine { id, line_no } => match client_pos(self.clients, id@) {
                Some(k) => if line_no < self.lines.len() {
                    seq![
                        IFAction::ServeLine {
                            client: k as usize,
                            line_no,
                            offset: self.lines[line_no as int].offset,
                            partial: self.lines[line_no as int].partial,
                        },
                    ]
                } else {
                    Seq::empty()
                },
                None => Seq::empty(),
            },
            FileReq::EnableTailing { id, last_seen_line } => match client_pos(self.clients, id@) {
                Some(k) => serve_range(self.lines, k, last_seen_line as int),
                None => Seq::empty(),
            },
            _ => Seq::empty(),
        }
    }

    pub open spec fn after_register(self, id: Seq<char>) -> IndexModel {
        let fresh = ClientView { id, tailing: false, interested: Set::empty() };
        IndexModel {
            clients: match client_pos(self.clients, id) {
                Some(k) => self.clients.update(k, fresh),
                None => self.clients.push(fresh),
            },
            ..self
        }
    }
}

/// The indexed file: owns the line index of the file and fans reader events
/// and requested lines out to its clients.
pub struct IFile {
    lines: Vec<FileLine>,
    file_lines: usize,
    file_bytes: u64,
    previous_partial: bool,
    clients: Vec<Client>,
}

impl View for IFile {
    type V = IndexModel;

    closed spec fn view(&self) -> IndexModel {
        IndexModel {
            lines: self.lines@,
            file_lines: self.file_lines,
            file_bytes: self.file_bytes,
            previous_partial: self.previous_partial,
            clients: self.clients@.map_values(|c: Client| c@),
        }
    }
}

impl IFile {
    pub fn new() -> (r: IFile)
        ensures
            r@.wf(),
            r@.lines == Seq::<FileLine>::empty(),
            r@.file_bytes == 0,
            r@.clients == Seq::<ClientView>::empty(),
    {
        let r = IFile {
            lines: Vec::new(),
            file_lines: 0,
            file_bytes: 0,
            previous_partial: false,
            clients: Vec::new(),
        };
        assert(r@.clients =~= Seq::<ClientView>::empty());
        r
    }

    /// Handles one event of the reader and returns what the clients are sent,
    /// in order.
    pub fn handle_reader_update(&mut self, update: ReaderUpdate) -> (r: Vec<IFAction>)
        requires
            old(self)@.wf(),
            old(self)@.file_lines < usize::MAX,
        ensures
            final(self)@.wf(),
            final(self)@ == old(self)@.after_reader(update),
            r@ == old(self)@.reader_actions(update),
    {
        match update {
            ReaderUpdate::Line { line_content, offset, line_bytes, partial, file_bytes } => {
                self.line_update(line_content, offset, line_bytes, partial, file_bytes)
            },
            ReaderUpdate::Truncated => {
                self.lines = Vec::new();
                self.file_lines = 0;
                self.file_bytes = 0;
                self.previous_partial = false;
                self.clear_interest(None)
            },
            ReaderUpdate::FileError { reason } => { self.clear_interest(Some(reason)) },
        }
    }

    /// Number of lines in the index.
    pub fn file_lines(&self) -> (r: usize)
        ensures
            r == self@.file_lines,
    {
        self.file_lines
    }

    /// Size of the file as last reported by the reader.
    pub fn file_bytes(&self) -> (r: u64)
        ensures
            r == self@.file_bytes,
    {
        self.file_bytes
    }

    /// What the index holds of line `line_no`, if it exists.
    pub fn line(&self, line_no: usize) -> (r: Option<FileLine>)
        ensures
            r == if line_no < self@.lines.len() {
                Some(self@.lines[line_no as int])
            } else {
                None::<FileLine>
            },
    {
        if line_no < self.lines.len() {
            Some(self.lines[line_no])
        } else {
            None
        }
    }

    /// Number of registered clients.
    pub fn num_clients(&self) -> (r: usize)
        ensures
            r == self@.clients.len(),
    {
        self.clients.len()
    }

    /// Handles one request of a client and returns what is to be sent, in
    /// order. Requests that name an unknown client change nothing.
    pub fn handle_client_command(&mut self, cmd: FileReq) -> (r: Vec<IFAction>)
        requires
            old(self)@.wf(),
        ensures
            final(self)@.wf(),
            final(self)@ == old(self)@.after_request(cmd),
            r@ == old(self)@.request_actions(cmd),
    {
        match cmd {
            FileReq::RegisterClient { id } => self.register_client(id),
            FileReq::GetLine { id, line_no } => {
                let Some(k) = self.find_client(&id) else { return Vec::new() };
                if line_no < self.lines.len() {
                    let fl = self.lines[line_no];
                    let mut r = Vec::new();
                    r.push(
                        IFAction::ServeLine {
                            client: k,
                            line_no,
                            offset: fl.offset,
                            partial: fl.partial,
                        },
                    );
                    assert(r@ =~= old(self)@.request_actions(FileReq::GetLine { id, line_no }));
                    r
                } else {
                    self.clients[k].interested.insert(line_no);
                    assert(self@.clients =~= old(self)@.after_request(
                        FileReq::GetLine { id, line_no },
                    ).clients);
                    Vec::new()
                }
            },
            FileReq::CancelLine { id, line_no } => {
                let Some(k) = self.find_client(&id) else { return Vec::new() };
                self.clients[k].interested.remove(&line_no);
                assert(self@.clients =~= old(self)@.after_request(
                    FileReq::CancelLine { id, line_no },
                ).clients);
                Vec::new()
            },
            FileReq::EnableTailing { id, last_seen_line } => {
                let Some(k) = self.find_client(&id) else { return Vec::new() };
                self.clients[k].tailing = true;
                assert(self@.clients =~= old(self)@.after_request(
                    FileReq::EnableTailing { id, last_seen_line },
                ).clients);
                self.replay_lines(k, last_seen_line)
            },
            FileReq::DisableTailing { id } => {
                let Some(k) = self.find_client(&id) else { return Vec::new() };
                self.clients[k].tailing = false;
                assert(self@.clients =~= old(self)@.after_request(
                    FileReq::DisableTailing { id },
                ).clients);
                Vec::new()
            },
        }
    }

    /// Position of the client registered under `id`.
    fn find_client(&self, id: &String) -> (r: Option<usize>)
        requires
            ids_unique(self@.clients),
        ensures
            match r {
                Some(k) => client_pos(self@.clients, id@) == Some(k as int) && k < self@.clients.len(),
                None => client_pos(self@.clients, id@) is None,
            },
    {
        let mut i: usize = 0;
        while i < self.clients.len()
            invariant
                ids_unique(self@.clients),
                forall|j: int| 0 <= j < i ==> (#[trigger] self@.clients[j]).id != id@,
            decreases self.clients.len() - i,
        {
            if self.clients[i].id == *id {
                assert(self@.clients[i as int].id == id@);
                return Some(i);
            }
            i = i + 1;
        }
        None
    }

    fn register_client(&mut self, id: String) -> (r: Vec<IFAction>)
        requires
            old(self)@.wf(),
        ensures
            final(self)@.wf(),
            final(self)@ == old(self)@.after_register(id@),
            r@ == seq![
                IFAction::Send {
                    client: old(self)@.register_pos(id@) as usize,
                    message: stats_msg(old(self)@.file_lines, old(self)@.file_bytes),
                },
            ],
    {
        let pos = self.find_client(&id);
        let k: usize = match pos {
            Some(k) => {
                self.clients.set(k, Client { id, tailing: false, interested: HashSet::new() });
                k
            },
            None => {
                let n = self.clients.len();
                self.clients.push(Client { id, tailing: false, interested: HashSet::new() });
                n
            },
        };
        assert(self@.clients =~= old(self)@.after_register(id@).clients);
        assert(self.clients.len() == self.clients@.len());
        let mut r = Vec::new();
        r.push(
            IFAction::Send {
                client: k,
                message: IFResp::ViewUpdate {
                    update: FileResp::Stats {
                        view_lines: self.file_lines,
                        file_lines: self.file_lines,
                        file_bytes: self.file_bytes,
                    },
                },
            },
        );
        r
    }

    /// `ServeLine` to client `k` for every line from `from` on.
    fn replay_lines(&self, k: usize, from: usize) -> (r: Vec<IFAction>)
        requires
            self@.wf(),
        ensures
            r@ == serve_range(self@.lines, k as int, from as int),
    {
        let mut r: Vec<IFAction> = Vec::new();
        if from >= self.lines.len() {
            return r;
        }
        let ghost all = serve_range(self@.lines, k as int, from as int);
        let mut i: usize = from;
        while i < self.lines.len()
            invariant
                from <= i <= self.lines.len(),
                all == serve_range(self@.lines, k as int, from as int),
                all.len() == self.lines.len() - from,
                r@ =~= all.take(i - from),
            decreases self.lines.len() - i,
        {
            let fl = self.lines[i];
            r.push(IFAction::ServeLine { client: k, line_no: i, offset: fl.offset, partial: fl.partial });
            i = i + 1;
            assert(r@ =~= all.take(i - from));
        }
        assert(all.take(i - from) =~= all);
        r
    }

    fn line_update(
        &mut self,
        content: String,
        offset: u64,
        line_bytes: usize,
        partial: bool,
        file_bytes: u64,
    ) -> (r: Vec<IFAction>)
        requires
            old(self)@.wf(),
            old(self)@.file_lines < usize::MAX,
        ensures
            final(self)@.wf(),
            final(self)@ == old(self)@.after_line(offset, line_bytes, partial, file_bytes),
            r@ == old(self)@.line_actions(content, partial, file_bytes),
    {
        let ghost before = self@;
        let k: usize = if self.previous_partial {
            self.file_lines - 1
        } else {
            self.file_lines
        };
        let fl = FileLine { offset, line_no: k, line_bytes, partial };
        if self.previous_partial {
            self.lines.set(k, fl);
        } else {
            self.lines.push(fl);
            self.file_lines = self.file_lines + 1;
        }
        self.previous_partial = partial;
        self.file_bytes = file_bytes;
        let ghost target = before.after_line(offset, line_bytes, partial, file_bytes);
        let mut actions: Vec<IFAction> = Vec::new();
        let n = self.clients.len();
        let mut i: usize = 0;
        while i < n
            invariant
                n == self.clients.len(),
                n == before.clients.len(),
                target.clients == drop_interest(before.clients, k),
                0 <= i <= n,
                k == before.line_target(),
                self.lines@ == target.lines,
                self.file_lines == target.file_lines,
                self.file_bytes == target.file_bytes,
                self.previous_partial == target.previous_partial,
                forall|j: int| 0 <= j < i ==> (#[trigger] self.clients@[j])@ == target.clients[j],
                forall|j: int| i <= j < n ==> (#[trigger] self.clients@[j])@ == before.clients[j],
                actions@ == line_fanout(
                    before.clients,
                    i as int,
                    k,
                    target.file_lines,
                    file_bytes,
                    content,
                    partial,
                ),
            decreases n - i,
        {
            let was_interested = self.clients[i].interested.remove(&k);
            actions.push(
                IFAction::Send {
                    client: i,
                    message: IFResp::ViewUpdate {
                        update: FileResp::Stats {
                            view_lines: self.file_lines,
                            file_lines: self.file_lines,
                            file_bytes,
                        },
                    },
                },
            );
            if was_interested || self.clients[i].tailing {
                actions.push(
                    IFAction::Send {
                        client: i,
                        message: IFResp::ViewUpdate {
                            update: FileResp::Line {
                                line_no: k,
                                line_content: content.clone(),
                                partial,
                            },
                        },
                    },
                );
            }
            assert(self.clients@[i as int]@ == target.clients[i as int]);
            i = i + 1;
        }
        assert(self@.clients =~= target.clients);
        actions
    }

    /// Empties every interest set and tells every client that the file was
    /// truncated, or failed for `reason`.
    fn clear_interest(&mut self, reason: Option<String>) -> (r: Vec<IFAction>)
        ensures
            final(self)@ == (IndexModel { clients: old(self)@.interest_cleared(), ..old(self)@ }),
            r@ == broadcast(old(self)@.clients.len() as int, error_msg(reason)),
    {
        let ghost before = self@;
        let mut actions: Vec<IFAction> = Vec::new();
        let n = self.clients.len();
        let mut i: usize = 0;
        while i < n
            invariant
                n == self.clients.len(),
                n == before.clients.len(),
                0 <= i <= n,
                self.lines@ == before.lines,
                self.file_lines == before.file_lines,
                self.file_bytes == before.file_bytes,
                self.previous_partial == before.previous_partial,
                forall|j: int|
                    0 <= j < i ==> (#[trigger] self.clients@[j])@ == before.interest_cleared()[j],
                forall|j: int| i <= j < n ==> (#[trigger] self.clients@[j])@ == before.clients[j],
                actions@ == broadcast(i as int, error_msg(reason)),
            decreases n - i,
        {
            self.clients[i].interested = HashSet::new();
            let message = match &reason {
                None => IFResp::Truncated,
                Some(text) => IFResp::FileError { reason: text.clone() },
            };
            actions.push(IFAction::Send { client: i, message });
            i = i + 1;
            assert(actions@ =~= broadcast(i as int, error_msg(reason)));
        }
        assert(self@.clients =~= before.interest_cleared());
        actions
    }
}

/// A line that a handler sends to a client is never one that the client
/// still waits for afterwards.
pub open spec fn no_awaited_line_sent(after: IndexModel, actions: Seq<IFAction>) -> bool {
    forall|a: int|
        0 <= a < actions.len() ==> match #[trigger] actions[a] {
            IFAction::Send { client, message: IFResp::ViewUpdate { update: FileResp::Line { line_no, .. } } } =>
                client < after.clients.len() && !after.clients[client as int].interested.contains(line_no),
            IFAction::ServeLine { client, line_no, .. } =>
                client < after.clients.len() && !after.clients[client as int].interested.contains(line_no),
            _ => true,
        }
}

proof fn lemma_line_fanout_shape(
    cs: Seq<ClientView>,
    n: int,
    line_no: usize,
    file_lines: usize,
    file_bytes: u64,
    content: String,
    partial: bool,
)
    requires
        0 <= n <= cs.len(),
        cs.len() <= usize::MAX,
    ensures
        forall|a: int|
            0 <= a < line_fanout(cs, n, line_no, file_lines, file_bytes, content, partial).len()
                ==> match #[trigger] line_fanout(cs, n, line_no, file_lines, file_bytes, content, partial)[a] {
                IFAction::Send { client, message: IFResp::ViewUpdate { update: FileResp::Line { line_no: l, .. } } } =>
                    client < n && l == line_no && (cs[client as int].interested.contains(line_no)
                        || cs[client as int].tailing),
                IFAction::Send { client, .. } => client < n,
                IFAction::ServeLine { .. } => false,
            },
    decreases n,
{
    if n > 0 {
        lemma_line_fanout_shape(cs, n - 1, line_no, file_lines, file_bytes, content, partial);
        let prev = line_fanout(cs, n - 1, line_no, file_lines, file_bytes, content, partial);
        let this = client_line_update(cs[n - 1], n - 1, line_no, file_lines, file_bytes, content, partial);
        assert forall|a: int| 0 <= a < (prev + this).len() implies match #[trigger] (prev + this)[a] {
            IFAction::Send { client, message: IFResp::ViewUpdate { update: FileResp::Line { line_no: l, .. } } } =>
                client < n && l == line_no && (cs[client as int].interested.contains(line_no)
                    || cs[client as int].tailing),
            IFAction::Send { client, .. } => client < n,
            IFAction::ServeLine { .. } => false,
        } by {
            if a >= prev.len() {
                assert((prev + this)[a] == this[a - prev.len()]);
                if cs[n - 1].interested.contains(line_no) || cs[n - 1].tailing {
                    assert(this.len() == 2);
                } else {
                    assert(this.len() == 1);
                }
                assert(((n - 1) as usize) as int == n - 1);
            } else {
                assert((prev + this)[a] == prev[a]);
            }
        }
    }
}

/// Interest accounting: a client is never sent a line that it is still
/// registered as waiting for, whatever the reader reports or a client asks.
pub proof fn lemma_interest_excludes_sent_lines(s: IndexModel, update: ReaderUpdate, req: FileReq)
    requires
        s.wf(),
        s.file_lines < usize::MAX,
    ensures
        no_awaited_line_sent(s.after_reader(update), s.reader_actions(update)),
        no_awaited_line_sent(s.after_request(req), s.request_actions(req)),
{
    match update {
        ReaderUpdate::Line { line_content, offset, line_bytes, partial, file_bytes } => {
            let after = s.after_line(offset, line_bytes, partial, file_bytes);
            let fl = if s.previous_partial { s.file_lines } else { (s.file_lines + 1) as usize };
            lemma_line_fanout_shape(
                s.clients,
                s.clients.len() as int,
                s.line_target() as usize,
                fl,
                file_bytes,
                line_content,
                partial,
            );
        },
        _ => {},
    }
    match req {
        FileReq::EnableTailing { id, last_seen_line } => {
            let after = s.after_request(req);
            let acts = s.request_actions(req);
            assert forall|a: int| 0 <= a < acts.len() implies match #[trigger] acts[a] {
                IFAction::Send { client, message: IFResp::ViewUpdate { update: FileResp::Line { line_no, .. } } } =>
                    client < after.clients.len() && !after.clients[client as int].interested.contains(line_no),
                IFAction::ServeLine { client, line_no, .. } =>
                    client < after.clients.len() && !after.clients[client as int].interested.contains(line_no),
                _ => true,
            } by {
                let k = client_pos(s.clients, id@).unwrap();
                assert(s.clients[k].interested == after.clients[k].interested);
            }
        },
        FileReq::GetLine { id, line_no } => {
            if let Some(k) = client_pos(s.clients, id@) {
                if line_no < s.lines.len() {
                    assert(s.clients[k].interested == s.after_request(req).clients[k].interested);
                }
            }
        },
        _ => {},
    }
}

/// `a` sends a line to client `c`.
pub open spec fn is_line_to(a: IFAction, c: int) -> bool {
    match a {
        IFAction::Send { client, message: IFResp::ViewUpdate { update: FileResp::Line { .. } } } => client == c,
        IFAction::ServeLine { client, .. } => client == c,
        _ => false,
    }
}

/// Registering under `id` leaves exactly one client with that id, at
/// `register_pos(id)`, and keeps the state well formed.
pub proof fn lemma_register_wf(s: IndexModel, id: Seq<char>)
    requires
        s.wf(),
        s.clients.len() < usize::MAX,
    ensures
        s.after_register(id).wf(),
        client_pos(s.after_register(id).clients, id) == Some(s.register_pos(id)),
        s.after_register(id).clients[s.register_pos(id)] == (ClientView {
            id,
            tailing: false,
            interested: Set::empty(),
        }),
{
    let r = s.after_register(id);
    let k = s.register_pos(id);
    assert(r.clients[k].id == id);
    assert(ids_unique(r.clients));
    let c = choose|j: int| 0 <= j < r.clients.len() && (#[trigger] r.clients[j]).id == id;
    assert(c == k);
}

/// A client that neither tails nor waits for anything is sent no line when
/// the reader reports one: only the new counters, once.
pub proof fn lemma_idle_client_gets_no_line(s: IndexModel, update: ReaderUpdate, c: int)
    requires
        s.wf(),
        0 <= c < s.clients.len(),
        !s.clients[c].tailing,
        s.clients[c].interested == Set::<usize>::empty(),
    ensures
        forall|line_no: usize, file_lines: usize, file_bytes: u64, content: String, partial: bool|
            #[trigger] client_line_update(s.clients[c], c, line_no, file_lines, file_bytes, content, partial)
                == seq![IFAction::Send { client: c as usize, message: stats_msg(file_lines, file_bytes) }],
        forall|a: int|
            0 <= a < s.reader_actions(update).len() ==> !is_line_to(#[trigger] s.reader_actions(update)[a], c),
{
    if let ReaderUpdate::Line { line_content, offset, line_bytes, partial, file_bytes } = update {
        let fl = if s.previous_partial { s.file_lines } else { (s.file_lines + 1) as usize };
        lemma_line_fanout_shape(
            s.clients,
            s.clients.len() as int,
            s.line_target() as usize,
            fl,
            file_bytes,
            line_content,
            partial,
        );
    }
}

/// Replaying `RegisterClient; GetLine(0..N); EnableTailing(0); DisableTailing`
/// on a file of `N` complete lines: each `GetLine` serves exactly its own line
/// and changes nothing, `EnableTailing(0)` serves every line once and in
/// order, and after `DisableTailing` no line reaches the client on a later
/// reader event until it asks again.
pub proof fn lemma_register_read_tail_replay(s: IndexModel, id: String, later: ReaderUpdate)
    requires
        s.wf(),
        s.clients.len() < usize::MAX,
        !s.previous_partial,
    ensures
        ({
            let r = s.after_register(id@);
            let k = s.register_pos(id@);
            let t = r.after_request(FileReq::EnableTailing { id, last_seen_line: 0 }).after_request(
                FileReq::DisableTailing { id },
            );
            &&& forall|n: usize|
                n < s.file_lines ==> r.after_request(FileReq::GetLine { id, line_no: n }) == r
                    && #[trigger] r.request_actions(FileReq::GetLine { id, line_no: n }) == seq![
                    IFAction::ServeLine {
                        client: k as usize,
                        line_no: n,
                        offset: s.lines[n as int].offset,
                        partial: false,
                    },
                ]
            &&& r.request_actions(FileReq::EnableTailing { id, last_seen_line: 0 }).len() == s.file_lines
            &&& forall|j: int|
                0 <= j < s.file_lines ==> #[trigger] r.request_actions(
                    FileReq::EnableTailing { id, last_seen_line: 0 },
                )[j] == IFAction::ServeLine {
                    client: k as usize,
                    line_no: j as usize,
                    offset: s.lines[j].offset,
                    partial: false,
                }
            &&& t.wf()
            &&& forall|a: int|
                0 <= a < t.reader_actions(later).len() ==> !is_line_to(#[trigger] t.reader_actions(later)[a], k)
        }),
{
    lemma_register_wf(s, id@);
    let r = s.after_register(id@);
    let k = s.register_pos(id@);
    assert forall|n: usize| n < s.file_lines implies r.after_request(
        FileReq::GetLine { id, line_no: n },
    ) == r && #[trigger] r.request_actions(FileReq::GetLine { id, line_no: n }) == seq![
        IFAction::ServeLine {
            client: k as usize,
            line_no: n,
            offset: s.lines[n as int].offset,
            partial: false,
        },
    ] by {
        assert(!s.lines[n as int].partial);
    }
    assert forall|j: int| 0 <= j < s.file_lines implies #[trigger] r.request_actions(
        FileReq::EnableTailing { id, last_seen_line: 0 },
    )[j] == IFAction::ServeLine {
        client: k as usize,
        line_no: j as usize,
        offset: s.lines[j].offset,
        partial: false,
    } by {
        assert(!s.lines[j].partial);
    }
    let e = r.after_request(FileReq::EnableTailing { id, last_seen_line: 0 });
    let t = e.after_request(FileReq::DisableTailing { id });
    assert(e.clients =~= r.clients.update(k, with_tailing(r.clients[k], true)));
    assert(ids_unique(e.clients));
    assert(e.clients[k].id == id@);
    assert(client_pos(e.clients, id@) == Some(k));
    assert(t.clients =~= r.clients);
    lemma_idle_client_gets_no_line(t, later, k);
}

/// An empty index over the given clients.
pub open spec fn fresh_index(clients: Seq<ClientView>) -> IndexModel {
    IndexModel { lines: Seq::empty(), file_lines: 0, file_bytes: 0, previous_partial: false, clients }
}

/// The messages that a sequence of reader events gives, one after another.
pub open spec fn replay(m: IndexModel, events: Seq<ReaderUpdate>) -> Seq<IFAction>
    decreases events.len(),
{
    if events.len() == 0 {
        Seq::empty()
    } else {
        m.reader_actions(events[0]) + replay(m.after_reader(events[0]), events.drop_first())
    }
}

/// Every `Stats` among `actions` carries `file_lines` in both counters.
pub open spec fn stats_carry(actions: Seq<IFAction>, file_lines: usize) -> bool {
    forall|a: int|
        0 <= a < actions.len() ==> match #[trigger] actions[a] {
            IFAction::Send { message: IFResp::ViewUpdate { update: FileResp::Stats { view_lines, file_lines: f, .. } }, .. } =>
                view_lines == file_lines && f == file_lines,
            _ => true,
        }
}

proof fn lemma_line_fanout_stats(
    cs: Seq<ClientView>,
    n: int,
    line_no: usize,
    file_lines: usize,
    file_bytes: u64,
    content: String,
    partial: bool,
)
    requires
        0 <= n <= cs.len(),
    ensures
        stats_carry(line_fanout(cs, n, line_no, file_lines, file_bytes, content, partial), file_lines),
    decreases n,
{
    if n > 0 {
        lemma_line_fanout_stats(cs, n - 1, line_no, file_lines, file_bytes, content, partial);
        let prev = line_fanout(cs, n - 1, line_no, file_lines, file_bytes, content, partial);
        let this = client_line_update(cs[n - 1], n - 1, line_no, file_lines, file_bytes, content, partial);
        assert forall|a: int| 0 <= a < (prev + this).len() implies match #[trigger] (prev + this)[a] {
            IFAction::Send { message: IFResp::ViewUpdate { update: FileResp::Stats { view_lines, file_lines: f, .. } }, .. } =>
                view_lines == file_lines && f == file_lines,
            _ => true,
        } by {
            if a >= prev.len() {
                assert((prev + this)[a] == this[a - prev.len()]);
            } else {
                assert((prev + this)[a] == prev[a]);
            }
        }
    }
}

/// What a reader event does to the index: a `Line` appends a record at the
/// next number, or, while the last line is partial, overwrites that record
/// and nothing else; only the last record may be partial and it carries the
/// event's flag; the count always equals the records, and every `Stats`
/// sent carries the new count.
pub proof fn lemma_reader_update_shape(s: IndexModel, update: ReaderUpdate)
    requires
        s.wf(),
        s.file_lines < usize::MAX,
    ensures
        s.after_reader(update).wf(),
        s.after_reader(update).file_lines == s.after_reader(update).lines.len(),
        stats_carry(s.reader_actions(update), s.after_reader(update).file_lines),
        match update {
            ReaderUpdate::Line { offset, line_bytes, partial, .. } => {
                let after = s.after_reader(update);
                let n = s.file_lines;
                &&& !s.previous_partial ==> after.lines == s.lines.push(
                    FileLine { offset, line_no: n, line_bytes, partial },
                ) && after.file_lines == n + 1
                &&& s.previous_partial ==> after.lines == s.lines.update(
                    n - 1,
                    FileLine { offset, line_no: (n - 1) as usize, line_bytes, partial },
                ) && after.file_lines == n
                &&& after.lines.last().partial == partial
                &&& after.previous_partial == partial
            },
            _ => s.after_reader(update).lines.len() == 0 || s.after_reader(update).lines == s.lines,
        },
{
    match update {
        ReaderUpdate::Line { line_content, offset, line_bytes, partial, file_bytes } => {
            let fl = if s.previous_partial { s.file_lines } else { (s.file_lines + 1) as usize };
            lemma_line_fanout_stats(
                s.clients,
                s.clients.len() as int,
                s.line_target() as usize,
                fl,
                file_bytes,
                line_content,
                partial,
            );
            let after = s.after_reader(update);
            assert(after.interest_ahead()) by {
                assert forall|i: int, l: usize|
                    0 <= i < after.clients.len() && #[trigger] after.clients[i].interested.contains(l) implies l
                    >= after.file_lines by {
                    assert(s.clients[i].interested.contains(l));
                }
            }
            assert(ids_unique(after.clients)) by {
                assert forall|i: int, j: int| 0 <= i < j < after.clients.len() implies after.clients[i].id
                    != after.clients[j].id by {
                    assert(after.clients[i].id == s.clients[i].id);
                    assert(after.clients[j].id == s.clients[j].id);
                }
            }
        },
        ReaderUpdate::Truncated => {
            let after = s.after_reader(update);
            assert(ids_unique(after.clients)) by {
                assert forall|i: int, j: int| 0 <= i < j < after.clients.len() implies after.clients[i].id
                    != after.clients[j].id by {
                    assert(after.clients[i].id == s.clients[i].id);
                    assert(after.clients[j].id == s.clients[j].id);
                }
            }
        },
        ReaderUpdate::FileError { .. } => {
            let after = s.after_reader(update);
            assert(ids_unique(after.clients)) by {
                assert forall|i: int, j: int| 0 <= i < j < after.clients.len() implies after.clients[i].id
                    != after.clients[j].id by {
                    assert(after.clients[i].id == s.clients[i].id);
                    assert(after.clients[j].id == s.clients[j].id);
                }
            }
        },
    }
}

/// Truncation: every client is told once, and the index becomes an empty
/// one over the same clients, none of them waiting. So the events of the
/// same bytes written again give the same messages as on a fresh index.
pub proof fn lemma_truncation_restarts_index(s: IndexModel, events: Seq<ReaderUpdate>)
    requires
        s.wf(),
    ensures
        s.reader_actions(ReaderUpdate::Truncated) == broadcast(s.clients.len() as int, IFResp::Truncated),
        s.after_reader(ReaderUpdate::Truncated) == fresh_index(s.interest_cleared()),
        replay(s.after_reader(ReaderUpdate::Truncated), events) == replay(
            fresh_index(s.interest_cleared()),
            events,
        ),
{
}

} // verus!
