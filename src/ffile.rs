//! The filtered file: the list of matches of the current filter over the
//! indexed file, served to its clients by match number.

use std::collections::{HashMap, HashSet};
use vstd::prelude::*;

use crate::common::{replace_for_view, LineContent, FILTER_SPOOLING_BATCH_SIZE};
use crate::filter_spec::{contains_seq, lower_of, regex_finds_in, FilterSpec, FilterType};
use crate::ifile::{
    client_pos, drop_interest, ids_unique, with_interest, with_tailing, ClientView, FileReq,
    FileResp, IFResp,
};

verus! {

broadcast use vstd::std_specs::hash::group_hash_axioms;

/// Highest line number that the filter accepts from the indexed file; its
/// counters run a batch ahead of the lines seen and must stay in `usize`.
pub const LINE_LIMIT: usize = usize::MAX - 16;

/// A line of the filtered view: its number in the file and its content.
#[derive(Debug, Clone)]
pub struct FilterLine {
    pub line_no: usize,
    pub line: String,
}

impl LineContent for FilterLine {
    open spec fn spec_len(&self) -> nat {
        self.line.spec_len()
    }

    fn len(&self) -> (r: usize) {
        LineContent::len(&self.line)
    }

    fn render(&self) -> String {
        replace_for_view(&self.line)
    }
}

/// What the filtered file sends to each of its clients.
#[derive(Debug)]
pub enum FFResp {
    ViewUpdate { update: FileResp<FilterLine> },
    Clear,
}

/// The answer to a filter command.
#[derive(Debug, Clone)]
pub enum FFReqResp {
    Accepted,
    Refused { message: String },
}

/// A command to the filtered file.
#[derive(Debug)]
pub enum FFReq {
    SetFilter { filter_spec: Option<FilterSpec> },
}

/// One message for the runtime to deliver.
#[derive(Debug)]
pub enum FFAction {
    /// Send `message` to the client at this position.
    Send { client: usize, message: FFResp },
    /// Send `request` to the indexed file.
    ToFile { request: FileReq },
}

struct Client {
    id: String,
    tailing: bool,
    interested: HashSet<usize>,
}

impl View for Client {
    type V = ClientView;

    closed spec fn view(&self) -> ClientView {
        ClientView { id: self.id@, tailing: self.tailing, interested: self.interested@ }
    }
}

struct FilterState {
    filter_spec: FilterSpec,
    matches: Vec<usize>,
    num_matches: usize,
    line_to_match: HashMap<usize, usize>,
    next_line_expected: usize,
    next_line_to_request: usize,
}

/// The model of an installed filter: the predicate, the line numbers that
/// matched so far, the pending lookups of matched lines, and the spooling
/// counters.
pub struct FilterModel {
    pub kind: FilterType,
    pub pattern: Seq<char>,
    pub matches: Seq<usize>,
    pub num_matches: usize,
    pub line_to_match: Map<usize, usize>,
    pub next_line_expected: usize,
    pub next_line_to_request: usize,
}

impl View for FilterState {
    type V = FilterModel;

    closed spec fn view(&self) -> FilterModel {
        FilterModel {
            kind: self.filter_spec.kind(),
            pattern: self.filter_spec.pattern(),
            matches: self.matches@,
            num_matches: self.num_matches,
            line_to_match: self.line_to_match@,
            next_line_expected: self.next_line_expected,
            next_line_to_request: self.next_line_to_request,
        }
    }
}

/// The model of the filtered file.
pub struct FilteredModel {
    pub id: String,
    pub clients: Seq<ClientView>,
    pub filter: Option<FilterModel>,
}

/// Strictly increasing.
pub open spec fn increasing(s: Seq<usize>) -> bool {
    forall|i: int, j: int| 0 <= i < j < s.len() ==> s[i] < s[j]
}

/// `Stats` for the filtered view: both counters are the number of matches.
pub open spec fn ff_stats(num_matches: usize) -> FFResp {
    FFResp::ViewUpdate {
        update: FileResp::Stats { view_lines: num_matches, file_lines: num_matches, file_bytes: 0 },
    }
}

/// `Line` for match `match_no`, which is line `line_no` of the file.
pub open spec fn ff_line(match_no: usize, line_no: usize, content: String, partial: bool) -> FFResp {
    FFResp::ViewUpdate {
        update: FileResp::Line {
            line_no: match_no,
            line_content: FilterLine { line_no, line: content },
            partial,
        },
    }
}

/// One message to every client, in registration order.
pub open spec fn ff_broadcast(n: int, message: FFResp) -> Seq<FFAction> {
    Seq::new(n as nat, |i: int| FFAction::Send { client: i as usize, message })
}

/// `GetLine` to the indexed file, under the filter's own id.
pub open spec fn line_request(id: String, line_no: usize) -> FFAction {
    FFAction::ToFile { request: FileReq::GetLine { id, line_no } }
}

/// Requests for the lines `[from, from + count)`.
pub open spec fn spool_requests(id: String, from: int, count: int) -> Seq<FFAction> {
    Seq::new(count as nat, |j: int| line_request(id, (from + j) as usize))
}

/// What one client receives on a new match: the new counters, then the
/// match itself if it waited for it or tails.
pub open spec fn match_update(
    c: ClientView,
    i: int,
    match_no: usize,
    line_no: usize,
    content: String,
    partial: bool,
) -> Seq<FFAction> {
    let stats = seq![FFAction::Send { client: i as usize, message: ff_stats((match_no + 1) as usize) }];
    if c.interested.contains(match_no) || c.tailing {
        stats.push(FFAction::Send { client: i as usize, message: ff_line(match_no, line_no, content, partial) })
    } else {
        stats
    }
}

pub open spec fn match_fanout(
    cs: Seq<ClientView>,
    n: int,
    match_no: usize,
    line_no: usize,
    content: String,
    partial: bool,
) -> Seq<FFAction>
    decreases n,
{
    if n <= 0 {
        Seq::empty()
    } else {
        match_fanout(cs, n - 1, match_no, line_no, content, partial) + match_update(
            cs[n - 1],
            n - 1,
            match_no,
            line_no,
            content,
            partial,
        )
    }
}

/// Records that the matches `[from, to)` were asked of the indexed file.
pub open spec fn await_range(m: Map<usize, usize>, matches: Seq<usize>, from: int, to: int) -> Map<usize, usize>
    decreases to - from,
{
    if to <= from {
        m
    } else {
        await_range(m, matches, from, to - 1).insert(matches[to - 1], (to - 1) as usize)
    }
}

/// `GetLine` for the lines of the matches `[from, to)`.
pub open spec fn match_requests(id: String, matches: Seq<usize>, from: int, to: int) -> Seq<FFAction> {
    if from < to {
        Seq::new((to - from) as nat, |j: int| line_request(id, matches[from + j]))
    } else {
        Seq::empty()
    }
}

impl FilterModel {
    /// The invariants of a filter: one count per match, matches strictly
    /// increasing and below the next line expected, the spool at most a
    /// batch ahead, and every pending lookup for a match already found.
    pub open spec fn wf(self) -> bool {
        &&& self.num_matches == self.matches.len()
        &&& increasing(self.matches)
        &&& forall|i: int| 0 <= i < self.matches.len() ==> #[trigger] self.matches[i] < self.next_line_expected
        &&& self.num_matches <= self.next_line_expected
        &&& self.next_line_expected <= LINE_LIMIT + 1
        &&& self.next_line_to_request <= self.next_line_expected + FILTER_SPOOLING_BATCH_SIZE
        &&& forall|l: usize| #[trigger] self.line_to_match.contains_key(l) ==> self.line_to_match[l] < self.num_matches
    }
}

/// A filter just installed: nothing seen, the first batch requested.
pub open spec fn fresh_filter(kind: FilterType, pattern: Seq<char>) -> FilterModel {
    FilterModel {
        kind,
        pattern,
        matches: Seq::empty(),
        num_matches: 0,
        line_to_match: Map::empty(),
        next_line_expected: 0,
        next_line_to_request: FILTER_SPOOLING_BATCH_SIZE,
    }
}

impl FilteredModel {
    /// Unique client ids, a well-formed filter, and clients waiting only for
    /// matches not found yet.
    pub open spec fn wf(self) -> bool {
        &&& ids_unique(self.clients)
        &&& self.clients.len() <= usize::MAX
        &&& self.filter matches Some(f) ==> f.wf()
        &&& self.interest_ahead()
    }

    /// A client only waits for matches that have not been found yet.
    pub open spec fn interest_ahead(self) -> bool {
        self.filter matches Some(f) ==> forall|i: int, m: usize|
            0 <= i < self.clients.len() && #[trigger] self.clients[i].interested.contains(m) ==> m
                >= f.num_matches
    }


    pub open spec fn with_client(self, k: int, c: ClientView) -> FilteredModel {
        FilteredModel { clients: self.clients.update(k, c), ..self }
    }

    pub open spec fn with_filter(self, f: FilterModel) -> FilteredModel {
        FilteredModel { filter: Some(f), ..self }
    }

    /// Where `RegisterClient { id }` puts the client.
    pub open spec fn register_pos(self, id: Seq<char>) -> int {
        match client_pos(self.clients, id) {
            Some(k) => k,
            None => self.clients.len() as int,
        }
    }

    pub open spec fn after_request(self, req: FileReq) -> FilteredModel {
        match req {
            FileReq::RegisterClient { id } => {
                let fresh = ClientView { id: id@, tailing: false, interested: Set::empty() };
                match client_pos(self.clients, id@) {
                    Some(k) => self.with_client(k, fresh),
                    None => FilteredModel { clients: self.clients.push(fresh), ..self },
                }
            },
            FileReq::GetLine { id, line_no } => match (client_pos(self.clients, id@), self.filter) {
                (Some(k), Some(f)) => if line_no < f.matches.len() {
                    self.with_filter(
                        FilterModel {
                            line_to_match: f.line_to_match.insert(f.matches[line_no as int], line_no),
                            ..f
                        },
                    )
                } else {
                    self.with_client(
                        k,
                        with_interest(self.clients[k], self.clients[k].interested.insert(line_no)),
                    )
                },
                _ => self,
            },
            FileReq::CancelLine { id, line_no } => match client_pos(self.clients, id@) {
                Some(k) => self.with_client(
                    k,
                    with_interest(self.clients[k], self.clients[k].interested.remove(line_no)),
                ),
                None => self,
            },
            FileReq::EnableTailing { id, last_seen_line } => match client_pos(self.clients, id@) {
                Some(k) => {
                    let t = self.with_client(k, with_tailing(self.clients[k], true));
                    match self.filter {
                        Some(f) => t.with_filter(
                            FilterModel {
                                line_to_match: await_range(
                                    f.line_to_match,
                                    f.matches,
                                    last_seen_line as int,
                                    f.num_matches as int,
                                ),
                                ..f
                            },
                        ),
                        None => t,
                    }
                },
                None => self,
            },
            FileReq::DisableTailing { id } => match client_pos(self.clients, id@) {
                Some(k) => self.with_client(k, with_tailing(self.clients[k], false)),
                None => self,
            },
        }
    }

    pub open spec fn request_actions(self, req: FileReq) -> Seq<FFAction> {
        match req {
            FileReq::RegisterClient { id } => seq![
                FFAction::Send { client: self.register_pos(id@) as usize, message: ff_stats(0) },
            ],
            FileReq::GetLine { id, line_no } => match (client_pos(self.clients, id@), self.filter) {
                (Some(k), Some(f)) => if line_no < f.matches.len() {
                    seq![line_request(self.id, f.matches[line_no as int])]
                } else {
                    Seq::empty()
                },
                _ => Seq::empty(),
            },
            FileReq::EnableTailing { id, last_seen_line } => match (
                client_pos(self.clients, id@),
                self.filter,
            ) {
                (Some(k), Some(f)) => match_requests(
                    self.id,
                    f.matches,
                    last_seen_line as int,
                    f.num_matches as int,
                ),
                _ => Seq::empty(),
            },
            _ => Seq::empty(),
        }
    }

    /// The state after the spooled line `line_no` was judged by the filter.
    pub open spec fn after_spooled(self, line_no: usize, verdict: bool) -> FilteredModel {
        let f = self.filter.unwrap();
        let m = f.num_matches;
        FilteredModel {
            clients: if verdict {
                drop_interest(self.clients, m)
            } else {
                self.clients
            },
            filter: Some(
                FilterModel {
                    matches: if verdict {
                        f.matches.push(line_no)
                    } else {
                        f.matches
                    },
                    num_matches: if verdict {
                        (m + 1) as usize
                    } else {
                        m
                    },
                    next_line_expected: (line_no + 1) as usize,
                    next_line_to_request: (f.next_line_to_request + 1) as usize,
                    ..f
                },
            ),
            ..self
        }
    }

    /// A match goes to every client (counters, and the line where awaited),
    /// then the next line is requested.
    pub open spec fn spooled_actions(self, line_no: usize, content: String, partial: bool, verdict: bool) -> Seq<FFAction> {
        let f = self.filter.unwrap();
        let fanout = if verdict {
            match_fanout(self.clients, self.clients.len() as int, f.num_matches, line_no, content, partial)
        } else {
            Seq::empty()
        };
        fanout.push(line_request(self.id, f.next_line_to_request))
    }

    pub open spec fn after_if_update(self, update: IFResp<String>, verdict: bool) -> FilteredModel {
        match update {
            IFResp::ViewUpdate { update: FileResp::Line { line_no, .. } } => match self.filter {
                Some(f) => if line_no < f.next_line_expected {
                    if f.line_to_match.contains_key(line_no) {
                        self.with_filter(FilterModel { line_to_match: f.line_to_match.remove(line_no), ..f })
                    } else {
                        self
                    }
                } else {
                    self.after_spooled(line_no, verdict)
                },
                None => self,
            },
            IFResp::Truncated => match self.filter {
                Some(f) => self.with_filter(fresh_filter(f.kind, f.pattern)),
                None => self,
            },
            _ => self,
        }
    }

    pub open spec fn if_update_actions(self, update: IFResp<String>, verdict: bool) -> Seq<FFAction> {
        match update {
            IFResp::ViewUpdate { update: FileResp::Line { line_no, line_content, partial } } => match self.filter {
                Some(f) => if line_no < f.next_line_expected {
                    if f.line_to_match.contains_key(line_no) {
                        ff_broadcast(
                            self.clients.len() as int,
                            ff_line(f.line_to_match[line_no], line_no, line_content, partial),
                        )
                    } else {
                        Seq::empty()
                    }
                } else {
                    self.spooled_actions(line_no, line_content, partial, verdict)
                },
                None => Seq::empty(),
            },
            IFResp::Truncated => match self.filter {
                Some(f) => self.install_actions(),
                None => Seq::empty(),
            },
            _ => Seq::empty(),
        }
    }

    /// Installing a filter: every client is told to clear, then spooling
    /// starts from line zero.
    pub open spec fn install_actions(self) -> Seq<FFAction> {
        ff_broadcast(self.clients.len() as int, FFResp::Clear) + spool_requests(
            self.id,
            0,
            FILTER_SPOOLING_BATCH_SIZE as int,
        )
    }

    /// The state after `SetFilter`.
    pub open spec fn after_set_filter(self, spec: Option<(FilterType, Seq<char>)>) -> FilteredModel {
        match spec {
            None => FilteredModel { filter: None, ..self },
            Some((kind, pattern)) => match self.filter {
                Some(f) => if f.kind == kind && f.pattern == pattern {
                    self
                } else {
                    FilteredModel { filter: Some(fresh_filter(kind, pattern)), ..self }
                },
                None => FilteredModel { filter: Some(fresh_filter(kind, pattern)), ..self },
            },
        }
    }

    /// What `SetFilter` sends: nothing when the filter stays as it is; a
    /// `Clear` to every client when one is removed; `Clear` and the first
    /// batch of requests when one is installed.
    pub open spec fn set_filter_actions(self, spec: Option<(FilterType, Seq<char>)>) -> Seq<FFAction> {
        match spec {
            None => if self.filter is Some {
                ff_broadcast(self.clients.len() as int, FFResp::Clear)
            } else {
                Seq::empty()
            },
            Some((kind, pattern)) => match self.filter {
                Some(f) => if f.kind == kind && f.pattern == pattern {
                    Seq::empty()
                } else {
                    self.install_actions()
                },
                None => self.install_actions(),
            },
        }
    }
}

/// What a filter of `kind` and `pattern` may say of `line`: the substring
/// kinds are decided; a regular expression reports only real matches.
pub open spec fn filter_verdict(kind: FilterType, pattern: Seq<char>, line: Seq<char>, verdict: bool) -> bool {
    match kind {
        FilterType::SimpleCaseSensitive => verdict == contains_seq(line, pattern),
        FilterType::SimpleCaseInsensitive => verdict == contains_seq(lower_of(line), lower_of(pattern)),
        FilterType::Regex => verdict ==> regex_finds_in(pattern, line),
    }
}

/// The verdict agrees with the installed filter on the line of `update`.
pub open spec fn verdict_fits(s: FilteredModel, update: IFResp<String>, verdict: bool) -> bool {
    match (update, s.filter) {
        (IFResp::ViewUpdate { update: FileResp::Line { line_content, .. } }, Some(f)) => filter_verdict(
            f.kind,
            f.pattern,
            line_content@,
            verdict,
        ),
        _ => true,
    }
}

/// Line numbers from the indexed file stay within `LINE_LIMIT`.
pub open spec fn within_limit(update: IFResp<String>) -> bool {
    match update {
        IFResp::ViewUpdate { update: FileResp::Line { line_no, .. } } => line_no <= LINE_LIMIT,
        _ => true,
    }
}

/// The kind and pattern of a requested filter.
pub open spec fn spec_of(f: Option<FilterSpec>) -> Option<(FilterType, Seq<char>)> {
    match f {
        Some(f) => Some((f.kind(), f.pattern())),
        None => None,
    }
}

/// The filtered file: keeps the line numbers of the file that pass the
/// current filter and serves them to its clients as a dense list of matches.
pub struct FFile {
    id: String,
    clients: Vec<Client>,
    filter_state: Option<FilterState>,
}

impl View for FFile {
    type V = FilteredModel;

    closed spec fn view(&self) -> FilteredModel {
        FilteredModel {
            id: self.id,
            clients: self.clients@.map_values(|c: Client| c@),
            filter: match self.filter_state {
                Some(fs) => Some(fs@),
                None => None,
            },
        }
    }
}

impl FFile {
    /// A filtered file with no filter and no clients; `id` is the name under
    /// which it registers with the indexed file.
    pub fn new(id: String) -> (r: FFile)
        ensures
            r@.wf(),
            r@.id == id,
            r@.clients == Seq::<ClientView>::empty(),
            r@.filter is None,
    {
        let r = FFile { id, clients: Vec::new(), filter_state: None };
        assert(r@.clients =~= Seq::<ClientView>::empty());
        r
    }

    /// The request that registers this filter with the indexed file.
    pub fn registration(&self) -> (r: FileReq)
        ensures
            r == (FileReq::RegisterClient { id: self@.id }),
    {
        FileReq::RegisterClient { id: self.id.clone() }
    }

    /// The next line the spool waits for, when a filter is installed.
    pub fn next_line_expected(&self) -> (r: Option<usize>)
        ensures
            r == match self@.filter {
                Some(f) => Some(f.next_line_expected),
                None => None::<usize>,
            },
    {
        match &self.filter_state {
            Some(fs) => Some(fs.next_line_expected),
            None => None,
        }
    }

    /// Installs, replaces or removes the filter.
    pub fn handle_ff_command(&mut self, cmd: FFReq) -> (r: Vec<FFAction>)
        requires
            old(self)@.wf(),
        ensures
            final(self)@.wf(),
            match cmd {
                FFReq::SetFilter { filter_spec } => {
                    &&& final(self)@ == old(self)@.after_set_filter(spec_of(filter_spec))
                    &&& r@ == old(self)@.set_filter_actions(spec_of(filter_spec))
                },
            },
    {
        let FFReq::SetFilter { filter_spec } = cmd;
        match filter_spec {
            None => {
                let had = self.filter_state.is_some();
                self.filter_state = None;
                if had {
                    self.broadcast_clear()
                } else {
                    Vec::new()
                }
            },
            Some(spec) => {
                let same = match &self.filter_state {
                    Some(fs) => fs.filter_spec == spec,
                    None => false,
                };
                if same {
                    Vec::new()
                } else {
                    self.install(spec)
                }
            },
        }
    }


    /// Handles a request of a client; `line_no` there is a match number.
    /// Requests that name an unknown client change nothing, and without a
    /// filter nothing can be fetched.
    pub fn handle_client_command(&mut self, cmd: FileReq) -> (r: Vec<FFAction>)
        requires
            old(self)@.wf(),
        ensures
            final(self)@.wf(),
            final(self)@ == old(self)@.after_request(cmd),
            r@ == old(self)@.request_actions(cmd),
    {
        match cmd {
            FileReq::RegisterClient { id } => self.register_client(id),
            FileReq::GetLine { id, line_no } => {
                let Some(k) = self.find_client(&id) else { return Vec::new() };
                let ghost before = self@;
                match &mut self.filter_state {
                    None => Vec::new(),
                    Some(fs) => {
                        if line_no < fs.matches.len() {
                            let l = fs.matches[line_no];
                            fs.line_to_match.insert(l, line_no);
                            let mut r = Vec::new();
                            r.push(FFAction::ToFile { request: FileReq::GetLine { id: self.id.clone(), line_no: l } });
                            assert(self@.clients =~= before.clients);
                            r
                        } else {
                            self.clients[k].interested.insert(line_no);
                            assert(self@.clients =~= before.after_request(FileReq::GetLine { id, line_no }).clients);
                            Vec::new()
                        }
                    },
                }
            },
            FileReq::CancelLine { id, line_no } => {
                let Some(k) = self.find_client(&id) else { return Vec::new() };
                self.clients[k].interested.remove(&line_no);
                assert(self@.clients =~= old(self)@.after_request(FileReq::CancelLine { id, line_no }).clients);
                Vec::new()
            },
            FileReq::EnableTailing { id, last_seen_line } => {
                let Some(k) = self.find_client(&id) else { return Vec::new() };
                self.clients[k].tailing = true;
                assert(self@.clients =~= old(self)@.after_request(
                    FileReq::EnableTailing { id, last_seen_line },
                ).clients);
                self.request_matches(last_seen_line)
            },
            FileReq::DisableTailing { id } => {
                let Some(k) = self.find_client(&id) else { return Vec::new() };
                self.clients[k].tailing = false;
                assert(self@.clients =~= old(self)@.after_request(FileReq::DisableTailing { id }).clients);
                Vec::new()
            },
        }
    }

    fn find_client(&self, id: &String) -> (r: Option<usize>)
        requires
            ids_unique(self@.clients),
        ensures
            match r {
                Some(k) => client_pos(self@.clients, id@) == Some(k as int) && k < self@.clients.len(),
                None => client_pos(self@.clients, id@) is None,
            },
    {
        let mut i: usize = 0;
        while i < self.clients.len()
            invariant
                ids_unique(self@.clients),
                forall|j: int| 0 <= j < i ==> (#[trigger] self@.clients[j]).id != id@,
            decreases self.clients.len() - i,
        {
            if self.clients[i].id == *id {
                assert(self@.clients[i as int].id == id@);
                return Some(i);
            }
            i = i + 1;
        }
        None
    }

    fn register_client(&mut self, id: String) -> (r: Vec<FFAction>)
        requires
            old(self)@.wf(),
        ensures
            final(self)@.wf(),
            final(self)@ == old(self)@.after_request(FileReq::RegisterClient { id }),
            r@ == old(self)@.request_actions(FileReq::RegisterClient { id }),
    {
        let ghost gid = id;
        let k: usize = match self.find_client(&id) {
            Some(k) => {
                self.clients.set(k, Client { id, tailing: false, interested: HashSet::new() });
                k
            },
            None => {
                let n = self.clients.len();
                self.clients.push(Client { id, tailing: false, interested: HashSet::new() });
                n
            },
        };
        assert(self@.clients =~= old(self)@.after_request(FileReq::RegisterClient { id: gid }).clients);
        assert(self.clients.len() == self.clients@.len());
        let mut r = Vec::new();
        r.push(
            FFAction::Send {
                client: k,
                message: FFResp::ViewUpdate {
                    update: FileResp::Stats { view_lines: 0, file_lines: 0, file_bytes: 0 },
                },
            },
        );
        r
    }

    /// Asks the indexed file again for the matches from `from` on, so that
    /// a client that starts tailing receives them.
    fn request_matches(&mut self, from: usize) -> (r: Vec<FFAction>)
        requires
            old(self)@.wf(),
        ensures
            final(self)@.wf(),
            final(self)@ == match old(self)@.filter {
                Some(f) => old(self)@.with_filter(
                    FilterModel {
                        line_to_match: await_range(f.line_to_match, f.matches, from as int, f.num_matches as int),
                        ..f
                    },
                ),
                None => old(self)@,
            },
            r@ == match old(self)@.filter {
                Some(f) => match_requests(old(self)@.id, f.matches, from as int, f.num_matches as int),
                None => Seq::empty(),
            },
    {
        let mut r: Vec<FFAction> = Vec::new();
        match &mut self.filter_state {
            None => r,
            Some(fs) => {
                let ghost f0 = fs@;
                let n = fs.num_matches;
                if from >= n {
                    return r;
                }
                let mut m: usize = from;
                while m < n
                    invariant
                        from <= m <= n,
                        n == f0.num_matches,
                        f0.wf(),
                        fs@ == (FilterModel {
                            line_to_match: await_range(f0.line_to_match, f0.matches, from as int, m as int),
                            ..f0
                        }),
                        r@ =~= match_requests(self.id, f0.matches, from as int, n as int).take(m - from),
                        forall|l: usize|
                            #[trigger] fs@.line_to_match.contains_key(l) ==> fs@.line_to_match[l] < n,
                    decreases n - m,
                {
                    let l = fs.matches[m];
                    r.push(FFAction::ToFile { request: FileReq::GetLine { id: self.id.clone(), line_no: l } });
                    let ghost prev = fs@.line_to_match;
                    fs.line_to_match.insert(l, m);
                    assert forall|k: usize| #[trigger] fs@.line_to_match.contains_key(k) implies fs@.line_to_match[k] < n by {
                        assert(fs.line_to_match@ == prev.insert(l, m));
                        if k != l {
                            assert(prev.contains_key(k));
                        }
                    }
                    m = m + 1;
                    assert(r@ =~= match_requests(self.id, f0.matches, from as int, n as int).take(m - from));
                }
                assert(r@ =~= match_requests(self.id, f0.matches, from as int, n as int));
                r
            },
        }
    }

    /// Handles what the indexed file sends: a line, either one that a client
    /// asked for by match number or the next one of the spool, or a
    /// truncation, which restarts the current filter from scratch.
    pub fn handle_ifile_update(&mut self, update: IFResp<String>) -> (r: Vec<FFAction>)
        requires
            old(self)@.wf(),
            within_limit(update),
        ensures
            final(self)@.wf(),
            exists|verdict: bool|
                verdict_fits(old(self)@, update, verdict) && final(self)@ == old(self)@.after_if_update(update, verdict)
                    && r@ == old(self)@.if_update_actions(update, verdict),
    {
        let ghost before = self@;
        let ghost gupdate = update;
        match update {
            IFResp::ViewUpdate { update: FileResp::Line { line_no, line_content, partial } } => {
                let (expected, verdict) = match &self.filter_state {
                    None => {
                        assert(verdict_fits(before, gupdate, false));
                        return Vec::new();
                    },
                    Some(fs) => (fs.next_line_expected, fs.filter_spec.matches(line_content.as_str())),
                };
                assert(verdict_fits(before, gupdate, verdict));
                if line_no < expected {
                    self.resolve_lookup(line_no, line_content, partial)
                } else {
                    self.spool_line(line_no, line_content, partial, verdict)
                }
            },
            IFResp::Truncated => {
                match self.filter_state.take() {
                    None => {
                        assert(verdict_fits(before, gupdate, false));
                        Vec::new()
                    },
                    Some(fs) => {
                        let r = self.install(fs.filter_spec);
                        assert(verdict_fits(before, gupdate, false));
                        assert(self@ == before.after_if_update(gupdate, false));
                        r
                    },
                }
            },
            _ => {
                assert(verdict_fits(before, gupdate, false));
                Vec::new()
            },
        }
    }

    /// A line that a client asked for by match number came back: it goes to
    /// every client under that match number.
    fn resolve_lookup(&mut self, line_no: usize, content: String, partial: bool) -> (r: Vec<FFAction>)
        requires
            old(self)@.wf(),
            old(self)@.filter matches Some(f) && line_no < f.next_line_expected,
        ensures
            final(self)@.wf(),
            ({
                let f = old(self)@.filter.unwrap();
                if f.line_to_match.contains_key(line_no) {
                    &&& final(self)@ == old(self)@.with_filter(
                        FilterModel { line_to_match: f.line_to_match.remove(line_no), ..f },
                    )
                    &&& r@ == ff_broadcast(
                        old(self)@.clients.len() as int,
                        ff_line(f.line_to_match[line_no], line_no, content, partial),
                    )
                } else {
                    &&& final(self)@ == old(self)@
                    &&& r@ == Seq::<FFAction>::empty()
                }
            }),
    {
        let ghost before = self@;
        let found = match &mut self.filter_state {
            Some(fs) => fs.line_to_match.remove(&line_no),
            None => None,
        };
        let mut r: Vec<FFAction> = Vec::new();
        let Some(match_no) = found else {
            proof {
                let f = before.filter.unwrap();
                assert(f.line_to_match.remove(line_no) =~= f.line_to_match);
                assert(self@.filter.unwrap().line_to_match =~= f.line_to_match);
                assert(self@.filter.unwrap() == f);
            }
            return r;
        };
        let n = self.clients.len();
        let mut i: usize = 0;
        while i < n
            invariant
                n == self.clients.len(),
                0 <= i <= n,
                r@ =~= ff_broadcast(i as int, ff_line(match_no, line_no, content, partial)),
            decreases n - i,
        {
            r.push(
                FFAction::Send {
                    client: i,
                    message: FFResp::ViewUpdate {
                        update: FileResp::Line {
                            line_no: match_no,
                            line_content: FilterLine { line_no, line: content.clone() },
                            partial,
                        },
                    },
                },
            );
            i = i + 1;
            assert(r@ =~= ff_broadcast(i as int, ff_line(match_no, line_no, content, partial)));
        }
        r
    }

    /// Takes the next line of the spool, as judged by the filter: a match is
    /// recorded and announced to every client, and the next line is
    /// requested so that a batch stays outstanding.
    pub fn spool_line(&mut self, line_no: usize, content: String, partial: bool, verdict: bool) -> (r: Vec<FFAction>)
        requires
            old(self)@.wf(),
            old(self)@.filter matches Some(f) && f.next_line_expected <= line_no,
            line_no <= LINE_LIMIT,
        ensures
            final(self)@.wf(),
            final(self)@ == old(self)@.after_spooled(line_no, verdict),
            r@ == old(self)@.spooled_actions(line_no, content, partial, verdict),
    {
        let ghost before = self@;
        let ghost target = before.after_spooled(line_no, verdict);
        let (m, to_request) = match &mut self.filter_state {
            Some(fs) => {
                fs.next_line_expected = line_no + 1;
                let m = fs.num_matches;
                if verdict {
                    fs.matches.push(line_no);
                    fs.num_matches = m + 1;
                }
                let t = fs.next_line_to_request;
                fs.next_line_to_request = t + 1;
                (m, t)
            },
            None => (0, 0),
        };
        assert(self@.filter == target.filter);
        let mut r: Vec<FFAction> = Vec::new();
        if verdict {
            let n = self.clients.len();
            let mut i: usize = 0;
            while i < n
                invariant
                    n == self.clients.len(),
                    n == before.clients.len(),
                    0 <= i <= n,
                    m == before.filter.unwrap().num_matches,
                    m < usize::MAX,
                    self@.filter == target.filter,
                    self.id == before.id,
                    target.clients == drop_interest(before.clients, m),
                    forall|j: int| 0 <= j < i ==> (#[trigger] self.clients@[j])@ == target.clients[j],
                    forall|j: int| i <= j < n ==> (#[trigger] self.clients@[j])@ == before.clients[j],
                    r@ == match_fanout(before.clients, i as int, m, line_no, content, partial),
                decreases n - i,
            {
                let was_interested = self.clients[i].interested.remove(&m);
                r.push(
                    FFAction::Send {
                        client: i,
                        message: FFResp::ViewUpdate {
                            update: FileResp::Stats { view_lines: m + 1, file_lines: m + 1, file_bytes: 0 },
                        },
                    },
                );
                if was_interested || self.clients[i].tailing {
                    r.push(
                        FFAction::Send {
                            client: i,
                            message: FFResp::ViewUpdate {
                                update: FileResp::Line {
                                    line_no: m,
                                    line_content: FilterLine { line_no, line: content.clone() },
                                    partial,
                                },
                            },
                        },
                    );
                }
                assert(self.clients@[i as int]@ == target.clients[i as int]);
                i = i + 1;
            }
        }
        assert(self@.clients =~= target.clients);
        r.push(FFAction::ToFile { request: FileReq::GetLine { id: self.id.clone(), line_no: to_request } });
        r
    }

    /// `Clear` to every client.
    fn broadcast_clear(&self) -> (r: Vec<FFAction>)
        ensures
            r@ == ff_broadcast(self@.clients.len() as int, FFResp::Clear),
    {
        let mut r: Vec<FFAction> = Vec::new();
        let n = self.clients.len();
        let mut i: usize = 0;
        while i < n
            invariant
                n == self.clients.len(),
                0 <= i <= n,
                r@ =~= ff_broadcast(i as int, FFResp::Clear),
            decreases n - i,
        {
            r.push(FFAction::Send { client: i, message: FFResp::Clear });
            i = i + 1;
            assert(r@ =~= ff_broadcast(i as int, FFResp::Clear));
        }
        r
    }

    /// Installs `spec` afresh: clears every client and requests the first
    /// batch of lines.
    fn install(&mut self, spec: FilterSpec) -> (r: Vec<FFAction>)
        requires
            old(self)@.wf(),
        ensures
            final(self)@.wf(),
            final(self)@ == (FilteredModel {
                filter: Some(fresh_filter(spec.kind(), spec.pattern())),
                ..old(self)@
            }),
            r@ == old(self)@.install_actions(),
    {
        self.filter_state = Some(
            FilterState {
                filter_spec: spec,
                matches: Vec::new(),
                num_matches: 0,
                line_to_match: HashMap::new(),
                next_line_expected: 0,
                next_line_to_request: FILTER_SPOOLING_BATCH_SIZE,
            },
        );
        assert(self@.filter == Some(fresh_filter(spec.kind(), spec.pattern())));
        let mut r = self.broadcast_clear();
        let ghost clears = r@;
        let mut k: usize = 0;
        while k < FILTER_SPOOLING_BATCH_SIZE
            invariant
                0 <= k <= FILTER_SPOOLING_BATCH_SIZE,
                r@ =~= clears + spool_requests(self@.id, 0, k as int),
            decreases FILTER_SPOOLING_BATCH_SIZE - k,
        {
            r.push(FFAction::ToFile { request: FileReq::GetLine { id: self.id.clone(), line_no: k } });
            k = k + 1;
            assert(r@ =~= clears + spool_requests(self@.id, 0, k as int));
        }
        r
    }
}

/// Installing the same filter twice in a row: the second `SetFilter`
/// changes nothing and sends nothing, so no client is cleared twice and the
/// spool is not started again.
pub proof fn lemma_same_filter_twice(s: FilteredModel, kind: FilterType, pattern: Seq<char>)
    requires
        s.wf(),
    ensures
        s.after_set_filter(Some((kind, pattern))).after_set_filter(Some((kind, pattern)))
            == s.after_set_filter(Some((kind, pattern))),
        s.after_set_filter(Some((kind, pattern))).set_filter_actions(Some((kind, pattern)))
            == Seq::<FFAction>::empty(),
{
}

/// A match that the filtered file sends to a client is never one that the
/// client still waits for afterwards.
pub open spec fn no_awaited_match_sent(after: FilteredModel, actions: Seq<FFAction>) -> bool {
    forall|a: int|
        0 <= a < actions.len() ==> match #[trigger] actions[a] {
            FFAction::Send { client, message: FFResp::ViewUpdate { update: FileResp::Line { line_no, .. } } } =>
                client < after.clients.len() && !after.clients[client as int].interested.contains(line_no),
            _ => true,
        }
}

proof fn lemma_match_fanout_shape(
    cs: Seq<ClientView>,
    n: int,
    match_no: usize,
    line_no: usize,
    content: String,
    partial: bool,
)
    requires
        0 <= n <= cs.len(),
        cs.len() <= usize::MAX,
    ensures
        forall|a: int|
            0 <= a < match_fanout(cs, n, match_no, line_no, content, partial).len() ==> match #[trigger] match_fanout(
                cs,
                n,
                match_no,
                line_no,
                content,
                partial,
            )[a] {
                FFAction::Send { client, message: FFResp::ViewUpdate { update: FileResp::Line { line_no: m, .. } } } =>
                    client < n && m == match_no,
                FFAction::Send { client, .. } => client < n,
                FFAction::ToFile { .. } => false,
            },
    decreases n,
{
    if n > 0 {
        lemma_match_fanout_shape(cs, n - 1, match_no, line_no, content, partial);
        let prev = match_fanout(cs, n - 1, match_no, line_no, content, partial);
        let this = match_update(cs[n - 1], n - 1, match_no, line_no, content, partial);
        assert forall|a: int| 0 <= a < (prev + this).len() implies match #[trigger] (prev + this)[a] {
            FFAction::Send { client, message: FFResp::ViewUpdate { update: FileResp::Line { line_no: m, .. } } } =>
                client < n && m == match_no,
            FFAction::Send { client, .. } => client < n,
            FFAction::ToFile { .. } => false,
        } by {
            if a >= prev.len() {
                assert((prev + this)[a] == this[a - prev.len()]);
                if cs[n - 1].interested.contains(match_no) || cs[n - 1].tailing {
                    assert(this.len() == 2);
                } else {
                    assert(this.len() == 1);
                }
            } else {
                assert((prev + this)[a] == prev[a]);
            }
        }
    }
}

/// Interest accounting for the filtered file: whatever the indexed file
/// sends, and whatever the filter decides of a line, no client is sent a
/// match that it still waits for afterwards; and no client request makes
/// the filtered file send a match at all.
pub proof fn lemma_filter_interest_excludes_sent_matches(
    s: FilteredModel,
    update: IFResp<String>,
    verdict: bool,
    req: FileReq,
)
    requires
        s.wf(),
        within_limit(update),
    ensures
        no_awaited_match_sent(s.after_if_update(update, verdict), s.if_update_actions(update, verdict)),
        no_awaited_match_sent(s.after_request(req), s.request_actions(req)),
{
    if let IFResp::ViewUpdate { update: FileResp::Line { line_no, line_content, partial } } = update {
        if let Some(f) = s.filter {
            if line_no >= f.next_line_expected && verdict {
                lemma_match_fanout_shape(
                    s.clients,
                    s.clients.len() as int,
                    f.num_matches,
                    line_no,
                    line_content,
                    partial,
                );
                let fan = match_fanout(
                    s.clients,
                    s.clients.len() as int,
                    f.num_matches,
                    line_no,
                    line_content,
                    partial,
                );
                let acts = s.if_update_actions(update, verdict);
                assert forall|a: int| 0 <= a < acts.len() implies match #[trigger] acts[a] {
                    FFAction::Send { client, message: FFResp::ViewUpdate { update: FileResp::Line { line_no, .. } } } =>
                        client < s.after_if_update(update, verdict).clients.len()
                            && !s.after_if_update(update, verdict).clients[client as int].interested.contains(line_no),
                    _ => true,
                } by {
                    if a < fan.len() {
                        assert(acts[a] == fan[a]);
                    }
                }
            }
        }
    }
}

} // verus!
