use std::collections::VecDeque;

use otail::backing_file::trim_line_end;
use otail::ffile::{FFAction, FFReq, FFResp, FFile, FilterLine};
use otail::filter_spec::{FilterSpec, FilterType};
use otail::ifile::{FileReq, FileResp, IFAction, IFResp, IFile};
use otail::reader::{Reader, ReaderUpdate, TailAction, WatchEvent};
use otail::view::View;

enum Event {
    ToFile(FileReq),
    FromFile(IFAction),
    FromFilter(FFAction),
}

/// The indexed and filtered files wired together, with the file's lines and
/// what each client received.
struct Session {
    ifile: IFile,
    ffile: FFile,
    lines: Vec<String>,
    ff_client: Option<usize>,
    file_out: Vec<(usize, IFResp<String>)>,
    filter_out: Vec<(usize, FFResp)>,
    queue: VecDeque<Event>,
}

impl Session {
    fn new() -> Session {
        Session {
            ifile: IFile::new(),
            ffile: FFile::new("ff".to_string()),
            lines: Vec::new(),
            ff_client: None,
            file_out: Vec::new(),
            filter_out: Vec::new(),
            queue: VecDeque::new(),
        }
    }

    fn with_filter() -> Session {
        let mut s = Session::new();
        let reg = s.ffile.registration();
        let actions = s.ifile.handle_client_command(reg);
        if let Some(IFAction::Send { client, .. }) = actions.first() {
            s.ff_client = Some(*client);
        }
        s.run_file(actions);
        s
    }

    fn run_file(&mut self, actions: Vec<IFAction>) {
        for a in actions {
            self.queue.push_back(Event::FromFile(a));
        }
        self.drain();
    }

    fn run_filter(&mut self, actions: Vec<FFAction>) {
        for a in actions {
            self.queue.push_back(Event::FromFilter(a));
        }
        self.drain();
    }

    fn request(&mut self, req: FileReq) {
        self.queue.push_back(Event::ToFile(req));
        self.drain();
    }

    fn filter_request(&mut self, req: FileReq) {
        let actions = self.ffile.handle_client_command(req);
        self.run_filter(actions);
    }

    fn set_filter(&mut self, spec: Option<FilterSpec>) -> usize {
        let actions = self.ffile.handle_ff_command(FFReq::SetFilter { filter_spec: spec });
        let n = actions.len();
        self.run_filter(actions);
        n
    }

    fn reader(&mut self, update: ReaderUpdate) {
        let actions = self.ifile.handle_reader_update(update);
        self.run_file(actions);
    }

    fn deliver_from_file(&mut self, client: usize, message: IFResp<String>) {
        if Some(client) == self.ff_client {
            let actions = self.ffile.handle_ifile_update(message);
            for a in actions {
                self.queue.push_back(Event::FromFilter(a));
            }
        } else {
            self.file_out.push((client, message));
        }
    }

    fn drain(&mut self) {
        while let Some(ev) = self.queue.pop_front() {
            match ev {
                Event::ToFile(req) => {
                    for a in self.ifile.handle_client_command(req) {
                        self.queue.push_back(Event::FromFile(a));
                    }
                }
                Event::FromFile(IFAction::Send { client, message }) => self.deliver_from_file(client, message),
                Event::FromFile(IFAction::ServeLine { client, line_no, partial, .. }) => {
                    let line_content = self.lines[line_no].clone();
                    let message = IFResp::ViewUpdate { update: FileResp::Line { line_no, line_content, partial } };
                    self.deliver_from_file(client, message);
                }
                Event::FromFilter(FFAction::Send { client, message }) => self.filter_out.push((client, message)),
                Event::FromFilter(FFAction::ToFile { request }) => self.queue.push_back(Event::ToFile(request)),
            }
        }
    }
}

/// Appends whole lines to the session's file, as the reader reports them.
fn append_lines(s: &mut Session, texts: &[&str]) {
    for t in texts {
        let offset = s.ifile.file_bytes();
        let bytes = t.len() + 1;
        s.lines.push(t.to_string());
        let actions = s.ifile.handle_reader_update(ReaderUpdate::Line {
            line_content: t.to_string(),
            offset,
            line_bytes: bytes,
            partial: false,
            file_bytes: offset + bytes as u64,
        });
        s.run_file(actions);
    }
}

/// One read of `raw` through the reader, as the backing file would hand it.
fn read_chunk(reader: &mut Reader, buf: &mut String, raw: &str) -> Option<ReaderUpdate> {
    if reader.begin_line() {
        buf.clear();
    }
    buf.push_str(raw);
    let (text, partial) = trim_line_end(buf);
    *buf = text;
    reader.take_read(raw.len(), partial, buf)
}

fn stats_of(m: &IFResp<String>) -> Option<usize> {
    match m {
        IFResp::ViewUpdate { update: FileResp::Stats { file_lines, .. } } => Some(*file_lines),
        _ => None,
    }
}

fn line_of(m: &IFResp<String>) -> Option<(usize, String, bool)> {
    match m {
        IFResp::ViewUpdate { update: FileResp::Line { line_no, line_content, partial } } => {
            Some((*line_no, line_content.clone(), *partial))
        }
        _ => None,
    }
}

fn ff_line_of(m: &FFResp) -> Option<(usize, FilterLine)> {
    match m {
        FFResp::ViewUpdate { update: FileResp::Line { line_no, line_content, .. } } => {
            Some((*line_no, line_content.clone()))
        }
        _ => None,
    }
}

fn ff_stats_of(m: &FFResp) -> Option<usize> {
    match m {
        FFResp::ViewUpdate { update: FileResp::Stats { view_lines, .. } } => Some(*view_lines),
        _ => None,
    }
}

fn numbered(n: usize) -> Vec<String> {
    (0..n).map(|i| format!("line {}", i)).collect()
}

#[test]
fn test_ifile_single_line() {
    let mut s = Session::new();
    s.request(FileReq::RegisterClient { id: "test_client".to_string() });
    s.request(FileReq::EnableTailing { id: "test_client".to_string(), last_seen_line: 0 });
    append_lines(&mut s, &["FirstFullLine"]);
    assert_eq!(stats_of(&s.file_out[0].1), Some(0));
    assert_eq!(stats_of(&s.file_out[1].1), Some(1));
    assert_eq!(line_of(&s.file_out[2].1), Some((0, "FirstFullLine".to_string(), false)));
    s.request(FileReq::GetLine { id: "test_client".to_string(), line_no: 0 });
    assert_eq!(line_of(&s.file_out[3].1), Some((0, "FirstFullLine".to_string(), false)));
    assert_eq!(s.file_out.len(), 4);
}

#[test]
fn cold_open_random_read() {
    let mut s = Session::new();
    s.request(FileReq::RegisterClient { id: "view".to_string() });
    append_lines(&mut s, &["a", "bb", "ccc"]);
    s.request(FileReq::GetLine { id: "view".to_string(), line_no: 1 });
    let got: Vec<_> = s.file_out.iter().map(|(_, m)| (stats_of(m), line_of(m))).collect();
    assert_eq!(
        got,
        vec![
            (Some(0), None),
            (Some(1), None),
            (Some(2), None),
            (Some(3), None),
            (None, Some((1, "bb".to_string(), false))),
        ]
    );
}

#[test]
fn get_line_served_from_stored_offset() {
    let mut ifile = IFile::new();
    ifile.handle_client_command(FileReq::RegisterClient { id: "v".to_string() });
    let mut offset = 0u64;
    for t in ["a", "bb", "ccc"] {
        let bytes = t.len() + 1;
        ifile.handle_reader_update(ReaderUpdate::Line {
            line_content: t.to_string(),
            offset,
            line_bytes: bytes,
            partial: false,
            file_bytes: offset + bytes as u64,
        });
        offset += bytes as u64;
    }
    let actions = ifile.handle_client_command(FileReq::GetLine { id: "v".to_string(), line_no: 2 });
    assert_eq!(actions.len(), 1);
    match &actions[0] {
        IFAction::ServeLine { client, line_no, offset, partial } => {
            assert_eq!((*client, *line_no, *offset, *partial), (0, 2, 5, false));
        }
        other => panic!("unexpected {:?}", other),
    }
    assert_eq!(ifile.file_lines(), 3);
    assert_eq!(ifile.file_bytes(), 9);
}

#[test]
fn partial_line_completion() {
    let mut s = Session::new();
    s.request(FileReq::RegisterClient { id: "view".to_string() });
    s.request(FileReq::EnableTailing { id: "view".to_string(), last_seen_line: 0 });
    let mut reader = Reader::new();
    let mut buf = String::new();
    for raw in ["hello", " world\n", "\n", "extra\n"] {
        let update = read_chunk(&mut reader, &mut buf, raw).unwrap();
        let actions = s.ifile.handle_reader_update(update);
        s.run_file(actions);
    }
    let lines: Vec<_> = s.file_out.iter().filter_map(|(_, m)| line_of(m)).collect();
    assert_eq!(
        lines,
        vec![
            (0, "hello".to_string(), true),
            (0, "hello world".to_string(), false),
            (1, "".to_string(), false),
            (2, "extra".to_string(), false),
        ]
    );
    assert_eq!(s.ifile.file_lines(), 3);
    assert!(read_chunk(&mut reader, &mut buf, "").is_none());
}

#[test]
fn partial_line_keeps_its_offset() {
    let mut reader = Reader::new();
    let mut buf = String::new();
    let first = read_chunk(&mut reader, &mut buf, "ab\n").unwrap();
    let part = read_chunk(&mut reader, &mut buf, "cd").unwrap();
    let rest = read_chunk(&mut reader, &mut buf, "ef\r\n").unwrap();
    match (first, part, rest) {
        (
            ReaderUpdate::Line { offset: o1, line_bytes: b1, partial: p1, .. },
            ReaderUpdate::Line { offset: o2, line_bytes: b2, partial: p2, line_content: c2, .. },
            ReaderUpdate::Line { offset: o3, line_bytes: b3, partial: p3, line_content: c3, file_bytes, .. },
        ) => {
            assert_eq!((o1, b1, p1), (0, 3, false));
            assert_eq!((o2, b2, p2, c2.as_str()), (3, 2, true, "cd"));
            assert_eq!((o3, b3, p3, c3.as_str(), file_bytes), (3, 6, false, "cdef", 9));
        }
        _ => panic!("expected three lines"),
    }
    assert_eq!(reader.position(), 9);
}

#[test]
fn replay_register_read_tail() {
    let mut s = Session::new();
    append_lines(&mut s, &["one", "two", "three"]);
    s.request(FileReq::RegisterClient { id: "v".to_string() });
    for n in 0..3 {
        s.request(FileReq::GetLine { id: "v".to_string(), line_no: n });
    }
    let read: Vec<_> = s.file_out.iter().filter_map(|(_, m)| line_of(m)).map(|l| l.1).collect();
    assert_eq!(read, vec!["one", "two", "three"]);
    s.request(FileReq::EnableTailing { id: "v".to_string(), last_seen_line: 0 });
    let tailed: Vec<_> = s.file_out.iter().filter_map(|(_, m)| line_of(m)).map(|l| l.0).collect();
    assert_eq!(tailed, vec![0, 1, 2, 0, 1, 2]);
    s.request(FileReq::DisableTailing { id: "v".to_string() });
    let before = s.file_out.len();
    append_lines(&mut s, &["four"]);
    assert_eq!(s.file_out.len(), before + 1);
    assert_eq!(stats_of(&s.file_out[before].1), Some(4));
}

#[test]
fn interest_is_served_once_when_the_line_arrives() {
    let mut s = Session::new();
    s.request(FileReq::RegisterClient { id: "v".to_string() });
    s.request(FileReq::GetLine { id: "v".to_string(), line_no: 1 });
    append_lines(&mut s, &["zero", "one", "two"]);
    let lines: Vec<_> = s.file_out.iter().filter_map(|(_, m)| line_of(m)).collect();
    assert_eq!(lines, vec![(1, "one".to_string(), false)]);
}

#[test]
fn cancelled_interest_is_not_served() {
    let mut s = Session::new();
    s.request(FileReq::RegisterClient { id: "v".to_string() });
    s.request(FileReq::GetLine { id: "v".to_string(), line_no: 0 });
    s.request(FileReq::CancelLine { id: "v".to_string(), line_no: 0 });
    append_lines(&mut s, &["zero"]);
    assert!(s.file_out.iter().all(|(_, m)| line_of(m).is_none()));
}

#[test]
fn unknown_client_is_ignored() {
    let mut ifile = IFile::new();
    let r = ifile.handle_client_command(FileReq::GetLine { id: "nobody".to_string(), line_no: 0 });
    assert!(r.is_empty());
    let r = ifile.handle_client_command(FileReq::EnableTailing { id: "nobody".to_string(), last_seen_line: 0 });
    assert!(r.is_empty());
}

#[test]
fn duplicate_registration_overwrites() {
    let mut ifile = IFile::new();
    ifile.handle_client_command(FileReq::RegisterClient { id: "a".to_string() });
    ifile.handle_client_command(FileReq::RegisterClient { id: "b".to_string() });
    let r = ifile.handle_client_command(FileReq::RegisterClient { id: "a".to_string() });
    assert_eq!(ifile.num_clients(), 2);
    match &r[0] {
        IFAction::Send { client, .. } => assert_eq!(*client, 0),
        other => panic!("unexpected {:?}", other),
    }
}

#[test]
fn file_error_is_forwarded_to_every_client() {
    let mut s = Session::new();
    s.request(FileReq::RegisterClient { id: "a".to_string() });
    s.request(FileReq::RegisterClient { id: "b".to_string() });
    s.reader(ReaderUpdate::FileError { reason: "File removed".to_string() });
    let errors: Vec<_> = s
        .file_out
        .iter()
        .filter_map(|(c, m)| match m {
            IFResp::FileError { reason } => Some((*c, reason.clone())),
            _ => None,
        })
        .collect();
    assert_eq!(errors, vec![(0, "File removed".to_string()), (1, "File removed".to_string())]);
}

#[test]
fn truncate_then_same_bytes_replays_the_stream() {
    let mut reader = Reader::new();
    let mut buf = String::new();
    let mut first = Vec::new();
    for raw in ["a\n", "bc\n"] {
        first.push(format!("{:?}", read_chunk(&mut reader, &mut buf, raw).unwrap()));
    }
    match reader.on_watch_event(WatchEvent::Changed { size: 0 }) {
        TailAction::Resume { truncated, read, position } => {
            assert!(truncated);
            assert!(!read);
            assert_eq!(position, 0);
        }
        other => panic!("unexpected {:?}", other),
    }
    match reader.on_watch_event(WatchEvent::Changed { size: 5 }) {
        TailAction::Resume { truncated, read, position } => {
            assert!(!truncated);
            assert!(read);
            assert_eq!(position, 0);
        }
        other => panic!("unexpected {:?}", other),
    }
    let mut second = Vec::new();
    for raw in ["a\n", "bc\n"] {
        second.push(format!("{:?}", read_chunk(&mut reader, &mut buf, raw).unwrap()));
    }
    assert_eq!(first, second);
}

#[test]
fn watcher_events_end_the_reader() {
    let mut reader = Reader::new();
    match reader.on_watch_event(WatchEvent::Removed) {
        TailAction::Finish { update: ReaderUpdate::FileError { reason } } => assert_eq!(reason, "File removed"),
        other => panic!("unexpected {:?}", other),
    }
    match reader.on_watch_event(WatchEvent::Failed { reason: "gone".to_string() }) {
        TailAction::Abort { update: ReaderUpdate::FileError { reason } } => assert_eq!(reason, "gone"),
        other => panic!("unexpected {:?}", other),
    }
    match reader.on_watch_event(WatchEvent::Changed { size: 0 }) {
        TailAction::Resume { truncated, read, .. } => assert!(!truncated && !read),
        other => panic!("unexpected {:?}", other),
    }
}

#[test]
fn filter_install_over_existing_content() {
    let mut s = Session::with_filter();
    let texts = numbered(10);
    let refs: Vec<&str> = texts.iter().map(|t| t.as_str()).collect();
    append_lines(&mut s, &refs);
    s.filter_request(FileReq::RegisterClient { id: "filter".to_string() });
    s.set_filter(Some(FilterSpec::new(FilterType::SimpleCaseSensitive, "3").unwrap()));
    assert!(matches!(s.filter_out[1].1, FFResp::Clear));
    s.filter_request(FileReq::GetLine { id: "filter".to_string(), line_no: 0 });
    let stats: Vec<_> = s.filter_out.iter().filter_map(|(_, m)| ff_stats_of(m)).collect();
    assert_eq!(stats, vec![0, 1]);
    let lines: Vec<_> = s.filter_out.iter().filter_map(|(_, m)| ff_line_of(m)).collect();
    assert_eq!(lines.len(), 1);
    assert_eq!(lines[0].0, 0);
    assert_eq!(lines[0].1.line, "line 3");
    assert_eq!(lines[0].1.line_no, 3);
}

#[test]
fn live_filter_with_tailing() {
    let mut s = Session::with_filter();
    let texts = numbered(10);
    let refs: Vec<&str> = texts.iter().map(|t| t.as_str()).collect();
    append_lines(&mut s, &refs);
    s.filter_request(FileReq::RegisterClient { id: "filter".to_string() });
    s.set_filter(Some(FilterSpec::new(FilterType::SimpleCaseSensitive, "3").unwrap()));
    s.filter_request(FileReq::EnableTailing { id: "filter".to_string(), last_seen_line: 0 });
    let before = s.filter_out.len();
    append_lines(&mut s, &["line 13"]);
    let after: Vec<_> = s.filter_out[before..].iter().map(|(_, m)| (ff_stats_of(m), ff_line_of(m))).collect();
    assert_eq!(after.len(), 2);
    assert_eq!(after[0].0, Some(2));
    let (match_no, line) = after[1].1.clone().unwrap();
    assert_eq!(match_no, 1);
    assert_eq!(line.line, "line 13");
    assert_eq!(line.line_no, 10);
}

#[test]
fn same_filter_twice_is_a_no_op() {
    let mut s = Session::with_filter();
    append_lines(&mut s, &["x3", "y"]);
    s.filter_request(FileReq::RegisterClient { id: "filter".to_string() });
    let first = s.set_filter(Some(FilterSpec::new(FilterType::SimpleCaseInsensitive, "X").unwrap()));
    assert_eq!(first, 11);
    let clears = s.filter_out.iter().filter(|(_, m)| matches!(m, FFResp::Clear)).count();
    let second = s.set_filter(Some(FilterSpec::new(FilterType::SimpleCaseInsensitive, "X").unwrap()));
    assert_eq!(second, 0);
    assert_eq!(s.filter_out.iter().filter(|(_, m)| matches!(m, FFResp::Clear)).count(), clears);
    let other = s.set_filter(Some(FilterSpec::new(FilterType::SimpleCaseSensitive, "X").unwrap()));
    assert_eq!(other, 11);
}

#[test]
fn removing_the_filter_clears_clients_once() {
    let mut s = Session::with_filter();
    s.filter_request(FileReq::RegisterClient { id: "filter".to_string() });
    assert_eq!(s.set_filter(None), 0);
    s.set_filter(Some(FilterSpec::new(FilterType::Regex, "a+").unwrap()));
    assert_eq!(s.set_filter(None), 1);
    assert_eq!(s.set_filter(None), 0);
}

#[test]
fn filter_matches_are_strictly_increasing() {
    let mut s = Session::with_filter();
    let texts: Vec<String> = (0..30).map(|i| if i % 3 == 0 { format!("hit {}", i) } else { format!("miss {}", i) }).collect();
    let refs: Vec<&str> = texts.iter().map(|t| t.as_str()).collect();
    append_lines(&mut s, &refs);
    s.filter_request(FileReq::RegisterClient { id: "filter".to_string() });
    s.set_filter(Some(FilterSpec::new(FilterType::Regex, "^hit").unwrap()));
    s.filter_request(FileReq::EnableTailing { id: "filter".to_string(), last_seen_line: 0 });
    let lines: Vec<_> = s.filter_out.iter().filter_map(|(_, m)| ff_line_of(m)).collect();
    let file_lines: Vec<usize> = lines.iter().map(|(_, l)| l.line_no).collect();
    assert_eq!(file_lines, vec![0, 3, 6, 9, 12, 15, 18, 21, 24, 27]);
    let match_nos: Vec<usize> = lines.iter().map(|(m, _)| *m).collect();
    assert_eq!(match_nos, (0..10).collect::<Vec<_>>());
}

#[test]
fn truncation_mid_session() {
    let mut s = Session::with_filter();
    let texts = numbered(1000);
    let refs: Vec<&str> = texts.iter().map(|t| t.as_str()).collect();
    s.request(FileReq::RegisterClient { id: "content".to_string() });
    append_lines(&mut s, &refs);
    s.filter_request(FileReq::RegisterClient { id: "filter".to_string() });
    s.set_filter(Some(FilterSpec::new(FilterType::SimpleCaseSensitive, "5").unwrap()));

    let mut view: View<String> = View::new("content".to_string());
    view.set_height(10);
    view.handle_update(FileResp::Stats { view_lines: 1000, file_lines: 1000, file_bytes: 0 });
    view.set_current(500);
    assert_eq!(view.current(), 500);

    let mut filter_view: View<FilterLine> = View::new("filter".to_string());
    filter_view.set_height(10);
    filter_view.set_current(500);

    s.file_out.clear();
    s.filter_out.clear();
    s.lines.clear();
    s.reader(ReaderUpdate::Truncated);
    assert!(s.file_out.iter().any(|(_, m)| matches!(m, IFResp::Truncated)));
    assert!(s.filter_out.iter().any(|(_, m)| matches!(m, FFResp::Clear)));
    view.reset();
    filter_view.reset();
    assert_eq!(view.current(), 0);
    assert_eq!(filter_view.current(), 0);

    append_lines(&mut s, &["x", "y", "z"]);
    let content_msgs: Vec<_> = s.file_out.iter().filter(|(c, _)| *c == 1).map(|(_, m)| m).collect();
    assert!(matches!(content_msgs[0], IFResp::Truncated));
    let counts: Vec<_> = content_msgs[1..].iter().filter_map(|m| stats_of(m)).collect();
    assert_eq!(counts, vec![1, 2, 3]);
    assert_eq!(s.ifile.file_bytes(), 6);
    for (_, m) in s.file_out.drain(..) {
        if let IFResp::ViewUpdate { update } = m {
            view.handle_update(update);
        }
    }
    assert_eq!(view.get_stats().file_lines, 3);
    assert_eq!(s.ifile.file_lines(), 3);
}

#[test]
fn viewport_shift_preserves_overlap() {
    let mut view: View<String> = View::new("v".to_string());
    view.set_height(10);
    view.set_current(109);
    assert_eq!(view.range(), 100..110);
    for l in 100..110 {
        view.handle_update(FileResp::Line { line_no: l, line_content: format!("l{}", l), partial: false });
    }
    let reqs = view.set_current(114);
    assert_eq!(view.range(), 105..115);
    let asked: Vec<usize> = reqs
        .iter()
        .map(|r| match r {
            FileReq::GetLine { line_no, .. } => *line_no,
            other => panic!("unexpected {:?}", other),
        })
        .collect();
    assert_eq!(asked, vec![110, 111, 112, 113, 114]);
    assert_eq!(view.get_line(105).unwrap(), "l105");
}

#[test]
fn view_tailing_follows_new_lines() {
    let mut view: View<String> = View::new("v".to_string());
    view.set_height(3);
    view.handle_update(FileResp::Stats { view_lines: 3, file_lines: 3, file_bytes: 0 });
    for l in 0..3 {
        view.handle_update(FileResp::Line { line_no: l, line_content: format!("l{}", l), partial: false });
    }
    let reqs = view.set_tail(true);
    assert!(matches!(reqs.last(), Some(FileReq::EnableTailing { last_seen_line: 2, .. })));
    assert_eq!(view.current(), 2);
    view.handle_update(FileResp::Stats { view_lines: 4, file_lines: 4, file_bytes: 0 });
    view.handle_update(FileResp::Line { line_no: 3, line_content: "l3".to_string(), partial: false });
    assert_eq!(view.range(), 1..4);
    assert_eq!(view.current(), 3);
    assert_eq!(view.get_line(3).unwrap(), "l3");
    let reqs = view.set_tail(false);
    assert!(matches!(reqs.as_slice(), [FileReq::DisableTailing { .. }]));
}

#[test]
fn view_height_and_centering() {
    let mut view: View<String> = View::new("v".to_string());
    view.set_height(10);
    view.set_current(50);
    assert_eq!(view.range(), 41..51);
    view.center_current_line();
    assert_eq!(view.range(), 45..55);
    view.set_height(4);
    assert_eq!(view.range(), 47..51);
    view.set_height(20);
    assert_eq!(view.range(), 47..67);
    view.set_current(10);
    assert_eq!(view.range(), 10..30);
    view.center_current_line();
    assert_eq!(view.range(), 0..20);
}

#[test]
fn spool_line_takes_the_verdict_given() {
    let mut ffile = FFile::new("ff".to_string());
    ffile.handle_client_command(FileReq::RegisterClient { id: "filter".to_string() });
    ffile.handle_client_command(FileReq::EnableTailing { id: "filter".to_string(), last_seen_line: 0 });
    ffile.handle_ff_command(FFReq::SetFilter { filter_spec: Some(FilterSpec::new(FilterType::Regex, "z").unwrap()) });
    assert_eq!(ffile.next_line_expected(), Some(0));
    let actions = ffile.spool_line(0, "no z here".to_string(), false, false);
    assert_eq!(actions.len(), 1);
    assert!(matches!(&actions[0], FFAction::ToFile { request: FileReq::GetLine { line_no: 10, .. } }));
    let actions = ffile.spool_line(4, "anything".to_string(), true, true);
    assert_eq!(ffile.next_line_expected(), Some(5));
    assert_eq!(actions.len(), 3);
    assert!(matches!(&actions[0], FFAction::Send { client: 0, message } if ff_stats_of(message) == Some(1)));
    match &actions[1] {
        FFAction::Send { client: 0, message } => {
            let (m, line) = ff_line_of(message).unwrap();
            assert_eq!((m, line.line_no, line.line.as_str()), (0, 4, "anything"));
        }
        other => panic!("unexpected {:?}", other),
    }
    assert!(matches!(&actions[2], FFAction::ToFile { request: FileReq::GetLine { line_no: 11, .. } }));
}

#[test]
fn index_stays_ordered_with_one_partial_tail() {
    let mut ifile = IFile::new();
    let mut reader = Reader::new();
    let mut buf = String::new();
    for raw in ["ab\n", "c", "d", "e\n", "fg"] {
        let update = read_chunk(&mut reader, &mut buf, raw).unwrap();
        ifile.handle_reader_update(update);
        let n = ifile.file_lines();
        for i in 0..n {
            let line = ifile.line(i).unwrap();
            assert_eq!(line.line_no, i);
            if i + 1 < n {
                assert!(!line.partial);
            }
        }
        assert!(ifile.line(n).is_none());
    }
    assert_eq!(ifile.file_lines(), 3);
    let last = ifile.line(2).unwrap();
    assert!(last.partial);
    assert_eq!((last.offset, last.line_bytes), (7, 2));
    let middle = ifile.line(1).unwrap();
    assert_eq!((middle.offset, middle.line_bytes, middle.partial), (3, 4, false));
    assert_eq!(ifile.file_bytes(), 9);
    ifile.handle_reader_update(ReaderUpdate::Truncated);
    assert_eq!(ifile.file_lines(), 0);
    assert_eq!(ifile.file_bytes(), 0);
    assert!(ifile.line(0).is_none());
}
