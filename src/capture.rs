//! The capture session: a state machine driven by what happened to the
//! capture subprocess and by the bytes of its output, which keeps the tail of
//! the output's lines and says what to publish.
use vstd::prelude::*;
use crate::tail::{keep_last, lemma_push_each_keeps_last, push_each, joined, LineBuffer, TAIL_CAPACITY};

verus! {

/// The text that `String::from_utf8_lossy` makes of `b`.
pub uninterp spec fn lossy_text(b: Seq<u8>) -> Seq<char>;

/// Relies on `String::from_utf8_lossy`: invalid sequences become U+FFFD, so
/// every input decodes; the result depends on the bytes alone.
#[verifier::external_body]
fn decode_lossy(b: &Vec<u8>) -> (r: String)
    ensures
        r@ == lossy_text(b@),
{
    String::from_utf8_lossy(b.as_slice()).into_owned()
}

/// Where the capture session stands.
#[derive(Clone, Copy, Debug, PartialEq, Eq, Structural)]
pub enum CapturePhase {
    NotStarted,
    Starting,
    StartupFailed,
    Running,
    StreamClosed,
    Terminated,
}

/// What happened to the capture subprocess.
#[derive(Clone, Copy, Debug, PartialEq, Eq, Structural)]
pub enum CaptureEvent {
    /// The privilege check was made; `true` when the process may capture.
    PrivilegeChecked(bool),
    /// The subprocess was launched (`spawned`) and its output obtained (`stream`).
    Launched { spawned: bool, stream: bool },
    /// One byte of the subprocess's output arrived.
    Byte(u8),
    /// The output stream closed.
    StreamEnded,
    /// The session was stopped from outside: the subprocess was killed or a stop was asked for.
    Killed,
}

pub open spec fn not_root_message() -> Seq<char> {
    "You must be root to run `tcpdump`"@
}

pub open spec fn spawn_failed_message() -> Seq<char> {
    "Could not run tcpdump - permission?"@
}

pub open spec fn no_stream_message() -> Seq<char> {
    "Could not get output from tcpdump"@
}

pub open spec fn started_message(iface: Seq<char>) -> Seq<char> {
    "tcpdump start, waiting for "@ + iface + " traffic"@
}

/// The session's state: phase, interface, bytes of the unfinished line, and tail.
pub type CaptureModel = (CapturePhase, Seq<char>, Seq<u8>, Seq<Seq<char>>);

/// The next state and the text to publish, if any, after `ev`.
pub open spec fn capture_step(m: CaptureModel, ev: CaptureEvent) -> (CaptureModel, Option<Seq<char>>) {
    let (phase, iface, pending, tail) = m;
    match (phase, ev) {
        (CapturePhase::NotStarted, CaptureEvent::PrivilegeChecked(ok)) => if ok {
            ((CapturePhase::Starting, iface, pending, tail), None)
        } else {
            ((CapturePhase::StartupFailed, iface, pending, tail), Some(not_root_message()))
        },
        (CapturePhase::Starting, CaptureEvent::Launched { spawned, stream }) => if !spawned {
            ((CapturePhase::StartupFailed, iface, pending, tail), Some(spawn_failed_message()))
        } else if !stream {
            ((CapturePhase::StartupFailed, iface, pending, tail), Some(no_stream_message()))
        } else {
            ((CapturePhase::Running, iface, pending, tail), Some(started_message(iface)))
        },
        (CapturePhase::Running, CaptureEvent::Byte(b)) => if b == 10u8 {
            let t = keep_last(tail.push(lossy_text(pending)), TAIL_CAPACITY as nat);
            ((phase, iface, Seq::empty(), t), Some(joined(t)))
        } else {
            ((phase, iface, pending.push(b), tail), None)
        },
        (CapturePhase::Running, CaptureEvent::StreamEnded) => (
            (CapturePhase::StreamClosed, iface, pending, tail),
            None,
        ),
        (CapturePhase::Running, CaptureEvent::Killed) => (
            (CapturePhase::Terminated, iface, pending, tail),
            None,
        ),
        _ => (m, None),
    }
}

/// A capture session for one interface.
pub struct CaptureSession {
    phase: CapturePhase,
    interface: String,
    pending: Vec<u8>,
    tail: LineBuffer,
}

impl View for CaptureSession {
    type V = CaptureModel;

    closed spec fn view(&self) -> CaptureModel {
        (self.phase, self.interface@, self.pending@, self.tail@)
    }
}

pub open spec fn text_view(t: Option<String>) -> Option<Seq<char>> {
    match t {
        Some(s) => Some(s@),
        None => None,
    }
}

impl CaptureSession {
    pub closed spec fn wf(&self) -> bool {
        self.tail.wf()
    }

    pub fn new(interface: String) -> (r: CaptureSession)
        ensures
            r.wf(),
            r@ == (CapturePhase::NotStarted, interface@, Seq::<u8>::empty(), Seq::<Seq<char>>::empty()),
    {
        CaptureSession { phase: CapturePhase::NotStarted, interface, pending: Vec::new(), tail: LineBuffer::new() }
    }

    pub fn phase(&self) -> (r: CapturePhase)
        ensures
            r == self@.0,
    {
        self.phase
    }

    /// The lines held in the tail, oldest first.
    pub fn tail_lines(&self) -> (r: &Vec<String>)
        ensures
            r@.map_values(|s: String| s@) == self@.3,
    {
        self.tail.lines()
    }

    /// Takes `ev` and gives the text that replaces the capture panel's content, if any.
    pub fn on_event(&mut self, ev: CaptureEvent) -> (r: Option<String>)
        requires
            old(self).wf(),
        ensures
            final(self).wf(),
            (final(self)@, text_view(r)) == capture_step(old(self)@, ev),
    {
        match (self.phase, ev) {
            (CapturePhase::NotStarted, CaptureEvent::PrivilegeChecked(ok)) => {
                if ok {
                    self.phase = CapturePhase::Starting;
                    None
                } else {
                    self.phase = CapturePhase::StartupFailed;
                    Some("You must be root to run `tcpdump`".to_owned())
                }
            },
            (CapturePhase::Starting, CaptureEvent::Launched { spawned, stream }) => {
                if !spawned {
                    self.phase = CapturePhase::StartupFailed;
                    Some("Could not run tcpdump - permission?".to_owned())
                } else if !stream {
                    self.phase = CapturePhase::StartupFailed;
                    Some("Could not get output from tcpdump".to_owned())
                } else {
                    self.phase = CapturePhase::Running;
                    let msg = String::from_str("tcpdump start, waiting for ");
                    let msg = msg.concat(self.interface.as_str());
                    Some(msg.concat(" traffic"))
                }
            },
            (CapturePhase::Running, CaptureEvent::Byte(b)) => {
                if b == 10u8 {
                    let line = decode_lossy(&self.pending);
                    self.pending.clear();
                    self.tail.push(line);
                    assert(self.pending@ =~= Seq::<u8>::empty());
                    Some(self.tail.text())
                } else {
                    self.pending.push(b);
                    None
                }
            },
            (CapturePhase::Running, CaptureEvent::StreamEnded) => {
                self.phase = CapturePhase::StreamClosed;
                None
            },
            (CapturePhase::Running, CaptureEvent::Killed) => {
                self.phase = CapturePhase::Terminated;
                None
            },
            _ => None,
        }
    }
}

/// The capture command's arguments: the interface, line-buffered output, and
/// no reverse name lookups.
pub fn capture_args(interface: &str) -> (r: Vec<String>)
    ensures
        r@.map_values(|s: String| s@) == seq!["-i"@ + interface@, "-l"@, "-n"@],
{
    let mut v: Vec<String> = Vec::new();
    v.push(String::from_str("-i").concat(interface));
    v.push("-l".to_owned());
    v.push("-n".to_owned());
    assert(v@.map_values(|s: String| s@) =~= seq!["-i"@ + interface@, "-l"@, "-n"@]);
    v
}

/// The state after each of `bytes` arrived in turn, and the last text published.
pub open spec fn feed_bytes(m: CaptureModel, bytes: Seq<u8>) -> (CaptureModel, Option<Seq<char>>)
    decreases bytes.len(),
{
    if bytes.len() == 0 {
        (m, None)
    } else {
        let (m1, o1) = feed_bytes(m, bytes.drop_last());
        let (m2, o2) = capture_step(m1, CaptureEvent::Byte(bytes.last()));
        (m2, if o2 is Some { o2 } else { o1 })
    }
}

/// The bytes of `lines`, each followed by a newline.
pub open spec fn line_bytes(lines: Seq<Seq<u8>>) -> Seq<u8>
    decreases lines.len(),
{
    if lines.len() == 0 {
        Seq::empty()
    } else {
        line_bytes(lines.drop_last()) + lines.last().push(10u8)
    }
}

pub open spec fn no_newline(b: Seq<u8>) -> bool {
    forall|i: int| 0 <= i < b.len() ==> b[i] != 10u8
}

proof fn lemma_feed_concat(m: CaptureModel, a: Seq<u8>, b: Seq<u8>)
    ensures
        feed_bytes(m, a + b).0 == feed_bytes(feed_bytes(m, a).0, b).0,
        feed_bytes(m, a + b).1 == if feed_bytes(feed_bytes(m, a).0, b).1 is Some {
            feed_bytes(feed_bytes(m, a).0, b).1
        } else {
            feed_bytes(m, a).1
        },
    decreases b.len(),
{
    if b.len() == 0 {
        assert(a + b =~= a);
    } else {
        lemma_feed_concat(m, a, b.drop_last());
        assert((a + b).drop_last() =~= a + b.drop_last());
        assert((a + b).last() == b.last());
    }
}

proof fn lemma_feed_partial_line(m: CaptureModel, bytes: Seq<u8>)
    requires
        m.0 == CapturePhase::Running,
        no_newline(bytes),
    ensures
        feed_bytes(m, bytes) == ((m.0, m.1, m.2 + bytes, m.3), None::<Seq<char>>),
    decreases bytes.len(),
{
    if bytes.len() == 0 {
        assert(m.2 + bytes =~= m.2);
    } else {
        lemma_feed_partial_line(m, bytes.drop_last());
        assert(m.2 + bytes.drop_last() + seq![bytes.last()] =~= m.2 + bytes);
    }
}

/// Once the capture runs with no unfinished line, the bytes of any lines
/// (none holding a newline, at least one line) leave exactly the last
/// `TAIL_CAPACITY` decoded lines in the tail, in order, and the last text
/// published is that tail joined by newlines.
pub proof fn lemma_capture_publishes_tail(m: CaptureModel, lines: Seq<Seq<u8>>)
    requires
        m.0 == CapturePhase::Running,
        m.2.len() == 0,
        m.3.len() <= TAIL_CAPACITY,
        lines.len() > 0,
        forall|i: int| 0 <= i < lines.len() ==> no_newline(#[trigger] lines[i]),
    ensures
        feed_bytes(m, line_bytes(lines)).0 == (
            m.0,
            m.1,
            Seq::<u8>::empty(),
            keep_last(m.3 + lines.map_values(|l: Seq<u8>| lossy_text(l)), TAIL_CAPACITY as nat),
        ),
        feed_bytes(m, line_bytes(lines)).1 == Some(
            joined(keep_last(m.3 + lines.map_values(|l: Seq<u8>| lossy_text(l)), TAIL_CAPACITY as nat)),
        ),
{
    lemma_feed_lines(m, lines);
    lemma_push_each_keeps_last(m.3, lines.map_values(|l: Seq<u8>| lossy_text(l)));
}

proof fn lemma_feed_lines(m: CaptureModel, lines: Seq<Seq<u8>>)
    requires
        m.0 == CapturePhase::Running,
        m.2.len() == 0,
        m.3.len() <= TAIL_CAPACITY,
        forall|i: int| 0 <= i < lines.len() ==> no_newline(#[trigger] lines[i]),
    ensures
        feed_bytes(m, line_bytes(lines)).0 == (
            m.0,
            m.1,
            Seq::<u8>::empty(),
            push_each(m.3, lines.map_values(|l: Seq<u8>| lossy_text(l))),
        ),
        lines.len() > 0 ==> feed_bytes(m, line_bytes(lines)).1 == Some(
            joined(push_each(m.3, lines.map_values(|l: Seq<u8>| lossy_text(l)))),
        ),
    decreases lines.len(),
{
    let texts = lines.map_values(|l: Seq<u8>| lossy_text(l));
    if lines.len() == 0 {
        assert(line_bytes(lines) =~= Seq::<u8>::empty());
    } else {
        let p = lines.drop_last();
        assert forall|i: int| 0 <= i < p.len() implies no_newline(#[trigger] p[i]) by {
            assert(p[i] == lines[i]);
        }
        lemma_feed_lines(m, p);
        assert(p.map_values(|l: Seq<u8>| lossy_text(l)) =~= texts.drop_last());
        let m1 = feed_bytes(m, line_bytes(p)).0;
        let last = lines.last();
        assert(no_newline(last)) by {
            assert(lines[lines.len() - 1] == last);
        }
        lemma_feed_concat(m, line_bytes(p), last.push(10u8));
        lemma_feed_partial_line(m1, last);
        assert(last.push(10u8).drop_last() =~= last);
        assert(m1.2 + last =~= last);
        assert(texts.last() == lossy_text(last));
    }
}

} // verus!
