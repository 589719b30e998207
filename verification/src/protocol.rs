//! The filter conversation as a finite state machine.
//!
//! The host opens with its name and version, then declares its
//! capabilities; each list ends with a flush packet. After that it sends,
//! per file, a list of `key=value` lines that names the command and the
//! pathname, then the content, each ended by a flush. The engine takes one
//! packet at a time and says what is to be done next. It never reads or
//! writes a stream itself.

use vstd::prelude::*;
use crate::pktline::{flush_frame, frame, write_flush, write_packet, MAX_PAYLOAD};
use crate::text::{
    begins, cap_clean, cap_clean_bytes, cap_clean_reply, cap_clean_reply_bytes, cap_smudge,
    cap_smudge_bytes, cap_smudge_reply, cap_smudge_reply_bytes, chomp, chomped_len, client_line,
    client_line_bytes, cmd_clean, cmd_clean_bytes, cmd_smudge, cmd_smudge_bytes, matches_at,
    pathname_key, pathname_key_bytes, server_line, server_line_bytes, starts_with, status_abort,
    status_abort_bytes, status_error, status_error_bytes, status_success, status_success_bytes,
    version_line, version_line_bytes, version_reply, version_reply_bytes,
};

verus! {

/// Where the conversation stands.
#[derive(Clone, Copy, Debug, PartialEq, Eq, Structural)]
pub enum State {
    /// The host has yet to give its name and version.
    AwaitHandshake,
    /// The host has yet to declare its capabilities.
    Ready,
    /// The next list names a command and a pathname.
    AwaitCommand,
    /// The next list is the content of the file.
    AwaitContent,
    /// The file is being converted; the reply is due.
    Responding,
    /// The conversation is over.
    Terminated,
}

/// What the host asks for.
#[derive(Clone, Copy, Debug, PartialEq, Eq, Structural)]
pub enum Command {
    Clean,
    Smudge,
}

/// What a text packet says.
#[derive(Clone, Copy, Debug, PartialEq, Eq, Structural)]
pub enum Line {
    Client,
    Version,
    CapClean,
    CapSmudge,
    CmdClean,
    CmdSmudge,
    Pathname,
    Other,
}

/// What the caller is to do after a packet.
#[derive(Clone, Copy, Debug, PartialEq, Eq, Structural)]
pub enum Action {
    /// Read the next packet.
    Continue,
    /// Send the engine's name and version, then read on.
    Welcome,
    /// Send the capabilities that the engine supports, then read on.
    Capabilities,
    /// Convert the file that `request` describes and hand the outcome to
    /// `finish`.
    Run,
    /// Send `status=error` for this file, then read on.
    StatusError,
    /// The host closed the stream between two files: leave with success.
    Done,
    /// Leave with failure. Nothing more is sent.
    Fail,
}

/// How the conversion of one file ended.
#[derive(Clone, Debug, PartialEq, Eq)]
pub enum Outcome {
    /// The converted content.
    Converted(Vec<u8>),
    /// The conversion failed.
    Failed,
    /// The file is to be left as it is.
    Skipped,
}

/// The engine's state as mathematical values.
pub struct EngineView {
    pub state: State,
    pub saw_client: bool,
    pub saw_version: bool,
    pub clean: bool,
    pub smudge: bool,
    /// Whether a packet came since the last flush.
    pub partial: bool,
    pub command: Option<Command>,
    pub pathname: Option<Seq<u8>>,
    pub content: Seq<u8>,
}

/// The engine of one conversation.
#[derive(Clone, Debug, PartialEq, Eq)]
pub struct Engine {
    state: State,
    saw_client: bool,
    saw_version: bool,
    clean: bool,
    smudge: bool,
    partial: bool,
    command: Option<Command>,
    pathname: Option<Vec<u8>>,
    content: Vec<u8>,
}

impl View for Engine {
    type V = EngineView;

    closed spec fn view(&self) -> EngineView {
        EngineView {
            state: self.state,
            saw_client: self.saw_client,
            saw_version: self.saw_version,
            clean: self.clean,
            smudge: self.smudge,
            partial: self.partial,
            command: self.command,
            pathname: match self.pathname {
                Some(p) => Some(p@),
                None => None,
            },
            content: self.content@,
        }
    }
}

/// What a text packet says, whether or not it ends with a line feed.
pub open spec fn classify(s: Seq<u8>) -> Line {
    let t = chomp(s);
    if t == client_line() {
        Line::Client
    } else if t == version_line() {
        Line::Version
    } else if t == cap_clean() {
        Line::CapClean
    } else if t == cap_smudge() {
        Line::CapSmudge
    } else if t == cmd_clean() {
        Line::CmdClean
    } else if t == cmd_smudge() {
        Line::CmdSmudge
    } else if starts_with(t, pathname_key()) {
        Line::Pathname
    } else {
        Line::Other
    }
}

/// The value of a pathname line.
pub open spec fn path_of(s: Seq<u8>) -> Seq<u8> {
    chomp(s).subrange(pathname_key().len() as int, chomp(s).len() as int)
}

impl EngineView {
    /// The engine before the first packet.
    pub open spec fn start() -> EngineView {
        EngineView {
            state: State::AwaitHandshake,
            saw_client: false,
            saw_version: false,
            clean: false,
            smudge: false,
            partial: false,
            command: None,
            pathname: None,
            content: Seq::empty(),
        }
    }

    /// This engine in `state`, with nothing kept of the file in hand.
    pub open spec fn at(self, state: State) -> EngineView {
        EngineView {
            state,
            saw_client: self.saw_client,
            saw_version: self.saw_version,
            clean: self.clean,
            smudge: self.smudge,
            partial: false,
            command: None,
            pathname: None,
            content: Seq::empty(),
        }
    }

    /// The engine after a data packet with payload `s`.
    pub open spec fn after_data(self, s: Seq<u8>) -> (EngineView, Action) {
        let line = classify(s);
        match self.state {
            State::AwaitHandshake => (
                EngineView {
                    saw_client: self.saw_client || line == Line::Client,
                    saw_version: self.saw_version || line == Line::Version,
                    partial: true,
                    ..self
                },
                Action::Continue,
            ),
            State::Ready => (
                EngineView {
                    clean: self.clean || line == Line::CapClean,
                    smudge: self.smudge || line == Line::CapSmudge,
                    partial: true,
                    ..self
                },
                Action::Continue,
            ),
            State::AwaitCommand => (
                EngineView {
                    partial: true,
                    command: if line == Line::CmdClean {
                        Some(Command::Clean)
                    } else if line == Line::CmdSmudge {
                        Some(Command::Smudge)
                    } else {
                        self.command
                    },
                    pathname: if line == Line::Pathname {
                        Some(path_of(s))
                    } else {
                        self.pathname
                    },
                    ..self
                },
                Action::Continue,
            ),
            State::AwaitContent => (
                EngineView { partial: true, content: self.content + s, ..self },
                Action::Continue,
            ),
            State::Responding => (self.at(State::Terminated), Action::Fail),
            State::Terminated => (self, Action::Continue),
        }
    }

    /// The engine after a flush packet.
    pub open spec fn after_flush(self) -> (EngineView, Action) {
        match self.state {
            State::AwaitHandshake => if self.saw_client && self.saw_version {
                (self.at(State::Ready), Action::Welcome)
            } else {
                (self.at(State::Terminated), Action::Fail)
            },
            State::Ready => if self.clean && self.smudge {
                (self.at(State::AwaitCommand), Action::Capabilities)
            } else {
                (self.at(State::Terminated), Action::Fail)
            },
            State::AwaitCommand => if self.command.is_some() && self.pathname.is_some() {
                (EngineView { state: State::AwaitContent, partial: false, ..self }, Action::Continue)
            } else {
                (self.at(State::AwaitCommand), Action::StatusError)
            },
            State::AwaitContent => (
                EngineView { state: State::Responding, partial: false, ..self },
                Action::Run,
            ),
            State::Responding => (self.at(State::Terminated), Action::Fail),
            State::Terminated => (self, Action::Continue),
        }
    }

    /// The engine after the host closed the stream at a packet boundary.
    pub open spec fn after_closed(self) -> (EngineView, Action) {
        match self.state {
            State::Terminated => (self, Action::Continue),
            State::AwaitCommand => if self.partial {
                (self.at(State::Terminated), Action::Fail)
            } else {
                (self.at(State::Terminated), Action::Done)
            },
            _ => (self.at(State::Terminated), Action::Fail),
        }
    }

    /// The engine after a packet that could not be framed.
    pub open spec fn after_broken(self) -> (EngineView, Action) {
        match self.state {
            State::Terminated => (self, Action::Continue),
            _ => (self.at(State::Terminated), Action::Fail),
        }
    }
}

/// The content of a file as data packets, none larger than `MAX_PAYLOAD`.
pub open spec fn content_frames(content: Seq<u8>) -> Seq<u8>
    decreases content.len(),
{
    if content.len() == 0 {
        Seq::empty()
    } else if content.len() <= MAX_PAYLOAD {
        frame(content)
    } else {
        frame(content.subrange(0, MAX_PAYLOAD as int)) + content_frames(
            content.subrange(MAX_PAYLOAD as int, content.len() as int),
        )
    }
}

/// What the engine sends for an action.
pub open spec fn wire(a: Action) -> Seq<u8> {
    match a {
        Action::Welcome => frame(server_line()) + frame(version_reply()) + flush_frame(),
        Action::Capabilities => frame(cap_clean_reply()) + frame(cap_smudge_reply())
            + flush_frame(),
        Action::StatusError => frame(status_error()) + flush_frame(),
        _ => Seq::empty(),
    }
}

/// The reply for one file: the status, the content packets of a converted
/// file, and a flush.
pub open spec fn response(o: Option<Option<Seq<u8>>>) -> Seq<u8> {
    match o {
        Some(Some(content)) => frame(status_success()) + content_frames(content) + flush_frame(),
        Some(None) => frame(status_error()) + flush_frame(),
        None => frame(status_abort()) + flush_frame(),
    }
}

impl Outcome {
    /// `Some(Some(content))` for a converted file, `Some(None)` for a
    /// failed one, `None` for one that is skipped.
    pub open spec fn view(&self) -> Option<Option<Seq<u8>>> {
        match self {
            Outcome::Converted(c) => Some(Some(c@)),
            Outcome::Failed => Some(None),
            Outcome::Skipped => None,
        }
    }
}

/// Says what a text packet is.
pub fn classify_line(s: &[u8]) -> (r: Line)
    ensures
        r == classify(s@),
{
    let n = chomped_len(s);
    if matches_at(s, 0, n, &client_line_bytes()) {
        Line::Client
    } else if matches_at(s, 0, n, &version_line_bytes()) {
        Line::Version
    } else if matches_at(s, 0, n, &cap_clean_bytes()) {
        Line::CapClean
    } else if matches_at(s, 0, n, &cap_smudge_bytes()) {
        Line::CapSmudge
    } else if matches_at(s, 0, n, &cmd_clean_bytes()) {
        Line::CmdClean
    } else if matches_at(s, 0, n, &cmd_smudge_bytes()) {
        Line::CmdSmudge
    } else if begins(s, n, &pathname_key_bytes()) {
        Line::Pathname
    } else {
        Line::Other
    }
}

fn copy_range(s: &[u8], from: usize, to: usize) -> (r: Vec<u8>)
    requires
        from <= to <= s@.len(),
    ensures
        r@ == s@.subrange(from as int, to as int),
{
    let mut out: Vec<u8> = Vec::new();
    let mut k: usize = from;
    while k < to
        invariant
            from <= k <= to,
            to <= s@.len(),
            out@ == s@.subrange(from as int, k as int),
        decreases to - k,
    {
        out.push(s[k]);
        k += 1;
        assert(out@ =~= s@.subrange(from as int, k as int));
    }
    assert(out@ =~= s@.subrange(from as int, to as int));
    out
}

/// Appends the content of a file as data packets.
pub fn write_content(out: &mut Vec<u8>, content: &[u8])
    ensures
        final(out)@ == old(out)@ + content_frames(content@),
{
    let n = content.len();
    let mut k: usize = 0;
    assert(content@.subrange(0, n as int) =~= content@);
    while n - k > MAX_PAYLOAD
        invariant
            k <= n,
            n == content@.len(),
            out@ + content_frames(content@.subrange(k as int, n as int)) == old(out)@
                + content_frames(content@),
        decreases n - k,
    {
        let chunk = copy_range(content, k, k + MAX_PAYLOAD);
        let ghost rest = content@.subrange(k as int, n as int);
        let ghost before = out@;
        let _ = write_packet(out, chunk.as_slice());
        proof {
            assert(rest.subrange(0, MAX_PAYLOAD as int) =~= chunk@);
            assert(rest.subrange(MAX_PAYLOAD as int, rest.len() as int) =~= content@.subrange(
                k + MAX_PAYLOAD,
                n as int,
            ));
            assert(before + content_frames(rest) =~= before + frame(chunk@) + content_frames(
                content@.subrange(k + MAX_PAYLOAD, n as int),
            ));
        }
        k += MAX_PAYLOAD;
    }
    if n - k > 0 {
        let chunk = copy_range(content, k, n);
        let _ = write_packet(out, chunk.as_slice());
    } else {
        assert(out@ =~= out@ + content_frames(content@.subrange(k as int, n as int)));
    }
}

/// The bytes to send for an action.
pub fn wire_bytes(a: Action) -> (r: Vec<u8>)
    ensures
        r@ == wire(a),
{
    let mut out: Vec<u8> = Vec::new();
    match a {
        Action::Welcome => {
            let _ = write_packet(&mut out, server_line_bytes().as_slice());
            let _ = write_packet(&mut out, version_reply_bytes().as_slice());
            write_flush(&mut out);
            assert(out@ =~= wire(a));
        },
        Action::Capabilities => {
            let _ = write_packet(&mut out, cap_clean_reply_bytes().as_slice());
            let _ = write_packet(&mut out, cap_smudge_reply_bytes().as_slice());
            write_flush(&mut out);
            assert(out@ =~= wire(a));
        },
        Action::StatusError => {
            let _ = write_packet(&mut out, status_error_bytes().as_slice());
            write_flush(&mut out);
            assert(out@ =~= wire(a));
        },
        _ => {},
    }
    out
}

/// The bytes of the reply for one file.
pub fn response_bytes(o: &Outcome) -> (r: Vec<u8>)
    ensures
        r@ == response(o.view()),
{
    let mut out: Vec<u8> = Vec::new();
    match o {
        Outcome::Converted(c) => {
            let _ = write_packet(&mut out, status_success_bytes().as_slice());
            write_content(&mut out, c.as_slice());
            write_flush(&mut out);
        },
        Outcome::Failed => {
            let _ = write_packet(&mut out, status_error_bytes().as_slice());
            write_flush(&mut out);
        },
        Outcome::Skipped => {
            let _ = write_packet(&mut out, status_abort_bytes().as_slice());
            write_flush(&mut out);
        },
    }
    assert(out@ =~= response(o.view()));
    out
}

impl Engine {
    /// An engine before the first packet.
    pub fn new() -> (e: Engine)
        ensures
            e@ == EngineView::start(),
    {
        Engine {
            state: State::AwaitHandshake,
            saw_client: false,
            saw_version: false,
            clean: false,
            smudge: false,
            partial: false,
            command: None,
            pathname: None,
            content: Vec::new(),
        }
    }

    /// Where the conversation stands.
    pub fn state(&self) -> (s: State)
        ensures
            s == self@.state,
    {
        self.state
    }

    fn reset(&mut self, state: State)
        ensures
            final(self)@ == old(self)@.at(state),
    {
        self.state = state;
        self.partial = false;
        self.command = None;
        self.pathname = None;
        self.content = Vec::new();
    }

    /// Takes a data packet.
    pub fn on_data(&mut self, payload: &[u8]) -> (a: Action)
        ensures
            (final(self)@, a) == old(self)@.after_data(payload@),
    {
        match self.state {
            State::AwaitHandshake => {
                let line = classify_line(payload);
                if line == Line::Client {
                    self.saw_client = true;
                }
                if line == Line::Version {
                    self.saw_version = true;
                }
                self.partial = true;
                Action::Continue
            },
            State::Ready => {
                let line = classify_line(payload);
                if line == Line::CapClean {
                    self.clean = true;
                }
                if line == Line::CapSmudge {
                    self.smudge = true;
                }
                self.partial = true;
                Action::Continue
            },
            State::AwaitCommand => {
                let line = classify_line(payload);
                if line == Line::CmdClean {
                    self.command = Some(Command::Clean);
                } else if line == Line::CmdSmudge {
                    self.command = Some(Command::Smudge);
                }
                if line == Line::Pathname {
                    let n = chomped_len(payload);
                    let key = pathname_key_bytes();
                    let path = copy_range(payload, key.len(), n);
                    assert(path@ =~= path_of(payload@));
                    self.pathname = Some(path);
                }
                self.partial = true;
                Action::Continue
            },
            State::AwaitContent => {
                self.content.extend_from_slice(payload);
                self.partial = true;
                assert(self@.content == old(self)@.content + payload@);
                Action::Continue
            },
            State::Responding => {
                self.reset(State::Terminated);
                Action::Fail
            },
            State::Terminated => Action::Continue,
        }
    }

    /// Takes a flush packet.
    pub fn on_flush(&mut self) -> (a: Action)
        ensures
            (final(self)@, a) == old(self)@.after_flush(),
    {
        match self.state {
            State::AwaitHandshake => {
                if self.saw_client && self.saw_version {
                    self.reset(State::Ready);
                    Action::Welcome
                } else {
                    self.reset(State::Terminated);
                    Action::Fail
                }
            },
            State::Ready => {
                if self.clean && self.smudge {
                    self.reset(State::AwaitCommand);
                    Action::Capabilities
                } else {
                    self.reset(State::Terminated);
                    Action::Fail
                }
            },
            State::AwaitCommand => {
                if self.command.is_some() && self.pathname.is_some() {
                    self.state = State::AwaitContent;
                    self.partial = false;
                    Action::Continue
                } else {
                    self.reset(State::AwaitCommand);
                    Action::StatusError
                }
            },
            State::AwaitContent => {
                self.state = State::Responding;
                self.partial = false;
                Action::Run
            },
            State::Responding => {
                self.reset(State::Terminated);
                Action::Fail
            },
            State::Terminated => Action::Continue,
        }
    }

    /// Takes the end of the stream, met at a packet boundary.
    pub fn on_closed(&mut self) -> (a: Action)
        ensures
            (final(self)@, a) == old(self)@.after_closed(),
    {
        match self.state {
            State::Terminated => Action::Continue,
            State::AwaitCommand => {
                let partial = self.partial;
                self.reset(State::Terminated);
                if partial {
                    Action::Fail
                } else {
                    Action::Done
                }
            },
            _ => {
                self.reset(State::Terminated);
                Action::Fail
            },
        }
    }

    /// Takes a packet that could not be framed.
    pub fn on_broken(&mut self) -> (a: Action)
        ensures
            (final(self)@, a) == old(self)@.after_broken(),
    {
        match self.state {
            State::Terminated => Action::Continue,
            _ => {
                self.reset(State::Terminated);
                Action::Fail
            },
        }
    }

    /// The file in hand: its command, its pathname and its content, once
    /// all three are there.
    pub fn request(&self) -> (r: Option<(Command, Vec<u8>, Vec<u8>)>)
        ensures
            match r {
                Some((c, p, d)) => self@.state == State::Responding && self@.command == Some(c)
                    && self@.pathname == Some(p@) && self@.content == d@,
                None => self@.state != State::Responding || self@.command.is_none()
                    || self@.pathname.is_none(),
            },
    {
        if self.state != State::Responding {
            return None;
        }
        match (&self.command, &self.pathname) {
            (Some(c), Some(p)) => {
                let path = copy_range(p.as_slice(), 0, p.len());
                let data = copy_range(self.content.as_slice(), 0, self.content.len());
                assert(path@ =~= p@);
                assert(data@ =~= self.content@);
                Some((*c, path, data))
            },
            _ => None,
        }
    }

    /// Takes the outcome of the conversion and gives the reply to send.
    /// Outside `Responding` nothing changes and nothing is to be sent.
    pub fn finish(&mut self, o: &Outcome) -> (r: Vec<u8>)
        ensures
            old(self)@.state == State::Responding ==> final(self)@ == old(self)@.at(
                State::AwaitCommand,
            ) && r@ == response(o.view()),
            old(self)@.state != State::Responding ==> final(self)@ == old(self)@ && r@
                == Seq::<u8>::empty(),
    {
        if self.state != State::Responding {
            return Vec::new();
        }
        self.reset(State::AwaitCommand);
        response_bytes(o)
    }
}

/// A host that ends its capability list without both `clean` and `smudge`
/// ends the conversation: the engine asks for nothing to be sent, and from
/// then on no packet makes it run a file or send anything.
pub proof fn lemma_handshake_failure(v: EngineView, s: Seq<u8>)
    requires
        v.state == State::Ready,
        !(v.clean && v.smudge),
    ensures
        v.after_flush().1 == Action::Fail,
        wire(Action::Fail) == Seq::<u8>::empty(),
        v.after_flush().0.state == State::Terminated,
        v.after_flush().0.after_data(s) == (v.after_flush().0, Action::Continue),
        v.after_flush().0.after_flush() == (v.after_flush().0, Action::Continue),
        v.after_flush().0.after_closed() == (v.after_flush().0, Action::Continue),
        v.after_flush().0.after_broken() == (v.after_flush().0, Action::Continue),
        wire(Action::Continue) == Seq::<u8>::empty(),
{
}

/// Content that comes where a command is due is answered with
/// `status=error`, and the engine awaits the next command.
pub proof fn lemma_content_without_command(v: EngineView, s: Seq<u8>)
    requires
        v.state == State::AwaitCommand,
        v.command.is_none(),
        classify(s) != Line::CmdClean,
        classify(s) != Line::CmdSmudge,
    ensures
        v.after_data(s).1 == Action::Continue,
        v.after_data(s).0.after_flush() == (v.at(State::AwaitCommand), Action::StatusError),
        wire(Action::StatusError) == frame(status_error()) + flush_frame(),
{
}

} // verus!
