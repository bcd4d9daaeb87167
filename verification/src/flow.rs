use vstd::prelude::*;
use vstd::string::StringExecFns;
use vstd::utf8::encode_utf8;
use crate::auth_code::{extract_auth_code, spec_extract_auth_code};
use crate::text::{
    contains_text, join_lines, join_with_newlines, lowercase_text, occurs_in, opt_text, string_texts,
    to_lowercase,
};

verus! {

/// The port where the local server listens for the authorization code.
pub const LOCAL_SERVER_PORT: u16 = 47828;

/// How long the server waits for the browser's redirect, in nanoseconds (five minutes).
pub const AUTH_TIMEOUT_NANOS: u128 = 300_000_000_000;

/// How often a waiting reminder is printed, in nanoseconds (thirty seconds).
pub const REMINDER_INTERVAL_NANOS: u128 = 30_000_000_000;

/// Pause between two polls of the listener when no connection is pending, in milliseconds.
pub const ACCEPT_RETRY_MILLIS: u64 = 100;

/// Read timeout on the accepted connection, in seconds.
pub const READ_TIMEOUT_SECS: u64 = 10;

/// The operating system family, which decides how a browser is opened.
#[derive(Clone, Copy, Debug, PartialEq, Eq, Structural)]
pub enum Platform {
    Windows,
    MacOs,
    /// A Unix other than macOS (Linux, the BSDs, WSL).
    OtherUnix,
    /// A platform with no known way to open a browser.
    Other,
}

/// Which browser launch the flow waits on.
#[derive(Clone, Copy, Debug, PartialEq, Eq, Structural)]
pub enum LaunchStage {
    /// `rundll32 url.dll,FileProtocolHandler <url>` (Windows).
    Rundll32,
    /// `open <url>` (macOS).
    Open,
    /// `xdg-open <url>` (Unix).
    XdgOpen,
    /// Reading the kernel version text, to tell whether this is WSL.
    OsVersion,
    /// `powershell.exe -NoProfile -Command Start-Process "<url>"` (WSL).
    PowerShell,
}

/// How a flow ended.
#[derive(Clone, Copy, Debug, PartialEq, Eq, Structural)]
pub enum Outcome {
    /// The request was read and answered; the code is whatever it carried.
    Answered,
    /// No browser could be opened.
    BrowserNotOpened,
    /// The listener could not be set up.
    ServerFailed,
    /// Nobody connected within the timeout.
    TimedOut,
    /// Accepting a connection failed.
    AcceptFailed,
    /// Reading the request or answering it failed.
    ExchangeFailed,
}

/// What polling the listener gave.
#[derive(Clone, Copy, Debug, PartialEq, Eq, Structural)]
pub enum AcceptOutcome {
    Connected,
    WouldBlock,
    Failed,
}

/// Where the flow stands: the outside work it waits on, or its end.
#[derive(Clone, Copy, Debug, PartialEq, Eq, Structural)]
pub enum Phase {
    Launching(LaunchStage),
    Binding,
    SettingNonblocking,
    Polling,
    Accepting { remind: bool },
    Sleeping,
    SettingReadTimeout,
    Reading,
    Writing,
    Flushing,
    ShuttingDown,
    Finished(Outcome),
}

/// The decisions of opening a browser on an authorization URL and receiving the code
/// that the redirect carries to a local server. It hands out one action at a time and
/// takes back what that action gave.
#[derive(Debug)]
pub struct AuthFlow {
    url: String,
    phase: Phase,
    lines: Vec<String>,
    code: Option<String>,
}

pub struct AuthFlowView {
    pub url: Seq<char>,
    pub phase: Phase,
    /// The request lines read so far.
    pub lines: Seq<Seq<char>>,
    /// The code found in the request, once it has been read.
    pub code: Option<Seq<char>>,
}

impl View for AuthFlow {
    type V = AuthFlowView;

    closed spec fn view(&self) -> AuthFlowView {
        AuthFlowView {
            url: self.url@,
            phase: self.phase,
            lines: string_texts(self.lines@),
            code: opt_text(self.code),
        }
    }
}

/// What the outside work of the last action gave.
#[derive(Debug, PartialEq, Eq)]
pub enum FlowEvent {
    /// A process was started (`true`) or could not be (`false`).
    Spawned(bool),
    /// The kernel version text, or `None` when it could not be read.
    OsVersion(Option<String>),
    /// A bind, a mode change, a timeout setting, a write, a flush or a shutdown succeeded
    /// (`true`) or failed (`false`).
    Completed(bool),
    /// Time since the server started waiting, and since the last reminder (or the start).
    Clock { since_start_nanos: u128, since_reminder_nanos: u128 },
    Accepted(AcceptOutcome),
    Slept,
    /// The next request line, without its line ending; `None` at the end of the stream
    /// or on a read error.
    Line(Option<String>),
}

pub enum EventView {
    Spawned(bool),
    OsVersion(Option<Seq<char>>),
    Completed(bool),
    Clock { since_start_nanos: u128, since_reminder_nanos: u128 },
    Accepted(AcceptOutcome),
    Slept,
    Line(Option<Seq<char>>),
}

impl View for FlowEvent {
    type V = EventView;

    open spec fn view(&self) -> EventView {
        match self {
            FlowEvent::Spawned(ok) => EventView::Spawned(*ok),
            FlowEvent::OsVersion(t) => EventView::OsVersion(opt_text(*t)),
            FlowEvent::Completed(ok) => EventView::Completed(*ok),
            FlowEvent::Clock { since_start_nanos, since_reminder_nanos } => EventView::Clock {
                since_start_nanos: *since_start_nanos,
                since_reminder_nanos: *since_reminder_nanos,
            },
            FlowEvent::Accepted(a) => EventView::Accepted(*a),
            FlowEvent::Slept => EventView::Slept,
            FlowEvent::Line(l) => EventView::Line(opt_text(*l)),
        }
    }
}

/// The outside work the flow asks for next.
#[derive(Debug, PartialEq, Eq)]
pub enum FlowAction {
    /// Start `program` with `args`; answer with `Spawned`.
    Spawn { program: String, args: Vec<String> },
    /// Read the kernel version text (`/proc/version`); answer with `OsVersion`.
    ReadOsVersion,
    /// Announce the wait, then bind a TCP listener; answer with `Completed`.
    Bind { host: String, port: u16 },
    /// Make the listener non-blocking; answer with `Completed`.
    SetNonblocking,
    /// Read the clocks; answer with `Clock`.
    ReadClock,
    /// When `remind`, print a reminder and restart the reminder clock; then poll the
    /// listener once; answer with `Accepted`.
    Accept { remind: bool },
    /// Sleep; answer with `Slept`.
    Sleep { millis: u64 },
    /// Set the read timeout of the connection; answer with `Completed`.
    SetReadTimeout { secs: u64 },
    /// Read the next request line; answer with `Line`.
    ReadLine,
    /// Write all of `bytes` to the connection; answer with `Completed`.
    Write { bytes: Vec<u8> },
    /// Flush the connection; answer with `Completed`.
    Flush,
    /// Shut both directions of the connection down; answer with `Completed`.
    Shutdown,
    /// The flow is over: `code` is what it gives back.
    Finish { code: Option<String>, outcome: Outcome },
}

pub enum ActionView {
    Spawn { program: Seq<char>, args: Seq<Seq<char>> },
    ReadOsVersion,
    Bind { host: Seq<char>, port: u16 },
    SetNonblocking,
    ReadClock,
    Accept { remind: bool },
    Sleep { millis: u64 },
    SetReadTimeout { secs: u64 },
    ReadLine,
    Write { bytes: Seq<u8> },
    Flush,
    Shutdown,
    Finish { code: Option<Seq<char>>, outcome: Outcome },
}

impl View for FlowAction {
    type V = ActionView;

    open spec fn view(&self) -> ActionView {
        match self {
            FlowAction::Spawn { program, args } => ActionView::Spawn {
                program: program@,
                args: string_texts(args@),
            },
            FlowAction::ReadOsVersion => ActionView::ReadOsVersion,
            FlowAction::Bind { host, port } => ActionView::Bind { host: host@, port: *port },
            FlowAction::SetNonblocking => ActionView::SetNonblocking,
            FlowAction::ReadClock => ActionView::ReadClock,
            FlowAction::Accept { remind } => ActionView::Accept { remind: *remind },
            FlowAction::Sleep { millis } => ActionView::Sleep { millis: *millis },
            FlowAction::SetReadTimeout { secs } => ActionView::SetReadTimeout { secs: *secs },
            FlowAction::ReadLine => ActionView::ReadLine,
            FlowAction::Write { bytes } => ActionView::Write { bytes: bytes@ },
            FlowAction::Flush => ActionView::Flush,
            FlowAction::Shutdown => ActionView::Shutdown,
            FlowAction::Finish { code, outcome } => ActionView::Finish {
                code: opt_text(*code),
                outcome: *outcome,
            },
        }
    }
}

} // verus!

verus! {

/// The page the browser shows once the redirect has been received.
pub open spec fn completion_page() -> Seq<char> {
    "<!DOCTYPE html>\n<html><head><title>Auth Complete</title></head>\n<body><p>Authentication complete. You may close this tab.</p></body>\n</html>"@
}

/// The ASCII decimal digits of `n`, most significant first, without leading zeros.
pub open spec fn decimal_digits(n: nat) -> Seq<u8>
    decreases n,
{
    if n < 10 {
        seq![(48 + n) as u8]
    } else {
        decimal_digits(n / 10).push((48 + n % 10) as u8)
    }
}

/// An HTTP/1.1 `200 OK` response with an HTML `body`, whose `Content-Length` is the byte
/// length of the body.
pub open spec fn ok_response(body: Seq<u8>) -> Seq<u8> {
    encode_utf8("HTTP/1.1 200 OK\r\nContent-Type: text/html\r\nContent-Length: "@)
        + decimal_digits(body.len()) + encode_utf8("\r\n\r\n"@) + body
}

/// The kernel version text names Microsoft in some letter case: the system is WSL.
pub open spec fn is_wsl_text(version: Seq<char>) -> bool {
    occurs_in(lowercase_text(version), "microsoft"@)
}

/// The PowerShell command that opens `url` in the default browser.
pub open spec fn start_process_command(url: Seq<char>) -> Seq<char> {
    "Start-Process \""@ + url + "\""@
}

pub open spec fn with_phase(s: AuthFlowView, p: Phase) -> AuthFlowView {
    AuthFlowView { url: s.url, phase: p, lines: s.lines, code: s.code }
}

/// The flow ends with `o` and no code.
pub open spec fn finish(s: AuthFlowView, o: Outcome) -> AuthFlowView {
    AuthFlowView { url: s.url, phase: Phase::Finished(o), lines: s.lines, code: None }
}

/// The request head is complete: extract the code from it and answer.
pub open spec fn request_read(s: AuthFlowView) -> AuthFlowView {
    AuthFlowView {
        url: s.url,
        phase: Phase::Writing,
        lines: s.lines,
        code: spec_extract_auth_code(join_lines(s.lines)),
    }
}

/// Where a flow on `url` starts on `platform`: with the platform's first browser launch;
/// on a platform with no way to open a browser, finished with no browser opened.
pub open spec fn spec_start(url: Seq<char>, platform: Platform) -> AuthFlowView {
    AuthFlowView {
        url: url,
        phase: match platform {
            Platform::Windows => Phase::Launching(LaunchStage::Rundll32),
            Platform::MacOs => Phase::Launching(LaunchStage::Open),
            Platform::OtherUnix => Phase::Launching(LaunchStage::XdgOpen),
            Platform::Other => Phase::Finished(Outcome::BrowserNotOpened),
        },
        lines: Seq::empty(),
        code: None,
    }
}

/// The next state, given what the outside work of the current action gave. An event
/// that does not answer the current action leaves the state unchanged.
pub open spec fn spec_step(s: AuthFlowView, e: EventView) -> AuthFlowView {
    match s.phase {
        Phase::Launching(LaunchStage::Rundll32) | Phase::Launching(LaunchStage::Open) => match e {
            EventView::Spawned(ok) => if ok {
                with_phase(s, Phase::Binding)
            } else {
                finish(s, Outcome::BrowserNotOpened)
            },
            _ => s,
        },
        Phase::Launching(LaunchStage::XdgOpen) => match e {
            EventView::Spawned(ok) => if ok {
                with_phase(s, Phase::Binding)
            } else {
                with_phase(s, Phase::Launching(LaunchStage::OsVersion))
            },
            _ => s,
        },
        Phase::Launching(LaunchStage::OsVersion) => match e {
            EventView::OsVersion(t) => if t matches Some(v) && is_wsl_text(v) {
                with_phase(s, Phase::Launching(LaunchStage::PowerShell))
            } else {
                finish(s, Outcome::BrowserNotOpened)
            },
            _ => s,
        },
        Phase::Launching(LaunchStage::PowerShell) => match e {
            EventView::Spawned(ok) => if ok {
                with_phase(s, Phase::Binding)
            } else {
                finish(s, Outcome::BrowserNotOpened)
            },
            _ => s,
        },
        Phase::Binding => match e {
            EventView::Completed(ok) => if ok {
                with_phase(s, Phase::SettingNonblocking)
            } else {
                finish(s, Outcome::ServerFailed)
            },
            _ => s,
        },
        Phase::SettingNonblocking => match e {
            EventView::Completed(ok) => if ok {
                with_phase(s, Phase::Polling)
            } else {
                finish(s, Outcome::ServerFailed)
            },
            _ => s,
        },
        Phase::Polling => match e {
            EventView::Clock { since_start_nanos, since_reminder_nanos } => if since_start_nanos
                > AUTH_TIMEOUT_NANOS {
                finish(s, Outcome::TimedOut)
            } else {
                with_phase(
                    s,
                    Phase::Accepting { remind: since_reminder_nanos >= REMINDER_INTERVAL_NANOS },
                )
            },
            _ => s,
        },
        Phase::Accepting { .. } => match e {
            EventView::Accepted(a) => match a {
                AcceptOutcome::Connected => with_phase(s, Phase::SettingReadTimeout),
                AcceptOutcome::WouldBlock => with_phase(s, Phase::Sleeping),
                AcceptOutcome::Failed => finish(s, Outcome::AcceptFailed),
            },
            _ => s,
        },
        Phase::Sleeping => match e {
            EventView::Slept => with_phase(s, Phase::Polling),
            _ => s,
        },
        Phase::SettingReadTimeout => match e {
            EventView::Completed(ok) => if ok {
                with_phase(s, Phase::Reading)
            } else {
                finish(s, Outcome::ExchangeFailed)
            },
            _ => s,
        },
        Phase::Reading => match e {
            EventView::Line(l) => match l {
                Some(line) => if line.len() == 0 {
                    request_read(s)
                } else {
                    AuthFlowView { url: s.url, phase: s.phase, lines: s.lines.push(line), code: s.code }
                },
                None => request_read(s),
            },
            _ => s,
        },
        Phase::Writing => match e {
            EventView::Completed(ok) => if ok {
                with_phase(s, Phase::Flushing)
            } else {
                finish(s, Outcome::ExchangeFailed)
            },
            _ => s,
        },
        Phase::Flushing => match e {
            EventView::Completed(ok) => if ok {
                with_phase(s, Phase::ShuttingDown)
            } else {
                finish(s, Outcome::ExchangeFailed)
            },
            _ => s,
        },
        Phase::ShuttingDown => match e {
            EventView::Completed(ok) => if ok {
                with_phase(s, Phase::Finished(Outcome::Answered))
            } else {
                finish(s, Outcome::ExchangeFailed)
            },
            _ => s,
        },
        Phase::Finished(_) => s,
    }
}

/// The outside work a state asks for.
pub open spec fn spec_action(s: AuthFlowView) -> ActionView {
    match s.phase {
        Phase::Launching(LaunchStage::Rundll32) => ActionView::Spawn {
            program: "rundll32"@,
            args: seq!["url.dll,FileProtocolHandler"@, s.url],
        },
        Phase::Launching(LaunchStage::Open) => ActionView::Spawn {
            program: "open"@,
            args: seq![s.url],
        },
        Phase::Launching(LaunchStage::XdgOpen) => ActionView::Spawn {
            program: "xdg-open"@,
            args: seq![s.url],
        },
        Phase::Launching(LaunchStage::OsVersion) => ActionView::ReadOsVersion,
        Phase::Launching(LaunchStage::PowerShell) => ActionView::Spawn {
            program: "powershell.exe"@,
            args: seq!["-NoProfile"@, "-Command"@, start_process_command(s.url)],
        },
        Phase::Binding => ActionView::Bind { host: "127.0.0.1"@, port: LOCAL_SERVER_PORT },
        Phase::SettingNonblocking => ActionView::SetNonblocking,
        Phase::Polling => ActionView::ReadClock,
        Phase::Accepting { remind } => ActionView::Accept { remind },
        Phase::Sleeping => ActionView::Sleep { millis: ACCEPT_RETRY_MILLIS },
        Phase::SettingReadTimeout => ActionView::SetReadTimeout { secs: READ_TIMEOUT_SECS },
        Phase::Reading => ActionView::ReadLine,
        Phase::Writing => ActionView::Write { bytes: ok_response(encode_utf8(completion_page())) },
        Phase::Flushing => ActionView::Flush,
        Phase::ShuttingDown => ActionView::Shutdown,
        Phase::Finished(o) => ActionView::Finish { code: s.code, outcome: o },
    }
}

} // verus!

verus! {

fn push_bytes(v: &mut Vec<u8>, b: &[u8])
    ensures
        final(v)@ == old(v)@ + b@,
{
    let mut i: usize = 0;
    while i < b.len()
        invariant
            i <= b@.len(),
            v@ == old(v)@ + b@.take(i as int),
        decreases b@.len() - i,
    {
        v.push(b[i]);
        assert(b@.take(i + 1) =~= b@.take(i as int).push(b@[i as int]));
        i = i + 1;
    }
    assert(b@.take(b@.len() as int) =~= b@);
}

fn push_decimal(v: &mut Vec<u8>, n: usize)
    ensures
        final(v)@ == old(v)@ + decimal_digits(n as nat),
    decreases n,
{
    if n >= 10 {
        push_decimal(v, n / 10);
    }
    let d = (n % 10) as u8;
    v.push(48 + d);
    assert(v@ =~= old(v)@ + decimal_digits(n as nat));
}

/// The HTTP response that answers the browser: `200 OK` with `body` as HTML.
pub fn ok_response_bytes(body: &str) -> (r: Vec<u8>)
    ensures
        r@ == ok_response(encode_utf8(body@)),
{
    let mut r: Vec<u8> = Vec::new();
    push_bytes(&mut r, "HTTP/1.1 200 OK\r\nContent-Type: text/html\r\nContent-Length: ".as_bytes());
    let b = body.as_bytes();
    push_decimal(&mut r, b.len());
    push_bytes(&mut r, "\r\n\r\n".as_bytes());
    push_bytes(&mut r, b);
    r
}

/// Whether a kernel version text marks the system as WSL: its lowercase form holds
/// `microsoft`.
pub fn is_wsl(version: &str) -> (r: bool)
    ensures
        r == is_wsl_text(version@),
{
    let lower = to_lowercase(version);
    contains_text(lower.as_str(), "microsoft")
}

impl AuthFlow {
    /// A flow that opens `url` in a browser on `platform`, then waits for the code.
    pub fn new(url: &str, platform: Platform) -> (f: AuthFlow)
        ensures
            f@ == spec_start(url@, platform),
    {
        let phase = match platform {
            Platform::Windows => Phase::Launching(LaunchStage::Rundll32),
            Platform::MacOs => Phase::Launching(LaunchStage::Open),
            Platform::OtherUnix => Phase::Launching(LaunchStage::XdgOpen),
            Platform::Other => Phase::Finished(Outcome::BrowserNotOpened),
        };
        let f = AuthFlow { url: url.to_owned(), phase, lines: Vec::new(), code: None };
        assert(f@.lines =~= Seq::<Seq<char>>::empty());
        f
    }

    /// A flow after a browser command was started (`started`) or failed to start: the
    /// server is started only in the first case.
    pub fn after_browser_command(started: bool) -> (f: AuthFlow)
        ensures
            f@.url == Seq::<char>::empty(),
            f@.lines == Seq::<Seq<char>>::empty(),
            f@.code is None,
            f@.phase == if started {
                Phase::Binding
            } else {
                Phase::Finished(Outcome::BrowserNotOpened)
            },
    {
        let phase = if started {
            Phase::Binding
        } else {
            Phase::Finished(Outcome::BrowserNotOpened)
        };
        let f = AuthFlow { url: String::new(), phase, lines: Vec::new(), code: None };
        assert(f@.lines =~= Seq::<Seq<char>>::empty());
        f
    }

    /// Where the flow stands.
    pub fn phase(&self) -> (p: Phase)
        ensures
            p == self@.phase,
    {
        self.phase
    }

    /// The outside work the flow asks for now.
    pub fn action(&self) -> (a: FlowAction)
        ensures
            a@ == spec_action(self@),
    {
        match self.phase {
            Phase::Launching(LaunchStage::Rundll32) => {
                let args = vec![String::from_str("url.dll,FileProtocolHandler"), self.url.clone()];
                assert(string_texts(args@) =~= seq!["url.dll,FileProtocolHandler"@, self.url@]);
                FlowAction::Spawn { program: String::from_str("rundll32"), args }
            },
            Phase::Launching(LaunchStage::Open) => {
                let args = vec![self.url.clone()];
                assert(string_texts(args@) =~= seq![self.url@]);
                FlowAction::Spawn { program: String::from_str("open"), args }
            },
            Phase::Launching(LaunchStage::XdgOpen) => {
                let args = vec![self.url.clone()];
                assert(string_texts(args@) =~= seq![self.url@]);
                FlowAction::Spawn { program: String::from_str("xdg-open"), args }
            },
            Phase::Launching(LaunchStage::OsVersion) => FlowAction::ReadOsVersion,
            Phase::Launching(LaunchStage::PowerShell) => {
                let mut command = String::from_str("Start-Process \"");
                command.append(self.url.as_str());
                command.append("\"");
                let args = vec![String::from_str("-NoProfile"), String::from_str("-Command"), command];
                assert(string_texts(args@) =~= seq!["-NoProfile"@, "-Command"@, start_process_command(self.url@)]);
                FlowAction::Spawn { program: String::from_str("powershell.exe"), args }
            },
            Phase::Binding => FlowAction::Bind { host: String::from_str("127.0.0.1"), port: LOCAL_SERVER_PORT },
            Phase::SettingNonblocking => FlowAction::SetNonblocking,
            Phase::Polling => FlowAction::ReadClock,
            Phase::Accepting { remind } => FlowAction::Accept { remind },
            Phase::Sleeping => FlowAction::Sleep { millis: ACCEPT_RETRY_MILLIS },
            Phase::SettingReadTimeout => FlowAction::SetReadTimeout { secs: READ_TIMEOUT_SECS },
            Phase::Reading => FlowAction::ReadLine,
            Phase::Writing => FlowAction::Write {
                bytes: ok_response_bytes(
                    "<!DOCTYPE html>\n<html><head><title>Auth Complete</title></head>\n<body><p>Authentication complete. You may close this tab.</p></body>\n</html>",
                ),
            },
            Phase::Flushing => FlowAction::Flush,
            Phase::ShuttingDown => FlowAction::Shutdown,
            Phase::Finished(o) => FlowAction::Finish { code: self.code.clone(), outcome: o },
        }
    }

    fn finish(&mut self, o: Outcome)
        ensures
            final(self)@ == finish(old(self)@, o),
    {
        self.phase = Phase::Finished(o);
        self.code = None;
    }

    fn set_phase(&mut self, p: Phase)
        ensures
            final(self)@ == with_phase(old(self)@, p),
    {
        self.phase = p;
    }

    /// Takes what the current action gave and returns the next action.
    pub fn step(&mut self, event: FlowEvent) -> (action: FlowAction)
        ensures
            final(self)@ == spec_step(old(self)@, event@),
            action@ == spec_action(final(self)@),
    {
        match self.phase {
            Phase::Launching(LaunchStage::Rundll32) | Phase::Launching(LaunchStage::Open) => {
                if let FlowEvent::Spawned(ok) = event {
                    if ok {
                        self.set_phase(Phase::Binding);
                    } else {
                        self.finish(Outcome::BrowserNotOpened);
                    }
                }
            },
            Phase::Launching(LaunchStage::XdgOpen) => {
                if let FlowEvent::Spawned(ok) = event {
                    if ok {
                        self.set_phase(Phase::Binding);
                    } else {
                        self.set_phase(Phase::Launching(LaunchStage::OsVersion));
                    }
                }
            },
            Phase::Launching(LaunchStage::OsVersion) => {
                if let FlowEvent::OsVersion(t) = event {
                    let wsl = match &t {
                        Some(v) => is_wsl(v.as_str()),
                        None => false,
                    };
                    if wsl {
                        self.set_phase(Phase::Launching(LaunchStage::PowerShell));
                    } else {
                        self.finish(Outcome::BrowserNotOpened);
                    }
                }
            },
            Phase::Launching(LaunchStage::PowerShell) => {
                if let FlowEvent::Spawned(ok) = event {
                    if ok {
                        self.set_phase(Phase::Binding);
                    } else {
                        self.finish(Outcome::BrowserNotOpened);
                    }
                }
            },
            Phase::Binding => {
                if let FlowEvent::Completed(ok) = event {
                    if ok {
                        self.set_phase(Phase::SettingNonblocking);
                    } else {
                        self.finish(Outcome::ServerFailed);
                    }
                }
            },
            Phase::SettingNonblocking => {
                if let FlowEvent::Completed(ok) = event {
                    if ok {
                        self.set_phase(Phase::Polling);
                    } else {
                        self.finish(Outcome::ServerFailed);
                    }
                }
            },
            Phase::Polling => {
                if let FlowEvent::Clock { since_start_nanos, since_reminder_nanos } = event {
                    if since_start_nanos > AUTH_TIMEOUT_NANOS {
                        self.finish(Outcome::TimedOut);
                    } else {
                        self.set_phase(
                            Phase::Accepting {
                                remind: since_reminder_nanos >= REMINDER_INTERVAL_NANOS,
                            },
                        );
                    }
                }
            },
            Phase::Accepting { .. } => {
                if let FlowEvent::Accepted(a) = event {
                    match a {
                        AcceptOutcome::Connected => self.set_phase(Phase::SettingReadTimeout),
                        AcceptOutcome::WouldBlock => self.set_phase(Phase::Sleeping),
                        AcceptOutcome::Failed => self.finish(Outcome::AcceptFailed),
                    }
                }
            },
            Phase::Sleeping => {
                if let FlowEvent::Slept = event {
                    self.set_phase(Phase::Polling);
                }
            },
            Phase::SettingReadTimeout => {
                if let FlowEvent::Completed(ok) = event {
                    if ok {
                        self.set_phase(Phase::Reading);
                    } else {
                        self.finish(Outcome::ExchangeFailed);
                    }
                }
            },
            Phase::Reading => {
                if let FlowEvent::Line(l) = event {
                    match l {
                        Some(line) => {
                            if line.as_str().is_empty() {
                                self.request_read();
                            } else {
                                self.lines.push(line);
                                assert(string_texts(self.lines@) =~= string_texts(old(self).lines@).push(line@));
                            }
                        },
                        None => self.request_read(),
                    }
                }
            },
            Phase::Writing => {
                if let FlowEvent::Completed(ok) = event {
                    if ok {
                        self.set_phase(Phase::Flushing);
                    } else {
                        self.finish(Outcome::ExchangeFailed);
                    }
                }
            },
            Phase::Flushing => {
                if let FlowEvent::Completed(ok) = event {
                    if ok {
                        self.set_phase(Phase::ShuttingDown);
                    } else {
                        self.finish(Outcome::ExchangeFailed);
                    }
                }
            },
            Phase::ShuttingDown => {
                if let FlowEvent::Completed(ok) = event {
                    if ok {
                        self.set_phase(Phase::Finished(Outcome::Answered));
                    } else {
                        self.finish(Outcome::ExchangeFailed);
                    }
                }
            },
            Phase::Finished(_) => {},
        }
        self.action()
    }

    fn request_read(&mut self)
        ensures
            final(self)@ == request_read(old(self)@),
    {
        let joined = join_with_newlines(&self.lines);
        self.code = extract_auth_code(joined.as_str());
        self.phase = Phase::Writing;
    }
}

} // verus!

verus! {

/// Once a flow has finished, no event changes it.
pub proof fn lemma_finished_is_final(s: AuthFlowView, e: EventView)
    requires
        s.phase matches Phase::Finished(_),
    ensures
        spec_step(s, e) == s,
{
}

/// What every reachable state keeps: the request lines read hold no empty line, and a
/// code is held exactly from the moment the request head is complete, and it is the
/// code that head carries; a flow that ended otherwise than by answering holds none.
pub open spec fn flow_wf(s: AuthFlowView) -> bool {
    &&& forall|k: int| 0 <= k < s.lines.len() ==> #[trigger] s.lines[k].len() > 0
    &&& match s.phase {
        Phase::Writing | Phase::Flushing | Phase::ShuttingDown | Phase::Finished(
            Outcome::Answered,
        ) => s.code == spec_extract_auth_code(join_lines(s.lines)),
        _ => s.code is None,
    }
}

/// A new flow is well formed, on every platform.
pub proof fn lemma_start_wf(url: Seq<char>, platform: Platform)
    ensures
        flow_wf(spec_start(url, platform)),
{
}

/// Every step keeps a flow well formed.
pub proof fn lemma_step_keeps_wf(s: AuthFlowView, e: EventView)
    requires
        flow_wf(s),
    ensures
        flow_wf(spec_step(s, e)),
{
    let t = spec_step(s, e);
    if s.phase == Phase::Reading {
        if let EventView::Line(Some(line)) = e {
            if line.len() != 0 {
                assert forall|k: int| 0 <= k < t.lines.len() implies #[trigger] t.lines[k].len() > 0 by {
                    if k < s.lines.len() {
                        assert(t.lines[k] == s.lines[k]);
                    }
                }
            }
        }
    }
}

/// A well-formed flow hands back a code only after it has answered the request, and
/// that code is the one the request head carries.
pub proof fn lemma_code_comes_from_request(s: AuthFlowView)
    requires
        flow_wf(s),
    ensures
        spec_action(s) matches ActionView::Finish { code: Some(c), outcome } ==> outcome
            == Outcome::Answered && spec_extract_auth_code(join_lines(s.lines)) == Some(c),
{
}

/// Once the wait has lasted longer than the timeout, the flow gives up without a code.
pub proof fn lemma_timeout_gives_no_code(s: AuthFlowView, since_start: u128, since_reminder: u128)
    requires
        s.phase == Phase::Polling,
        since_start > AUTH_TIMEOUT_NANOS,
    ensures
        spec_action(
            spec_step(
                s,
                EventView::Clock { since_start_nanos: since_start, since_reminder_nanos: since_reminder },
            ),
        ) == (ActionView::Finish { code: None, outcome: Outcome::TimedOut }),
{
}

/// A failed operation on the listener or on the connection ends the flow without a code.
pub proof fn lemma_failure_gives_no_code(s: AuthFlowView)
    requires
        s.phase == Phase::Binding || s.phase == Phase::SettingNonblocking || s.phase
            == Phase::SettingReadTimeout || s.phase == Phase::Writing || s.phase == Phase::Flushing
            || s.phase == Phase::ShuttingDown,
    ensures
        spec_step(s, EventView::Completed(false)).code is None,
        spec_step(s, EventView::Completed(false)).phase matches Phase::Finished(o) && o
            != Outcome::Answered,
{
}

/// The state after the events `es`, one after another.
pub open spec fn run(s: AuthFlowView, es: Seq<EventView>) -> AuthFlowView
    decreases es.len(),
{
    if es.len() == 0 {
        s
    } else {
        run(spec_step(s, es[0]), es.drop_first())
    }
}

pub proof fn lemma_run_concat(s: AuthFlowView, a: Seq<EventView>, b: Seq<EventView>)
    ensures
        run(s, a + b) == run(run(s, a), b),
    decreases a.len(),
{
    if a.len() == 0 {
        assert(a + b =~= b);
    } else {
        assert((a + b).drop_first() =~= a.drop_first() + b);
        lemma_run_concat(spec_step(s, a[0]), a.drop_first(), b);
    }
}

/// The events that deliver `lines` as request lines.
pub open spec fn line_events(lines: Seq<Seq<char>>) -> Seq<EventView> {
    lines.map_values(|l: Seq<char>| EventView::Line(Some(l)))
}

proof fn lemma_reading_lines(s: AuthFlowView, lines: Seq<Seq<char>>)
    requires
        s.phase == Phase::Reading,
        forall|k: int| 0 <= k < lines.len() ==> #[trigger] lines[k].len() > 0,
    ensures
        run(s, line_events(lines)) == (AuthFlowView {
            url: s.url,
            phase: s.phase,
            lines: s.lines + lines,
            code: s.code,
        }),
    decreases lines.len(),
{
    if lines.len() == 0 {
        assert(s.lines + lines =~= s.lines);
    } else {
        let d = lines.drop_last();
        assert forall|k: int| 0 <= k < d.len() implies #[trigger] d[k].len() > 0 by {
            assert(d[k] == lines[k]);
        }
        lemma_reading_lines(s, d);
        assert(line_events(lines) =~= line_events(d) + seq![EventView::Line(Some(lines.last()))]);
        lemma_run_concat(s, line_events(d), seq![EventView::Line(Some(lines.last()))]);
        let mid = run(s, line_events(d));
        assert(lines.last().len() > 0);
        assert(run(mid, seq![EventView::Line(Some(lines.last()))]) == spec_step(mid, EventView::Line(Some(lines.last())))) by {
            reveal_with_fuel(run, 2);
            assert(seq![EventView::Line(Some(lines.last()))].drop_first() =~= Seq::<EventView>::empty());
        }
        assert(s.lines + d + seq![lines.last()] =~= s.lines + lines);
        assert((s.lines + d).push(lines.last()) =~= s.lines + lines);
    }
}

/// When the listener comes up, a browser connects at once, every operation succeeds and
/// the request head is `lines` followed by an empty line, the flow hands back the code
/// carried by those lines, joined with newlines.
pub proof fn lemma_answered_request_gives_its_code(s: AuthFlowView, lines: Seq<Seq<char>>)
    requires
        s.phase == Phase::Binding,
        s.lines == Seq::<Seq<char>>::empty(),
        forall|k: int| 0 <= k < lines.len() ==> #[trigger] lines[k].len() > 0,
    ensures
        spec_action(
            run(
                s,
                seq![
                    EventView::Completed(true),
                    EventView::Completed(true),
                    EventView::Clock { since_start_nanos: 0, since_reminder_nanos: 0 },
                    EventView::Accepted(AcceptOutcome::Connected),
                    EventView::Completed(true),
                ] + line_events(lines) + seq![
                    EventView::Line(Some(Seq::empty())),
                    EventView::Completed(true),
                    EventView::Completed(true),
                    EventView::Completed(true),
                ],
            ),
        ) == (ActionView::Finish {
            code: spec_extract_auth_code(join_lines(lines)),
            outcome: Outcome::Answered,
        }),
{
    let pre: Seq<EventView> = seq![
        EventView::Completed(true),
        EventView::Completed(true),
        EventView::Clock { since_start_nanos: 0, since_reminder_nanos: 0 },
        EventView::Accepted(AcceptOutcome::Connected),
        EventView::Completed(true),
    ];
    let post: Seq<EventView> = seq![
        EventView::Line(Some(Seq::empty())),
        EventView::Completed(true),
        EventView::Completed(true),
        EventView::Completed(true),
    ];
    lemma_run_concat(s, pre + line_events(lines), post);
    lemma_run_concat(s, pre, line_events(lines));
    let r1 = run(s, pre);
    assert(r1.phase == Phase::Reading && r1.lines == s.lines) by {
        let s1 = spec_step(s, EventView::Completed(true));
        let s2 = spec_step(s1, EventView::Completed(true));
        let s3 = spec_step(s2, EventView::Clock { since_start_nanos: 0, since_reminder_nanos: 0 });
        let s4 = spec_step(s3, EventView::Accepted(AcceptOutcome::Connected));
        let s5 = spec_step(s4, EventView::Completed(true));
        assert(pre.drop_first() =~= seq![pre[1], pre[2], pre[3], pre[4]]);
        assert(pre.drop_first().drop_first() =~= seq![pre[2], pre[3], pre[4]]);
        assert(pre.drop_first().drop_first().drop_first() =~= seq![pre[3], pre[4]]);
        assert(pre.drop_first().drop_first().drop_first().drop_first() =~= seq![pre[4]]);
        assert(seq![pre[4]].drop_first() =~= Seq::<EventView>::empty());
        assert(run(s5, Seq::<EventView>::empty()) == s5);
        assert(run(s4, seq![pre[4]]) == s5);
        assert(run(s3, seq![pre[3], pre[4]]) == s5);
        assert(run(s2, seq![pre[2], pre[3], pre[4]]) == s5);
        assert(run(s1, seq![pre[1], pre[2], pre[3], pre[4]]) == s5);
        assert(run(s, pre) == s5);
    }
    lemma_reading_lines(r1, lines);
    let r2 = run(r1, line_events(lines));
    assert(r2.lines =~= lines);
    let r3 = run(r2, post);
    assert(r3 == with_phase(request_read(r2), Phase::Finished(Outcome::Answered))) by {
        let t1 = request_read(r2);
        let t2 = with_phase(t1, Phase::Flushing);
        let t3 = with_phase(t1, Phase::ShuttingDown);
        let t4 = with_phase(t1, Phase::Finished(Outcome::Answered));
        assert(spec_step(r2, post[0]) == t1);
        assert(post.drop_first() =~= seq![post[1], post[2], post[3]]);
        assert(post.drop_first().drop_first() =~= seq![post[2], post[3]]);
        assert(post.drop_first().drop_first().drop_first() =~= seq![post[3]]);
        assert(seq![post[3]].drop_first() =~= Seq::<EventView>::empty());
        assert(run(t4, Seq::<EventView>::empty()) == t4);
        assert(run(t3, seq![post[3]]) == t4);
        assert(run(t2, seq![post[2], post[3]]) == t4);
        assert(run(t1, seq![post[1], post[2], post[3]]) == t4);
    }
}

} // verus!

verus! {

/// The number that ASCII decimal digits `d` write, most significant first.
pub open spec fn decimal_value(d: Seq<u8>) -> int
    decreases d.len(),
{
    if d.len() == 0 {
        0
    } else {
        decimal_value(d.drop_last()) * 10 + (d.last() - 48)
    }
}

/// The `Content-Length` digits are decimal digits, without a leading zero, that write the
/// body's length.
pub proof fn lemma_decimal_digits_write_n(n: nat)
    ensures
        decimal_value(decimal_digits(n)) == n,
        decimal_digits(n).len() >= 1,
        forall|k: int| 0 <= k < decimal_digits(n).len() ==> 48 <= #[trigger] decimal_digits(n)[k] <= 57,
        n > 0 ==> decimal_digits(n)[0] != 48,
    decreases n,
{
    if n >= 10 {
        lemma_decimal_digits_write_n(n / 10);
        let d = decimal_digits(n);
        assert(d.drop_last() =~= decimal_digits(n / 10));
        assert(n == (n / 10) * 10 + n % 10) by (nonlinear_arith);
        assert(d.last() == 48 + n % 10);
        assert(decimal_value(d) == decimal_value(decimal_digits(n / 10)) * 10 + n % 10);
        assert(decimal_value(d) == n);
        assert forall|k: int| 0 <= k < d.len() implies 48 <= #[trigger] d[k] <= 57 by {
            if k < d.len() - 1 {
                assert(d[k] == decimal_digits(n / 10)[k]);
            }
        }
        assert(n / 10 > 0);
        assert(d[0] == decimal_digits(n / 10)[0]);
    } else {
        assert(decimal_digits(n).drop_last() =~= Seq::<u8>::empty());
        assert(decimal_digits(n).last() == 48 + n);
        assert(decimal_value(Seq::<u8>::empty()) == 0);
        assert(decimal_value(decimal_digits(n)) == n);
    }
}

} // verus!

verus! {

/// The server is started only once a browser was opened: no flow starts with it, and a
/// launch leads to it only when the launched process started.
pub proof fn lemma_server_only_after_browser(url: Seq<char>, platform: Platform, s: AuthFlowView, e: EventView)
    ensures
        spec_start(url, platform).phase != Phase::Binding,
        (s.phase matches Phase::Launching(_) && spec_step(s, e).phase == Phase::Binding) ==> e
            == EventView::Spawned(true),
{
}

} // verus!

verus! {

/// While waiting, the flow gives up exactly when more than five minutes
/// (300 000 000 000 ns) have passed since it started waiting; otherwise it polls the
/// listener, with a reminder exactly when thirty seconds (30 000 000 000 ns) or more have
/// passed since the last one. The reminder clock never ends the wait.
pub proof fn lemma_wait_lasts_five_minutes(s: AuthFlowView, since_start: u128, since_reminder: u128)
    requires
        s.phase == Phase::Polling,
    ensures
        ({
            let t = spec_step(
                s,
                EventView::Clock { since_start_nanos: since_start, since_reminder_nanos: since_reminder },
            );
            &&& (t.phase matches Phase::Finished(_)) <==> since_start > 300_000_000_000
            &&& since_start > 300_000_000_000 ==> t.phase == Phase::Finished(Outcome::TimedOut)
                && t.code is None
            &&& since_start <= 300_000_000_000 ==> t.phase == (Phase::Accepting {
                remind: since_reminder >= 30_000_000_000,
            })
            &&& t.url == s.url && t.lines == s.lines
        }),
{
}

/// Every launch hands the browser the flow's URL unchanged, as the last argument of the
/// spawned command (inside `Start-Process "…"` for PowerShell); and a new flow keeps the
/// URL it was given.
pub proof fn lemma_launch_passes_url_whole(url: Seq<char>, platform: Platform, s: AuthFlowView)
    ensures
        spec_start(url, platform).url == url,
        s.phase == Phase::Launching(LaunchStage::Rundll32) ==> spec_action(s) == (ActionView::Spawn {
            program: "rundll32"@,
            args: seq!["url.dll,FileProtocolHandler"@, s.url],
        }),
        s.phase == Phase::Launching(LaunchStage::Open) ==> spec_action(s) == (ActionView::Spawn {
            program: "open"@,
            args: seq![s.url],
        }),
        s.phase == Phase::Launching(LaunchStage::XdgOpen) ==> spec_action(s) == (ActionView::Spawn {
            program: "xdg-open"@,
            args: seq![s.url],
        }),
        s.phase == Phase::Launching(LaunchStage::PowerShell) ==> spec_action(s) == (ActionView::Spawn {
            program: "powershell.exe"@,
            args: seq!["-NoProfile"@, "-Command"@, "Start-Process \""@ + s.url + "\""@],
        }),
        s.phase matches Phase::Launching(_) ==> forall|e: EventView| #[trigger] spec_step(s, e).url
            == s.url,
{
}

} // verus!
