//! Rules of the discovery server integration: server state, error messages,
//! crash recovery, download naming and the server configuration file.
use vstd::prelude::*;
use crate::events::{ChapterDownloadEvent, ChapterDownloadPhase, DownloadCompleteEvent};
use crate::paths::{join, join_path};
use crate::text::{
    append_str, chars_of, contains_seq, contains_str, decimal, decimal_string, in_class, is_unicode_whitespace,
    lemma_strip_leading, lemma_strip_trailing, push_all, push_char, skip_leading, skip_trailing,
    strip_leading, strip_trailing, string_from_range, trimmed, CharClass,
};

verus! {

/// Characters that common file systems refuse in a name.
pub open spec fn is_reserved_name_char(c: char) -> bool {
    c == '<' || c == '>' || c == ':' || c == '"' || c == '/' || c == '\\' || c == '|' || c == '?' || c == '*'
}

/// Characters of the Unicode general category `Cc` (control codes), as `char::is_control` reports them.
pub open spec fn is_control_char(c: char) -> bool {
    (c as u32) <= 0x1F || (0x7F <= (c as u32) && (c as u32) <= 0x9F)
}

/// A name character with reserved and control characters replaced by `_`.
pub open spec fn name_char(c: char) -> char {
    if is_reserved_name_char(c) || is_control_char(c) {
        '_'
    } else {
        c
    }
}

/// A series title made safe as a directory name: reserved and control
/// characters become `_`, surrounding white space and then surrounding dots
/// are removed, and an empty result becomes `download`.
pub open spec fn sanitized_name(title: Seq<char>) -> Seq<char> {
    let cleaned = strip_trailing(
        strip_leading(trimmed(title.map_values(|c: char| name_char(c))), in_class(CharClass::Dot)),
        in_class(CharClass::Dot),
    );
    if cleaned.len() == 0 {
        "download"@
    } else {
        cleaned
    }
}

fn safe_name_char(c: char) -> (r: char)
    ensures
        r == name_char(c),
{
    let n = c as u32;
    if c == '<' || c == '>' || c == ':' || c == '"' || c == '/' || c == '\\' || c == '|' || c == '?' || c == '*' {
        '_'
    } else if n <= 0x1F || (0x7F <= n && n <= 0x9F) {
        '_'
    } else {
        c
    }
}

/// A sanitized title is a usable directory name: never empty, free of
/// reserved and control characters, and neither starting nor ending with a dot.
pub proof fn law_sanitized_name_is_safe(title: Seq<char>)
    ensures
        sanitized_name(title).len() > 0,
        forall|i: int|
            0 <= i < sanitized_name(title).len() ==> !is_reserved_name_char(#[trigger] sanitized_name(title)[i])
                && !is_control_char(sanitized_name(title)[i]),
        sanitized_name(title)[0] != '.',
        sanitized_name(title).last() != '.',
{
    let mapped = title.map_values(|c: char| name_char(c));
    let ws = in_class(CharClass::Whitespace);
    let dot = in_class(CharClass::Dot);
    let t1 = strip_leading(mapped, ws);
    let t2 = trimmed(mapped);
    let t3 = strip_leading(t2, dot);
    let cleaned = strip_trailing(t3, dot);
    lemma_strip_leading(mapped, ws);
    lemma_strip_trailing(t1, ws);
    lemma_strip_leading(t2, dot);
    lemma_strip_trailing(t3, dot);
    let r = sanitized_name(title);
    if cleaned.len() == 0 {
        reveal_strlit("download");
        assert(r == "download"@);
    } else {
        assert(r == cleaned);
        assert forall|i: int| 0 <= i < r.len() implies !is_reserved_name_char(#[trigger] r[i]) && !is_control_char(r[i]) by {
            let a = mapped.len() - t1.len();
            let b = t2.len() - t3.len();
            assert(r[i] == t3[i]);
            assert(t3[i] == t2[b + i]);
            assert(t2[b + i] == t1[b + i]);
            assert(t1[b + i] == mapped[a + b + i]);
        }
        assert(r[0] == t3[0]);
    }
}

/// Sanitizing a sanitized title again changes nothing, unless the first
/// pass left white space at either end: removing the surrounding dots can
/// uncover it (`". a"` gives `" a"`, which a second pass trims to `"a"`).
pub proof fn law_sanitize_idempotent(title: Seq<char>)
    requires
        !is_unicode_whitespace(sanitized_name(title)[0]),
        !is_unicode_whitespace(sanitized_name(title).last()),
    ensures
        sanitized_name(sanitized_name(title)) == sanitized_name(title),
{
    let ws = in_class(CharClass::Whitespace);
    let dot = in_class(CharClass::Dot);
    let r = sanitized_name(title);
    law_sanitized_name_is_safe(title);
    let mapped_r = r.map_values(|c: char| name_char(c));
    assert(mapped_r =~= r);
    assert(strip_leading(r, ws) == r);
    assert(strip_trailing(r, ws) == r);
    assert(trimmed(mapped_r) == r);
    assert(strip_leading(r, dot) == r);
    assert(strip_trailing(r, dot) == r);
}

/// Makes a series title safe to use as a directory name (see [`sanitized_name`]).
pub fn sanitize_file_name(value: &str) -> (name: String)
    ensures
        name@ == sanitized_name(value@),
{
    let chars = chars_of(value);
    let mut mapped: Vec<char> = Vec::new();
    let mut i: usize = 0;
    while i < chars.len()
        invariant
            i <= chars@.len(),
            chars@ == value@,
            mapped@ == value@.take(i as int).map_values(|c: char| name_char(c)),
        decreases chars@.len() - i,
    {
        mapped.push(safe_name_char(chars[i]));
        i = i + 1;
        proof {
            assert(mapped@ =~= value@.take(i as int).map_values(|c: char| name_char(c)));
        }
    }
    proof {
        assert(value@.take(value@.len() as int) == value@);
        assert(mapped@.subrange(0, mapped@.len() as int) == mapped@);
    }
    let n = mapped.len();
    let lo = skip_leading(&mapped, 0, n, CharClass::Whitespace);
    let hi = skip_trailing(&mapped, lo, n, CharClass::Whitespace);
    let lo2 = skip_leading(&mapped, lo, hi, CharClass::Dot);
    let hi2 = skip_trailing(&mapped, lo2, hi, CharClass::Dot);
    if lo2 == hi2 {
        let fallback = "download".to_string();
        proof {
            assert(mapped@.subrange(lo2 as int, hi2 as int).len() == 0);
        }
        fallback
    } else {
        string_from_range(&mapped, lo2, hi2)
    }
}

/// Process-exit messages after which the server is restarted automatically:
/// an unexpected exit, an abort or a segmentation fault.
pub open spec fn recoverable_exit(message: Seq<char>) -> bool {
    ||| contains_seq(message, "exited unexpectedly"@)
    ||| contains_seq(message, "SIGABRT"@)
    ||| contains_seq(message, "signal: 6"@)
    ||| contains_seq(message, "SIGSEGV"@)
    ||| contains_seq(message, "signal: 11"@)
}

/// Whether the server's exit message calls for an automatic restart.
pub fn is_recoverable_exit(message: &str) -> (recoverable: bool)
    ensures
        recoverable == recoverable_exit(message@),
{
    contains_str(message, "exited unexpectedly") || contains_str(message, "SIGABRT") || contains_str(
        message,
        "signal: 6",
    ) || contains_str(message, "SIGSEGV") || contains_str(message, "signal: 11")
}

/// The prefix the server client puts before its error messages.
pub open spec fn discovery_error_prefix() -> Seq<char> {
    "Discovery Error: "@
}

/// An error message as shown to the user: without the client's prefix.
pub open spec fn command_message(message: Seq<char>) -> Seq<char> {
    let p = discovery_error_prefix();
    if message.len() >= p.len() && message.subrange(0, p.len() as int) == p {
        message.subrange(p.len() as int, message.len() as int)
    } else {
        message
    }
}

/// Renders an error for the user interface, dropping the server client's prefix.
pub fn command_error(message: &str) -> (shown: String)
    ensures
        shown@ == command_message(message@),
{
    let chars = chars_of(message);
    let prefix = chars_of("Discovery Error: ");
    let mut matches = chars.len() >= prefix.len();
    let mut i: usize = 0;
    while matches && i < prefix.len()
        invariant
            i <= prefix@.len(),
            prefix@ == discovery_error_prefix(),
            chars@ == message@,
            matches ==> chars@.len() >= prefix@.len(),
            matches ==> chars@.subrange(0, i as int) == prefix@.subrange(0, i as int),
            !matches ==> !(chars@.len() >= prefix@.len() && chars@.subrange(0, prefix@.len() as int) == prefix@),
        decreases prefix@.len() - i + (if matches { 1int } else { 0int }),
    {
        if chars[i] != prefix[i] {
            proof {
                if chars@.len() >= prefix@.len() && chars@.subrange(0, prefix@.len() as int) == prefix@ {
                    assert(chars@.subrange(0, prefix@.len() as int)[i as int] == chars@[i as int]);
                }
            }
            matches = false;
        } else {
            proof {
                assert(chars@.subrange(0, i + 1) =~= chars@.subrange(0, i as int).push(chars@[i as int]));
                assert(prefix@.subrange(0, i + 1) =~= prefix@.subrange(0, i as int).push(prefix@[i as int]));
            }
            i = i + 1;
        }
    }
    proof {
        if matches {
            assert(prefix@.subrange(0, prefix@.len() as int) == prefix@);
        }
    }
    if matches {
        string_from_range(&chars, prefix.len(), chars.len())
    } else {
        string_from_range(&chars, 0, chars.len())
    }
}

/// The system clock.
#[verifier::external_type_specification]
#[verifier::external_body]
pub struct ExSystemTime(std::time::SystemTime);

/// The current time.
///
/// Trusted: calls `SystemTime::now`; nothing is stated of the result, which
/// depends on the machine's clock.
#[verifier::external_body]
fn system_now() -> std::time::SystemTime {
    std::time::SystemTime::now()
}

/// The time elapsed from the Unix epoch to `t`, or `None` when `t` is before it.
///
/// Trusted: calls `SystemTime::duration_since` with `UNIX_EPOCH`, whose error
/// case the standard library documents as `t` lying before the epoch; nothing
/// more is stated of the result.
#[verifier::external_body]
fn since_unix_epoch(t: std::time::SystemTime) -> Option<std::time::Duration> {
    t.duration_since(std::time::UNIX_EPOCH).ok()
}

/// The whole seconds of a duration.
///
/// Trusted: calls `Duration::as_secs`; nothing is stated of the result, since
/// a duration is opaque here.
#[verifier::external_body]
fn whole_seconds(d: std::time::Duration) -> u64 {
    d.as_secs()
}

/// A timestamp as stored in the settings: the decimal seconds since the Unix
/// epoch, or `0` when the clock reads earlier than the epoch.
pub open spec fn timestamp_text(seconds: Option<u64>) -> Seq<char> {
    match seconds {
        Some(s) => decimal(s as nat),
        None => "0"@,
    }
}

/// Renders a reading of the clock (see [`timestamp_text`]).
pub fn timestamp_string(seconds: Option<u64>) -> (text: String)
    ensures
        text@ == timestamp_text(seconds),
{
    match seconds {
        Some(s) => decimal_string(s),
        None => "0".to_string(),
    }
}

/// The current time as stored in the settings' last-update-check field.
pub fn now_string() -> (text: String)
    ensures
        exists|seconds: Option<u64>| text@ == timestamp_text(seconds),
{
    let seconds = match since_unix_epoch(system_now()) {
        Some(d) => Some(whole_seconds(d)),
        None => None,
    };
    timestamp_string(seconds)
}

/// What the server manager reports of the discovery server.
#[derive(Clone, Debug)]
pub enum RuntimeState {
    NotInstalled,
    NotRunning,
    Starting,
    Ready { port: u16 },
    Error { message: String },
}

/// The state reported to the user: a server that is not running and has no
/// installed version counts as not installed.
pub open spec fn reported_state(snapshot: RuntimeState, installed: bool) -> RuntimeState {
    if snapshot is NotRunning && !installed {
        RuntimeState::NotInstalled
    } else {
        snapshot
    }
}

/// The server state shown to the user, given the manager's snapshot and
/// whether a version is installed.
pub fn runtime_status(snapshot: RuntimeState, installed: bool) -> (state: RuntimeState)
    ensures
        state == reported_state(snapshot, installed),
{
    match snapshot {
        RuntimeState::NotRunning => if installed {
            RuntimeState::NotRunning
        } else {
            RuntimeState::NotInstalled
        },
        other => other,
    }
}

/// Why the server cannot be used in its current state, if it cannot.
pub open spec fn unavailable_message(runtime: RuntimeState) -> Option<Seq<char>> {
    match runtime {
        RuntimeState::Ready { .. } => None,
        RuntimeState::NotInstalled => Some("Suwayomi-Server is not installed"@),
        RuntimeState::NotRunning => Some("Suwayomi-Server is not running"@),
        RuntimeState::Starting => Some("Suwayomi-Server is still starting"@),
        RuntimeState::Error { message } => Some("Suwayomi-Server is not running: "@ + message@),
    }
}

/// Whether requests can be sent to the server: only when it is ready and a
/// client is connected. Otherwise the message to show.
pub fn client_access(runtime: &RuntimeState, client_connected: bool) -> (access: Result<(), String>)
    ensures
        match unavailable_message(*runtime) {
            Some(m) => access is Err && access->Err_0@ == m,
            None => if client_connected {
                access is Ok
            } else {
                access is Err && access->Err_0@ == "Suwayomi-Server is not ready"@
            },
        },
{
    match runtime {
        RuntimeState::Ready { .. } => if client_connected {
            Ok(())
        } else {
            Err("Suwayomi-Server is not ready".to_string())
        },
        RuntimeState::NotInstalled => Err("Suwayomi-Server is not installed".to_string()),
        RuntimeState::NotRunning => Err("Suwayomi-Server is not running".to_string()),
        RuntimeState::Starting => Err("Suwayomi-Server is still starting".to_string()),
        RuntimeState::Error { message } => {
            let mut text = "Suwayomi-Server is not running: ".to_string();
            append_str(&mut text, message.as_str());
            Err(text)
        },
    }
}

/// Whether the latest release differs from the installed version (or nothing is installed).
pub fn update_available(current: &Option<String>, latest: &String) -> (available: bool)
    ensures
        available == !(current is Some && current->0@ == latest@),
{
    match current {
        None => true,
        Some(version) => {
            let a = chars_of(version.as_str());
            let b = chars_of(latest.as_str());
            if a.len() != b.len() {
                proof {
                    assert(a@.len() != b@.len());
                }
                return true;
            }
            let mut i: usize = 0;
            while i < a.len()
                invariant
                    current is Some && current->0@ == version@,
                    a@ == version@,
                    b@ == latest@,
                    a@.len() == b@.len(),
                    i <= a@.len(),
                    forall|k: int| 0 <= k < i ==> a@[k] == b@[k],
                decreases a@.len() - i,
            {
                if a[i] != b[i] {
                    proof {
                        assert(a@[i as int] != b@[i as int]);
                        assert(a@ != b@);
                    }
                    return true;
                }
                i = i + 1;
            }
            proof {
                assert(a@ =~= b@);
            }
            false
        },
    }
}

/// Automatic restarts allowed in a row before the monitor gives up.
pub const MAX_AUTO_RESTARTS: u32 = 3;

/// What the server monitor does after looking at the server.
#[derive(Clone, Debug)]
pub enum MonitorAction {
    /// Keep watching.
    Watch,
    /// Report the server as starting, wait `delay_secs` seconds and start it again.
    Restart { delay_secs: u64 },
    /// Drop the client, report the server as failed with `message`, and stop watching.
    GiveUp { message: String },
    /// The server was stopped or removed on purpose: stop watching.
    Stop,
}

/// The monitor's decision, as its restart count after the step and the action.
pub enum MonitorDecision {
    Watch,
    Restart { delay_secs: int },
    GiveUp { message: Seq<char> },
    Stop,
}

/// One look of the monitor at the server, with `restarts` automatic restarts
/// done in a row so far: a running or starting server resets the count; a
/// recoverable crash is restarted after a delay of one second per restart in
/// the row (at most three), until three restarts in a row have been made; a
/// stopped or removed server ends the watch; any other error is left alone.
pub open spec fn monitor_decision(restarts: u32, snapshot: RuntimeState) -> (u32, MonitorDecision) {
    match snapshot {
        RuntimeState::Ready { .. } | RuntimeState::Starting => (0, MonitorDecision::Watch),
        RuntimeState::Error { message } => if recoverable_exit(message@) {
            if restarts >= MAX_AUTO_RESTARTS {
                (
                    restarts,
                    MonitorDecision::GiveUp {
                        message: "Suwayomi-Server keeps crashing after automatic restarts: "@ + message@,
                    },
                )
            } else {
                let next = (restarts + 1) as u32;
                (next, MonitorDecision::Restart { delay_secs: if next < 3 { next as int } else { 3 } })
            }
        } else {
            (restarts, MonitorDecision::Watch)
        },
        RuntimeState::NotRunning | RuntimeState::NotInstalled => (restarts, MonitorDecision::Stop),
    }
}

/// The decision an action stands for.
pub open spec fn action_decision(action: MonitorAction) -> MonitorDecision {
    match action {
        MonitorAction::Watch => MonitorDecision::Watch,
        MonitorAction::Restart { delay_secs } => MonitorDecision::Restart { delay_secs: delay_secs as int },
        MonitorAction::GiveUp { message } => MonitorDecision::GiveUp { message: message@ },
        MonitorAction::Stop => MonitorDecision::Stop,
    }
}

/// One step of the server monitor (see [`monitor_decision`]): the new
/// restart count and what to do.
pub fn monitor_step(restarts: u32, snapshot: &RuntimeState) -> (step: (u32, MonitorAction))
    ensures
        step.0 == monitor_decision(restarts, *snapshot).0,
        action_decision(step.1) == monitor_decision(restarts, *snapshot).1,
{
    match snapshot {
        RuntimeState::Ready { .. } | RuntimeState::Starting => (0, MonitorAction::Watch),
        RuntimeState::Error { message } => {
            if is_recoverable_exit(message.as_str()) {
                if restarts >= MAX_AUTO_RESTARTS {
                    let mut text = "Suwayomi-Server keeps crashing after automatic restarts: ".to_string();
                    append_str(&mut text, message.as_str());
                    (restarts, MonitorAction::GiveUp { message: text })
                } else {
                    let next = restarts + 1;
                    let delay: u64 = if next < 3 { next as u64 } else { 3 };
                    (next, MonitorAction::Restart { delay_secs: delay })
                }
            } else {
                (restarts, MonitorAction::Watch)
            }
        },
        RuntimeState::NotRunning | RuntimeState::NotInstalled => (restarts, MonitorAction::Stop),
    }
}

/// The state reported after the monitor's restart attempt: ready on the
/// port it got, or failed with the start error's message.
pub fn restart_outcome(started: Result<u16, String>) -> (state: RuntimeState)
    ensures
        match started {
            Ok(port) => state == RuntimeState::Ready { port },
            Err(message) => state == RuntimeState::Error { message },
        },
{
    match started {
        Ok(port) => RuntimeState::Ready { port },
        Err(message) => RuntimeState::Error { message },
    }
}

/// The monitor never makes more than three automatic restarts in a row, and
/// waits 1, 2, then 3 seconds before them.
pub proof fn law_monitor_restart_bound(restarts: u32, snapshot: RuntimeState)
    requires
        restarts <= MAX_AUTO_RESTARTS,
    ensures
        monitor_decision(restarts, snapshot).0 <= MAX_AUTO_RESTARTS,
        monitor_decision(restarts, snapshot).1 matches MonitorDecision::Restart { delay_secs } ==> (delay_secs
            == monitor_decision(restarts, snapshot).0 && 1 <= delay_secs <= 3),
{
}

/// A fourth crash in a row ends the watch: after three automatic restarts a
/// recoverable crash is given up on, while a healthy server resets the count.
pub proof fn law_monitor_gives_up_after_three(message: String, port: u16)
    requires
        recoverable_exit(message@),
    ensures
        monitor_decision(MAX_AUTO_RESTARTS, RuntimeState::Error { message }).1 is GiveUp,
        monitor_decision(MAX_AUTO_RESTARTS, RuntimeState::Ready { port }).0 == 0,
        monitor_decision(MAX_AUTO_RESTARTS, RuntimeState::Starting).0 == 0,
{
}

/// `digits` padded on the left with zeros to at least `width` characters.
pub open spec fn zero_padded(digits: Seq<char>, width: nat) -> Seq<char> {
    if digits.len() >= width {
        digits
    } else {
        Seq::new((width - digits.len()) as nat, |i: int| '0') + digits
    }
}

/// The decimal form of a signed number, with `-` before a negative one.
pub open spec fn signed_decimal(x: int) -> Seq<char> {
    if x < 0 {
        seq!['-'] + decimal((-x) as nat)
    } else {
        decimal(x as nat)
    }
}

/// The decimal representation of `x`, as `i64::to_string` writes it.
pub fn signed_decimal_string(x: i64) -> (s: String)
    ensures
        s@ == signed_decimal(x as int),
{
    if x < 0 {
        let magnitude: u64 = ((-(x + 1)) as u64) + 1;
        let digits = decimal_string(magnitude);
        let mut s = "-".to_string();
        proof {
            reveal_strlit("-");
        }
        append_str(&mut s, digits.as_str());
        proof {
            assert(s@ =~= seq!['-'] + decimal((-x) as nat));
        }
        s
    } else {
        decimal_string(x as u64)
    }
}

/// File name of the archive of the `index`-th chapter of a download (counting
/// from 0): its 1-based position padded to four digits, the chapter id, `.cbz`.
pub open spec fn archive_name(index: int, chapter_id: i64) -> Seq<char> {
    zero_padded(decimal((index + 1) as nat), 4) + "-"@ + signed_decimal(chapter_id as int) + ".cbz"@
}

/// The archive file name of a chapter in a download (see [`archive_name`]).
pub fn archive_file_name(index: usize, chapter_id: i64) -> (name: String)
    requires
        index < usize::MAX,
    ensures
        name@ == archive_name(index as int, chapter_id),
{
    let position = decimal_string((index + 1) as u64);
    let mut name = String::new();
    let width: usize = 4;
    let digits = chars_of(position.as_str());
    let mut pad: usize = 0;
    let missing: usize = if digits.len() < width { width - digits.len() } else { 0 };
    while pad < missing
        invariant
            pad <= missing,
            name@ == Seq::new(pad as nat, |i: int| '0'),
        decreases missing - pad,
    {
        push_char(&mut name, '0');
        pad = pad + 1;
        proof {
            assert(name@ =~= Seq::new(pad as nat, |i: int| '0'));
        }
    }
    push_all(&mut name, &digits);
    proof {
        if digits@.len() >= 4 {
            assert(name@ =~= digits@);
        }
    }
    append_str(&mut name, "-");
    let id = signed_decimal_string(chapter_id);
    append_str(&mut name, id.as_str());
    append_str(&mut name, ".cbz");
    name
}

/// What a step of a chapter download batch reports.
#[derive(Clone, Debug)]
pub enum DownloadUpdate {
    /// Progress of the batch.
    Progress(ChapterDownloadEvent),
    /// The user cancelled: the batch ends with this event and the error `Cancelled`.
    Cancelled(DownloadCompleteEvent),
}

/// The event that reports a cancelled download.
pub open spec fn is_cancelled_event(event: DownloadCompleteEvent) -> bool {
    &&& !event.success
    &&& event.error is Some && event.error->0@ == "Cancelled"@
    &&& event.output_dir is None
}

fn cancelled_update() -> (update: DownloadUpdate)
    ensures
        update matches DownloadUpdate::Cancelled(event) && is_cancelled_event(event),
{
    DownloadUpdate::Cancelled(
        DownloadCompleteEvent { success: false, error: Some("Cancelled".to_string()), output_dir: None },
    )
}

/// A batch of chapter downloads running in parallel: how many finished,
/// the seconds ticked, and each chapter's archive once it finished.
pub struct DownloadTracker {
    total: u32,
    completed: u32,
    tick: u32,
    paths: Vec<Option<String>>,
}

impl DownloadTracker {
    /// Number of chapters in the batch.
    pub closed spec fn total(&self) -> u32 {
        self.total
    }

    /// Chapters finished so far.
    pub closed spec fn completed(&self) -> u32 {
        self.completed
    }

    /// Seconds ticked so far.
    pub closed spec fn tick(&self) -> u32 {
        self.tick
    }

    /// Each chapter's archive, once it finished.
    pub closed spec fn archives(&self) -> Seq<Option<String>> {
        self.paths@
    }

    /// A batch of `chapters` downloads, none finished. The count reported is
    /// the chapter count as a `u32`, wrapping past its maximum.
    pub fn new(chapters: usize) -> (tracker: Self)
        ensures
            tracker.archives().len() == chapters,
            tracker.total() == chapters as u32,
            tracker.completed() == 0,
            tracker.tick() == 0,
            forall|i: int| 0 <= i < chapters ==> tracker.archives()[i] is None,
    {
        let mut paths: Vec<Option<String>> = Vec::new();
        let mut i: usize = 0;
        while i < chapters
            invariant
                i <= chapters,
                paths@.len() == i,
                forall|k: int| 0 <= k < i ==> paths@[k] is None,
            decreases chapters - i,
        {
            paths.push(None);
            i = i + 1;
        }
        DownloadTracker { total: #[verifier::truncate] (chapters as u32), completed: 0, tick: 0, paths }
    }

    /// Whether the batch is still waiting for chapters.
    pub fn is_waiting(&self) -> (waiting: bool)
        ensures
            waiting == (self.completed() < self.total()),
    {
        self.completed < self.total
    }

    /// A second passed. The tick count grows (stopping at its maximum); a
    /// cancelled batch ends, otherwise the waiting progress is reported.
    pub fn on_tick(&mut self, cancelled: bool) -> (update: DownloadUpdate)
        ensures
            final(self).tick() == (if old(self).tick() == u32::MAX { u32::MAX } else { (old(self).tick() + 1) as u32 }),
            final(self).completed() == old(self).completed(),
            final(self).total() == old(self).total(),
            final(self).archives() == old(self).archives(),
            cancelled ==> (update matches DownloadUpdate::Cancelled(event) && is_cancelled_event(event)),
            !cancelled ==> (update matches DownloadUpdate::Progress(event) && {
                &&& event.current_chapter@ == "Downloading chapters\u{2026} "@ + decimal(final(self).tick() as nat) + "s"@
                &&& event.current == final(self).completed()
                &&& event.total == final(self).total()
                &&& event.phase == ChapterDownloadPhase::Downloading
                &&& event.tick == final(self).tick()
            }),
    {
        self.tick = self.tick.saturating_add(1);
        if cancelled {
            return cancelled_update();
        }
        let mut label = "Downloading chapters\u{2026} ".to_string();
        let seconds = decimal_string(self.tick as u64);
        append_str(&mut label, seconds.as_str());
        append_str(&mut label, "s");
        DownloadUpdate::Progress(
            ChapterDownloadEvent {
                current_chapter: label,
                current: self.completed,
                total: self.total,
                phase: ChapterDownloadPhase::Downloading,
                tick: self.tick,
            },
        )
    }

    /// The `index`-th chapter (id `chapter_id`) finished into `archive`. A
    /// cancelled batch ends; otherwise the archive is recorded and the
    /// chapter reported complete.
    pub fn on_chapter(&mut self, cancelled: bool, index: usize, chapter_id: i64, archive: String) -> (update: DownloadUpdate)
        requires
            !cancelled ==> index < old(self).archives().len(),
            !cancelled ==> old(self).completed() < u32::MAX,
        ensures
            final(self).tick() == old(self).tick(),
            final(self).total() == old(self).total(),
            cancelled ==> (update matches DownloadUpdate::Cancelled(event) && is_cancelled_event(event)
                && *final(self) == *old(self)),
            !cancelled ==> {
                &&& final(self).completed() == old(self).completed() + 1
                &&& final(self).archives() == old(self).archives().update(index as int, Some(archive))
                &&& (update matches DownloadUpdate::Progress(event) && {
                    &&& event.current_chapter@ == signed_decimal(chapter_id as int)
                    &&& event.current == final(self).completed()
                    &&& event.total == final(self).total()
                    &&& event.phase == ChapterDownloadPhase::Complete
                    &&& event.tick == final(self).tick()
                })
            },
    {
        if cancelled {
            return cancelled_update();
        }
        self.paths.set(index, Some(archive));
        self.completed = self.completed + 1;
        DownloadUpdate::Progress(
            ChapterDownloadEvent {
                current_chapter: signed_decimal_string(chapter_id),
                current: self.completed,
                total: self.total,
                phase: ChapterDownloadPhase::Complete,
                tick: self.tick,
            },
        )
    }

    /// The batch ended: the archives in chapter order when every chapter
    /// finished, otherwise the message that says how many did.
    pub fn finish(self) -> (result: Result<Vec<String>, String>)
        ensures
            self.completed() == self.total() ==> result is Ok && result->Ok_0@ == flatten_archives(self.archives()),
            self.completed() != self.total() ==> result is Err && result->Err_0@ == "Download stopped before all chapters completed ("@
                + decimal(self.completed() as nat) + "/"@ + decimal(self.total() as nat) + ")."@,
    {
        if self.completed == self.total {
            let mut out: Vec<String> = Vec::new();
            let mut i: usize = 0;
            while i < self.paths.len()
                invariant
                    i <= self.paths@.len(),
                    out@ == flatten_archives(self.paths@.take(i as int)),
                decreases self.paths@.len() - i,
            {
                proof {
                    assert(self.paths@.take(i + 1).drop_last() == self.paths@.take(i as int));
                }
                match &self.paths[i] {
                    Some(path) => out.push(path.clone()),
                    None => {},
                }
                i = i + 1;
                proof {
                    assert(out@ =~= flatten_archives(self.paths@.take(i as int)));
                }
            }
            proof {
                assert(self.paths@.take(i as int) == self.paths@);
            }
            Ok(out)
        } else {
            let mut message = "Download stopped before all chapters completed (".to_string();
            let done = decimal_string(self.completed as u64);
            append_str(&mut message, done.as_str());
            append_str(&mut message, "/");
            let all = decimal_string(self.total as u64);
            append_str(&mut message, all.as_str());
            append_str(&mut message, ").");
            Err(message)
        }
    }
}

/// The archives that exist, in chapter order.
pub open spec fn flatten_archives(archives: Seq<Option<String>>) -> Seq<String>
    decreases archives.len(),
{
    if archives.len() == 0 {
        Seq::empty()
    } else {
        let rest = flatten_archives(archives.drop_last());
        match archives.last() {
            Some(path) => rest.push(path),
            None => rest,
        }
    }
}

/// When every chapter of a batch finished, the archives come back one per
/// chapter, in chapter order; in any case no more than there are chapters.
pub proof fn law_finished_archives_in_order(archives: Seq<Option<String>>)
    ensures
        flatten_archives(archives).len() <= archives.len(),
        (forall|i: int| 0 <= i < archives.len() ==> #[trigger] archives[i] is Some) ==> {
            &&& flatten_archives(archives).len() == archives.len()
            &&& forall|i: int| 0 <= i < archives.len() ==> #[trigger] flatten_archives(archives)[i] == archives[i]->Some_0
        },
    decreases archives.len(),
{
    if archives.len() > 0 {
        let rest = archives.drop_last();
        law_finished_archives_in_order(rest);
        if forall|i: int| 0 <= i < archives.len() ==> #[trigger] archives[i] is Some {
            assert forall|i: int| 0 <= i < rest.len() implies #[trigger] rest[i] is Some by {
                assert(rest[i] == archives[i]);
            }
            assert(archives.last() == archives[archives.len() - 1]);
            assert forall|i: int| 0 <= i < archives.len() implies #[trigger] flatten_archives(archives)[i] == archives[i]->Some_0 by {
                if i < rest.len() {
                    assert(rest[i] == archives[i]);
                }
            }
        }
    }
}

/// Where a downloaded series is extracted: under the configured download
/// directory, or under `manga-downloads` in the server's data directory, in a
/// directory named after the sanitized series title.
pub open spec fn series_dir(configured: Option<Seq<char>>, data_dir: Seq<char>, title: Seq<char>) -> Seq<char> {
    match configured {
        Some(dir) => join(dir, sanitized_name(title)),
        None => join(join(data_dir, "manga-downloads"@), sanitized_name(title)),
    }
}

/// The directory a downloaded series is extracted to (see [`series_dir`]).
pub fn manga_download_dir(configured: &Option<String>, data_dir: &str, title: &str) -> (dir: String)
    ensures
        dir@ == series_dir(
            match configured {
                Some(d) => Some(d@),
                None => None,
            },
            data_dir@,
            title@,
        ),
{
    let name = sanitize_file_name(title);
    match configured {
        Some(d) => join_path(d.as_str(), name.as_str()),
        None => {
            let root = join_path(data_dir, "manga-downloads");
            join_path(root.as_str(), name.as_str())
        },
    }
}

/// The output directory a finished download reports: none when the series
/// is handed straight to conversion, the series directory otherwise.
pub fn download_output_dir(convert_after: bool, series_dir: String) -> (output: Option<String>)
    ensures
        convert_after ==> output is None,
        !convert_after ==> output == Some(series_dir),
{
    if convert_after {
        None
    } else {
        Some(series_dir)
    }
}

/// A configuration string value: backslashes and double quotes escaped.
pub open spec fn escaped_conf(s: Seq<char>) -> Seq<char>
    decreases s.len(),
{
    if s.len() == 0 {
        Seq::empty()
    } else {
        let c = s.last();
        escaped_conf(s.drop_last()) + (if c == '\\' {
            seq!['\\', '\\']
        } else if c == '"' {
            seq!['\\', '"']
        } else {
            seq![c]
        })
    }
}

/// The repository URLs written to the configuration: trimmed, and empty ones left out.
pub open spec fn kept_repos(repos: Seq<Seq<char>>) -> Seq<Seq<char>>
    decreases repos.len(),
{
    if repos.len() == 0 {
        Seq::empty()
    } else {
        let rest = kept_repos(repos.drop_last());
        let t = trimmed(repos.last());
        if t.len() == 0 {
            rest
        } else {
            rest.push(t)
        }
    }
}

/// Values quoted (with `escape` applied inside the quotes) and joined by `, `.
pub open spec fn quoted_list(values: Seq<Seq<char>>, escape: spec_fn(Seq<char>) -> Seq<char>) -> Seq<char>
    decreases values.len(),
{
    if values.len() == 0 {
        Seq::empty()
    } else if values.len() == 1 {
        seq!['"'] + escape(values[0]) + seq!['"']
    } else {
        quoted_list(values.drop_last(), escape) + ", "@ + seq!['"'] + escape(values.last()) + seq!['"']
    }
}

/// The server configuration before the repository list.
pub const SERVER_CONF_HEAD: &'static str = "server {\n  ip = \"127.0.0.1\"\n  webUIEnabled = false\n  initialOpenInBrowserEnabled = false\n  systemTrayEnabled = false\n  downloadAsCbz = true\n  autoDownloadNewChapters = false\n  updateMangas = false\n  globalUpdateInterval = 0\n  extensionRepos = [";

/// The server configuration after the repository list.
pub const SERVER_CONF_TAIL: &'static str = "]\n}\n\nsuwayomi {\n  server {\n    kcefEnabled = true\n    downloadKcefAtStartup = true\n  }\n}\n";

/// The content of the server's configuration file for the given extension repositories.
pub open spec fn server_conf(repos: Seq<Seq<char>>) -> Seq<char> {
    SERVER_CONF_HEAD@ + quoted_list(kept_repos(repos), |s: Seq<char>| escaped_conf(s)) + SERVER_CONF_TAIL@
}

fn push_escaped_conf(out: &mut String, value: &Vec<char>, lo: usize, hi: usize)
    requires
        lo <= hi <= value@.len(),
    ensures
        final(out)@ == old(out)@ + escaped_conf(value@.subrange(lo as int, hi as int)),
{
    let ghost start = out@;
    let mut i = lo;
    proof {
        assert(value@.subrange(lo as int, lo as int) =~= Seq::<char>::empty());
        assert(start + Seq::<char>::empty() =~= start);
    }
    while i < hi
        invariant
            lo <= i <= hi <= value@.len(),
            out@ == start + escaped_conf(value@.subrange(lo as int, i as int)),
        decreases hi - i,
    {
        let c = value[i];
        proof {
            assert(value@.subrange(lo as int, i + 1).drop_last() =~= value@.subrange(lo as int, i as int));
        }
        if c == '\\' {
            push_char(out, '\\');
            push_char(out, '\\');
        } else if c == '"' {
            push_char(out, '\\');
            push_char(out, '"');
        } else {
            push_char(out, c);
        }
        i = i + 1;
        proof {
            assert(out@ =~= start + escaped_conf(value@.subrange(lo as int, i as int)));
        }
    }
}

/// Writes the server configuration for the given extension repositories (see [`server_conf`]).
pub fn server_conf_content(repos: &Vec<String>) -> (content: String)
    ensures
        content@ == server_conf(repos@.map_values(|r: String| r@)),
{
    let ghost views = repos@.map_values(|r: String| r@);
    let mut out = SERVER_CONF_HEAD.to_string();
    let ghost head = out@;
    let mut any_written = false;
    let mut i: usize = 0;
    proof {
        assert(views.take(0) =~= Seq::<Seq<char>>::empty());
        assert(head + Seq::<char>::empty() =~= head);
    }
    while i < repos.len()
        invariant
            i <= repos@.len(),
            views == repos@.map_values(|r: String| r@),
            head == SERVER_CONF_HEAD@,
            any_written == (kept_repos(views.take(i as int)).len() > 0),
            out@ == head + quoted_list(kept_repos(views.take(i as int)), |s: Seq<char>| escaped_conf(s)),
        decreases repos@.len() - i,
    {
        let chars = chars_of(repos[i].as_str());
        let n = chars.len();
        let lo = skip_leading(&chars, 0, n, CharClass::Whitespace);
        let hi = skip_trailing(&chars, lo, n, CharClass::Whitespace);
        proof {
            assert(views.take(i + 1).drop_last() == views.take(i as int));
            assert(views.take(i + 1).last() == repos@[i as int]@);
            assert(chars@.subrange(0, n as int) == chars@);
            assert(chars@.subrange(lo as int, hi as int) == trimmed(repos@[i as int]@));
        }
        if lo < hi {
            let ghost before = out@;
            if any_written {
                append_str(&mut out, ", ");
            }
            push_char(&mut out, '"');
            push_escaped_conf(&mut out, &chars, lo, hi);
            push_char(&mut out, '"');
            proof {
                let kept = kept_repos(views.take(i + 1));
                assert(kept == kept_repos(views.take(i as int)).push(trimmed(repos@[i as int]@)));
                assert(kept.drop_last() == kept_repos(views.take(i as int)));
                if any_written {
                    assert(out@ =~= head + quoted_list(kept, |s: Seq<char>| escaped_conf(s)));
                } else {
                    assert(out@ =~= head + quoted_list(kept, |s: Seq<char>| escaped_conf(s)));
                }
            }
            any_written = true;
        }
        i = i + 1;
    }
    proof {
        assert(views.take(i as int) == views);
    }
    append_str(&mut out, SERVER_CONF_TAIL);
    out
}

/// The monitor's decisions over successive looks at the server, starting
/// with `restarts` automatic restarts in a row: the watch ends at the first
/// decision to give up or to stop.
pub open spec fn monitor_run(restarts: u32, snapshots: Seq<RuntimeState>) -> Seq<MonitorDecision>
    decreases snapshots.len(),
{
    if snapshots.len() == 0 {
        Seq::empty()
    } else {
        let step = monitor_decision(restarts, snapshots[0]);
        if step.1 is GiveUp || step.1 is Stop {
            seq![step.1]
        } else {
            seq![step.1] + monitor_run(step.0, snapshots.drop_first())
        }
    }
}

/// How many of the decisions restart the server.
pub open spec fn restarts_in(decisions: Seq<MonitorDecision>) -> nat
    decreases decisions.len(),
{
    if decisions.len() == 0 {
        0
    } else {
        (if decisions[0] is Restart { 1nat } else { 0nat }) + restarts_in(decisions.drop_first())
    }
}

/// Whether the server was seen to have exited in a way that is restarted automatically.
pub open spec fn is_recoverable_crash(snapshot: RuntimeState) -> bool {
    snapshot matches RuntimeState::Error { message } && recoverable_exit(message@)
}

/// Whether the server is seen running or starting, which resets the count.
pub open spec fn is_healthy(snapshot: RuntimeState) -> bool {
    snapshot is Ready || snapshot is Starting
}

/// Over a whole watch, the monitor restarts the server at most three times
/// between two looks that find it healthy: from a count of `restarts`, as
/// long as it is not seen healthy, it makes at most `3 - restarts` more.
pub proof fn law_monitor_run_restart_bound(restarts: u32, snapshots: Seq<RuntimeState>)
    requires
        restarts <= MAX_AUTO_RESTARTS,
        forall|i: int| 0 <= i < snapshots.len() ==> !is_healthy(#[trigger] snapshots[i]),
    ensures
        restarts_in(monitor_run(restarts, snapshots)) <= MAX_AUTO_RESTARTS - restarts,
    decreases snapshots.len(),
{
    if snapshots.len() > 0 {
        let step = monitor_decision(restarts, snapshots[0]);
        let run = monitor_run(restarts, snapshots);
        assert(!is_healthy(snapshots[0]));
        assert(run[0] == step.1);
        assert(step.1 is Restart ==> step.0 == restarts + 1 && restarts < MAX_AUTO_RESTARTS);
        assert(step.1 is Watch ==> step.0 == restarts);
        assert(run.len() > 0);
        assert(restarts_in(run) == (if run[0] is Restart { 1nat } else { 0nat }) + restarts_in(run.drop_first()));
        if step.1 is GiveUp || step.1 is Stop {
            assert(run.drop_first() =~= Seq::<MonitorDecision>::empty());
            assert(restarts_in(run.drop_first()) == 0);
        } else {
            let rest = snapshots.drop_first();
            assert forall|i: int| 0 <= i < rest.len() implies !is_healthy(#[trigger] rest[i]) by {
                assert(rest[i] == snapshots[i + 1]);
            }
            law_monitor_run_restart_bound(step.0, rest);
            assert(run.drop_first() =~= monitor_run(step.0, rest));
        }
    }
}

/// A server that keeps crashing in a recoverable way is restarted until
/// three restarts in a row were made, and the next crash ends the watch:
/// from a count of `restarts`, the run is `3 - restarts` restarts and then
/// giving up with the crash message.
pub proof fn law_monitor_run_gives_up(restarts: u32, snapshots: Seq<RuntimeState>)
    requires
        restarts <= MAX_AUTO_RESTARTS,
        snapshots.len() >= 4 - restarts,
        forall|i: int| 0 <= i < snapshots.len() ==> is_recoverable_crash(#[trigger] snapshots[i]),
    ensures
        monitor_run(restarts, snapshots).len() == 4 - restarts,
        forall|i: int| 0 <= i < 3 - restarts ==> #[trigger] monitor_run(restarts, snapshots)[i] is Restart,
        monitor_run(restarts, snapshots).last() matches MonitorDecision::GiveUp { message }
            && snapshots[3 - restarts] matches RuntimeState::Error { message: m }
            && message == "Suwayomi-Server keeps crashing after automatic restarts: "@ + m@,
    decreases 3 - restarts,
{
    let run = monitor_run(restarts, snapshots);
    assert(is_recoverable_crash(snapshots[0]));
    if restarts < MAX_AUTO_RESTARTS {
        let rest = snapshots.drop_first();
        assert forall|i: int| 0 <= i < rest.len() implies is_recoverable_crash(#[trigger] rest[i]) by {
            assert(rest[i] == snapshots[i + 1]);
        }
        let next = (restarts + 1) as u32;
        law_monitor_run_gives_up(next, rest);
        let tail = monitor_run(next, rest);
        assert(run == seq![monitor_decision(restarts, snapshots[0]).1] + tail);
        assert forall|i: int| 0 <= i < 3 - restarts implies #[trigger] run[i] is Restart by {
            if i > 0 {
                assert(run[i] == tail[i - 1]);
            }
        }
        assert(run.last() == tail.last());
        assert(snapshots[3 - restarts] == rest[3 - next]);
    }
}

} // verus!
