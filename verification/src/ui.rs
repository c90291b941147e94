//! Rules of the native desktop front end: navigation labels, wizard steps,
//! server status text, download directory names and its server configuration.
use vstd::prelude::*;
use std::collections::HashSet;
use crate::discovery::{is_reserved_name_char, quoted_list, RuntimeState};
use crate::paths::{join, join_path};
use crate::text::{
    append_str, chars_of, decimal, decimal_string, in_class, is_unicode_whitespace, lemma_strip_leading,
    lemma_strip_trailing, push_char, skip_leading, skip_trailing, strip_leading, strip_trailing,
    string_from_range, trimmed, CharClass,
};

verus! {

broadcast use vstd::std_specs::hash::group_hash_axioms;

/// The pages of the desktop application.
#[derive(Clone, Copy, Debug, PartialEq, Eq, Structural)]
pub enum Page {
    Home,
    Convert,
    Discover,
    Settings,
}

/// The navigation label of a page.
pub open spec fn page_label(page: Page) -> Seq<char> {
    match page {
        Page::Home => "Home"@,
        Page::Convert => "Convert"@,
        Page::Discover => "Discover"@,
        Page::Settings => "Settings"@,
    }
}

impl Default for Page {
    fn default() -> (page: Self)
        ensures
            page == Page::Home,
    {
        Page::Home
    }
}

impl Page {
    /// The page's navigation label.
    pub fn label(self) -> (label: &'static str)
        ensures
            label@ == page_label(self),
    {
        match self {
            Page::Home => "Home",
            Page::Convert => "Convert",
            Page::Discover => "Discover",
            Page::Settings => "Settings",
        }
    }
}

/// The steps of the conversion wizard.
#[derive(Clone, Copy, Debug, PartialEq, Eq, Structural)]
pub enum ConvertStep {
    Source,
    Output,
    Volumes,
    Pages,
    Review,
    Converting,
    Complete,
}

/// Position of a step in the wizard's step indicator; converting and the
/// finished run share the last position.
pub open spec fn step_position(step: ConvertStep) -> nat {
    match step {
        ConvertStep::Source => 0,
        ConvertStep::Output => 1,
        ConvertStep::Volumes => 2,
        ConvertStep::Pages => 3,
        ConvertStep::Review => 4,
        ConvertStep::Converting | ConvertStep::Complete => 5,
    }
}

/// The step's position in the step indicator (see [`step_position`]).
pub fn convert_step_index(step: ConvertStep) -> (index: usize)
    ensures
        index == step_position(step),
{
    match step {
        ConvertStep::Source => 0,
        ConvertStep::Output => 1,
        ConvertStep::Volumes => 2,
        ConvertStep::Pages => 3,
        ConvertStep::Review => 4,
        ConvertStep::Converting | ConvertStep::Complete => 5,
    }
}

/// The short status text of the discovery server.
pub open spec fn runtime_text(runtime: RuntimeState) -> Seq<char> {
    match runtime {
        RuntimeState::NotInstalled => "Setup needed"@,
        RuntimeState::NotRunning => "Stopped"@,
        RuntimeState::Starting => "Starting"@,
        RuntimeState::Ready { port } => "Ready:"@ + decimal(port as nat),
        RuntimeState::Error { message } => "Error: "@ + message@,
    }
}

/// The status text shown for the discovery server (see [`runtime_text`]).
pub fn runtime_label(runtime: &RuntimeState) -> (label: String)
    ensures
        label@ == runtime_text(*runtime),
{
    match runtime {
        RuntimeState::NotInstalled => "Setup needed".to_string(),
        RuntimeState::NotRunning => "Stopped".to_string(),
        RuntimeState::Starting => "Starting".to_string(),
        RuntimeState::Ready { port } => {
            let mut label = "Ready:".to_string();
            let digits = decimal_string(*port as u64);
            append_str(&mut label, digits.as_str());
            label
        },
        RuntimeState::Error { message } => {
            let mut label = "Error: ".to_string();
            append_str(&mut label, message.as_str());
            label
        },
    }
}

/// Why the review step cannot be opened yet: no output directory chosen.
pub fn review_blocker(output_dir: &str) -> (blocker: Option<String>)
    ensures
        output_dir@.len() == 0 ==> blocker is Some && blocker->0@ == "Select an output directory first."@,
        output_dir@.len() != 0 ==> blocker is None,
{
    let chars = chars_of(output_dir);
    if chars.len() == 0 {
        Some("Select an output directory first.".to_string())
    } else {
        None
    }
}

/// The message shown when a volume failed: its error, or a generic one naming the volume.
pub fn volume_failure_message(volume_num: u32, error: Option<String>) -> (message: String)
    ensures
        match error {
            Some(e) => message == e,
            None => message@ == "Volume "@ + decimal(volume_num as nat) + " failed"@,
        },
{
    match error {
        Some(e) => e,
        None => {
            let mut message = "Volume ".to_string();
            let digits = decimal_string(volume_num as u64);
            append_str(&mut message, digits.as_str());
            append_str(&mut message, " failed");
            message
        },
    }
}

/// A name character with reserved characters replaced by `_`.
pub open spec fn desktop_name_char(c: char) -> char {
    if is_reserved_name_char(c) {
        '_'
    } else {
        c
    }
}

/// A series title made safe as a directory name by the desktop front end:
/// reserved characters become `_`, surrounding white space is removed, then
/// trailing dots and spaces, and an empty result becomes `download`.
pub open spec fn desktop_sanitized_name(title: Seq<char>) -> Seq<char> {
    let cleaned = strip_trailing(
        trimmed(title.map_values(|c: char| desktop_name_char(c))),
        in_class(CharClass::DotOrSpace),
    );
    if cleaned.len() == 0 {
        "download"@
    } else {
        cleaned
    }
}

/// A title sanitized by the desktop front end is a usable directory name:
/// never empty, free of reserved characters, and not ending in a dot or a space.
pub proof fn law_desktop_name_is_safe(title: Seq<char>)
    ensures
        desktop_sanitized_name(title).len() > 0,
        forall|i: int|
            0 <= i < desktop_sanitized_name(title).len() ==> !is_reserved_name_char(
                #[trigger] desktop_sanitized_name(title)[i],
            ),
        desktop_sanitized_name(title).last() != '.',
        desktop_sanitized_name(title).last() != ' ',
{
    let mapped = title.map_values(|c: char| desktop_name_char(c));
    let ws = in_class(CharClass::Whitespace);
    let tail = in_class(CharClass::DotOrSpace);
    let t1 = strip_leading(mapped, ws);
    let t2 = trimmed(mapped);
    let cleaned = strip_trailing(t2, tail);
    lemma_strip_leading(mapped, ws);
    lemma_strip_trailing(t1, ws);
    lemma_strip_trailing(t2, tail);
    let r = desktop_sanitized_name(title);
    if cleaned.len() == 0 {
        reveal_strlit("download");
        assert(r == "download"@);
    } else {
        assert(r == cleaned);
        assert forall|i: int| 0 <= i < r.len() implies !is_reserved_name_char(#[trigger] r[i]) by {
            let a = mapped.len() - t1.len();
            assert(r[i] == t2[i]);
            assert(t2[i] == t1[i]);
            assert(t1[i] == mapped[a + i]);
        }
    }
}

/// Sanitizing a title the desktop front end already sanitized changes
/// nothing, for titles whose only white space is the plain space. (A title
/// such as `"a\t."` is not covered: its sanitized form `"a\t"` ends in a tab,
/// which a second pass trims.)
pub proof fn law_desktop_sanitize_idempotent(title: Seq<char>)
    requires
        forall|i: int| 0 <= i < title.len() && is_unicode_whitespace(#[trigger] title[i]) ==> title[i] == ' ',
    ensures
        desktop_sanitized_name(desktop_sanitized_name(title)) == desktop_sanitized_name(title),
{
    let ws = in_class(CharClass::Whitespace);
    let tail = in_class(CharClass::DotOrSpace);
    let r = desktop_sanitized_name(title);
    law_desktop_name_is_safe(title);
    let mapped_r = r.map_values(|c: char| desktop_name_char(c));
    assert(mapped_r =~= r);
    let mapped = title.map_values(|c: char| desktop_name_char(c));
    let t1 = strip_leading(mapped, ws);
    let t2 = trimmed(mapped);
    let cleaned = strip_trailing(t2, tail);
    lemma_strip_leading(mapped, ws);
    lemma_strip_trailing(t1, ws);
    lemma_strip_trailing(t2, tail);
    if cleaned.len() == 0 {
        reveal_strlit("download");
        assert(r == "download"@);
        assert(!ws(r[0]));
        assert(!ws(r.last()));
    } else {
        assert(r == cleaned);
        let a = mapped.len() - t1.len();
        assert(r[0] == t2[0]);
        assert(t2[0] == t1[0]);
        assert(!ws(r[0]));
        let k = r.len() - 1;
        assert(r.last() == r[k]);
        assert(r[k] == t2[k]);
        assert(t2[k] == t1[k]);
        assert(t1[k] == mapped[a + k]);
        assert(mapped[a + k] == desktop_name_char(title[a + k]));
        assert(!ws(r.last()));
    }
    assert(strip_leading(r, ws) == r);
    assert(strip_trailing(r, ws) == r);
    assert(trimmed(mapped_r) == r);
    assert(strip_trailing(r, tail) == r);
}

/// Makes a series title safe as a directory name (see [`desktop_sanitized_name`]).
pub fn sanitize_file_name(value: &str) -> (name: String)
    ensures
        name@ == desktop_sanitized_name(value@),
{
    let chars = chars_of(value);
    let mut mapped: Vec<char> = Vec::new();
    let mut i: usize = 0;
    while i < chars.len()
        invariant
            i <= chars@.len(),
            chars@ == value@,
            mapped@ == value@.take(i as int).map_values(|c: char| desktop_name_char(c)),
        decreases chars@.len() - i,
    {
        let c = chars[i];
        let safe = if c == '<' || c == '>' || c == ':' || c == '"' || c == '/' || c == '\\' || c == '|' || c
            == '?' || c == '*' {
            '_'
        } else {
            c
        };
        mapped.push(safe);
        i = i + 1;
        proof {
            assert(mapped@ =~= value@.take(i as int).map_values(|c: char| desktop_name_char(c)));
        }
    }
    proof {
        assert(value@.take(value@.len() as int) == value@);
        assert(mapped@.subrange(0, mapped@.len() as int) == mapped@);
    }
    let n = mapped.len();
    let lo = skip_leading(&mapped, 0, n, CharClass::Whitespace);
    let hi = skip_trailing(&mapped, lo, n, CharClass::Whitespace);
    let hi2 = skip_trailing(&mapped, lo, hi, CharClass::DotOrSpace);
    if lo == hi2 {
        "download".to_string()
    } else {
        string_from_range(&mapped, lo, hi2)
    }
}

/// A configuration string value with double quotes escaped.
pub open spec fn quote_escaped(s: Seq<char>) -> Seq<char>
    decreases s.len(),
{
    if s.len() == 0 {
        Seq::empty()
    } else {
        let c = s.last();
        quote_escaped(s.drop_last()) + (if c == '"' {
            seq!['\\', '"']
        } else {
            seq![c]
        })
    }
}

/// The server configuration written by the desktop front end, before the repository list.
pub const DESKTOP_CONF_HEAD: &'static str = "server {\n  ip = \"127.0.0.1\"\n  webUIEnabled = false\n  systemTrayEnabled = false\n  extensionRepos = [";

/// The server configuration written by the desktop front end, after the repository list.
pub const DESKTOP_CONF_TAIL: &'static str = "]\n}\n";

/// The configuration the desktop front end writes for the given repositories:
/// every repository quoted as given, with its quotes escaped.
pub open spec fn desktop_server_conf(repos: Seq<Seq<char>>) -> Seq<char> {
    DESKTOP_CONF_HEAD@ + quoted_list(repos, |s: Seq<char>| quote_escaped(s)) + DESKTOP_CONF_TAIL@
}

/// Writes the desktop front end's server configuration (see [`desktop_server_conf`]).
pub fn desktop_conf_content(repos: &Vec<String>) -> (content: String)
    ensures
        content@ == desktop_server_conf(repos@.map_values(|r: String| r@)),
{
    let ghost views = repos@.map_values(|r: String| r@);
    let mut out = DESKTOP_CONF_HEAD.to_string();
    let ghost head = out@;
    let mut i: usize = 0;
    proof {
        assert(views.take(0) =~= Seq::<Seq<char>>::empty());
        assert(head + Seq::<char>::empty() =~= head);
    }
    while i < repos.len()
        invariant
            i <= repos@.len(),
            views == repos@.map_values(|r: String| r@),
            head == DESKTOP_CONF_HEAD@,
            out@ == head + quoted_list(views.take(i as int), |s: Seq<char>| quote_escaped(s)),
        decreases repos@.len() - i,
    {
        let chars = chars_of(repos[i].as_str());
        if i > 0 {
            append_str(&mut out, ", ");
        }
        push_char(&mut out, '"');
        let ghost before = out@;
        let mut k: usize = 0;
        proof {
            assert(chars@.take(0) =~= Seq::<char>::empty());
            assert(before + Seq::<char>::empty() =~= before);
        }
        while k < chars.len()
            invariant
                k <= chars@.len(),
                out@ == before + quote_escaped(chars@.take(k as int)),
            decreases chars@.len() - k,
        {
            let c = chars[k];
            proof {
                assert(chars@.take(k + 1).drop_last() =~= chars@.take(k as int));
            }
            if c == '"' {
                push_char(&mut out, '\\');
                push_char(&mut out, '"');
            } else {
                push_char(&mut out, c);
            }
            k = k + 1;
            proof {
                assert(out@ =~= before + quote_escaped(chars@.take(k as int)));
            }
        }
        push_char(&mut out, '"');
        proof {
            assert(chars@.take(chars@.len() as int) == chars@);
            assert(views.take(i + 1).drop_last() == views.take(i as int));
            assert(views.take(i + 1).last() == repos@[i as int]@);
            assert(out@ =~= head + quoted_list(views.take(i + 1), |s: Seq<char>| quote_escaped(s)));
        }
        i = i + 1;
    }
    proof {
        assert(views.take(i as int) == views);
    }
    append_str(&mut out, DESKTOP_CONF_TAIL);
    out
}

/// The error shown when the desktop front end has no server client.
pub fn client_not_ready() -> (message: String)
    ensures
        message@ == "Suwayomi is not ready."@,
{
    "Suwayomi is not ready.".to_string()
}

/// Where the desktop front end downloads a series: the configured download
/// directory, or `manga-downloads` in the server's data directory, then the
/// sanitized title.
pub open spec fn desktop_series_dir(configured: Option<Seq<char>>, data_dir: Seq<char>, title: Seq<char>) -> Seq<char> {
    let root = match configured {
        Some(dir) => dir,
        None => join(data_dir, "manga-downloads"@),
    };
    join(root, desktop_sanitized_name(title))
}

/// The directory the desktop front end downloads a series into (see [`desktop_series_dir`]).
pub fn download_destination(configured: &Option<String>, data_dir: &str, title: &str) -> (dir: String)
    ensures
        dir@ == desktop_series_dir(
            match configured {
                Some(d) => Some(d@),
                None => None,
            },
            data_dir@,
            title@,
        ),
{
    let root = match configured {
        Some(d) => d.clone(),
        None => join_path(data_dir, "manga-downloads"),
    };
    let name = sanitize_file_name(title);
    join_path(root.as_str(), name.as_str())
}

/// The search text to send, trimmed, or nothing when it is blank.
pub fn search_query(input: &str) -> (query: Option<String>)
    ensures
        trimmed(input@).len() == 0 ==> query is None,
        trimmed(input@).len() != 0 ==> query is Some && query->0@ == trimmed(input@),
{
    let chars = chars_of(input);
    let n = chars.len();
    proof {
        assert(chars@.subrange(0, n as int) == chars@);
    }
    let lo = skip_leading(&chars, 0, n, CharClass::Whitespace);
    let hi = skip_trailing(&chars, lo, n, CharClass::Whitespace);
    if lo == hi {
        None
    } else {
        Some(string_from_range(&chars, lo, hi))
    }
}

/// Positions, in list order, of the chapters whose id is selected.
pub open spec fn selected_positions(ids: Seq<i64>, selected: Set<i64>) -> Seq<usize>
    decreases ids.len(),
{
    if ids.len() == 0 {
        Seq::empty()
    } else {
        let rest = selected_positions(ids.drop_last(), selected);
        if selected.contains(ids.last()) {
            rest.push((ids.len() - 1) as usize)
        } else {
            rest
        }
    }
}

/// Every listed chapter whose id is selected is downloaded, and no other:
/// the positions chosen are exactly those whose id is in the selection,
/// each once and in list order.
pub proof fn law_selected_chapters_downloaded(ids: Seq<i64>, selected: Set<i64>)
    requires
        ids.len() <= usize::MAX,
    ensures
        forall|p: int| 0 <= p < ids.len() ==> (selected_positions(ids, selected).contains(p as usize)
            <==> selected.contains(#[trigger] ids[p])),
        forall|k: int| 0 <= k < selected_positions(ids, selected).len() ==> (#[trigger] selected_positions(ids, selected)[k]) < ids.len(),
        forall|k: int, l: int| 0 <= k < l < selected_positions(ids, selected).len() ==> (#[trigger] selected_positions(ids, selected)[k]) < (#[trigger] selected_positions(ids, selected)[l]),
    decreases ids.len(),
{
    if ids.len() > 0 {
        let rest = ids.drop_last();
        law_selected_chapters_downloaded(rest, selected);
        let before = selected_positions(rest, selected);
        let after = selected_positions(ids, selected);
        let n = ids.len() - 1;
        assert(after == before || after == before.push(n as usize));
        assert forall|k: int| 0 <= k < after.len() implies (#[trigger] after[k]) < ids.len() by {
            if k < before.len() {
                assert(after[k] == before[k]);
            }
        }
        assert forall|k: int, l: int| 0 <= k < l < after.len() implies (#[trigger] after[k]) < (#[trigger] after[l]) by {
            if l < before.len() {
                assert(after[k] == before[k]);
                assert(after[l] == before[l]);
            } else {
                assert(after[k] == before[k]);
                assert(before[k] < rest.len());
            }
        }
        assert forall|p: int| 0 <= p < ids.len() implies (after.contains(p as usize)
            <==> selected.contains(#[trigger] ids[p])) by {
            if p < n {
                assert(rest[p] == ids[p]);
                if after.contains(p as usize) {
                    let k = choose|k: int| 0 <= k < after.len() && after[k] == p as usize;
                    if k < before.len() {
                        assert(before[k] == p as usize);
                    }
                }
                if before.contains(p as usize) {
                    let k = choose|k: int| 0 <= k < before.len() && before[k] == p as usize;
                    assert(after[k] == p as usize);
                }
            } else {
                if selected.contains(ids.last()) {
                    assert(after[before.len() as int] == n as usize);
                } else {
                    if after.contains(p as usize) {
                        let k = choose|k: int| 0 <= k < after.len() && after[k] == p as usize;
                        assert(before[k] < rest.len());
                    }
                }
            }
        }
    }
}

/// The chapters to download: the positions of the listed chapters (by id)
/// that are selected, in list order.
pub fn chapters_to_download(ids: &Vec<i64>, selected: &HashSet<i64>) -> (positions: Vec<usize>)
    ensures
        positions@ == selected_positions(ids@, selected@),
        forall|p: int| 0 <= p < ids@.len() ==> (positions@.contains(p as usize) <==> selected@.contains(#[trigger] ids@[p])),
        forall|k: int, l: int| 0 <= k < l < positions@.len() ==> (#[trigger] positions@[k]) < (#[trigger] positions@[l]),
{
    let mut positions: Vec<usize> = Vec::new();
    let mut i: usize = 0;
    while i < ids.len()
        invariant
            i <= ids@.len(),
            positions@ == selected_positions(ids@.take(i as int), selected@),
        decreases ids@.len() - i,
    {
        proof {
            assert(ids@.take(i + 1).drop_last() == ids@.take(i as int));
        }
        if selected.contains(&ids[i]) {
            positions.push(i);
        }
        i = i + 1;
    }
    proof {
        assert(ids@.take(i as int) == ids@);
        law_selected_chapters_downloaded(ids@, selected@);
    }
    positions
}

/// What the conversion screen shows of a run's progress, apart from its
/// timings (rates, durations and estimates), which the screen copies from
/// each progress event as they come.
#[derive(Clone, Debug)]
pub struct ConversionProgress {
    pub volume_name: String,
    pub volume_num: u32,
    pub total_volumes: u32,
    pub current: u32,
    pub total: u32,
    pub input_bytes: u64,
    pub output_bytes: u64,
    pub passthrough_pages: u32,
    pub encoded_pages: u32,
    pub completed_outputs: Vec<String>,
}

/// A conversion event as the progress screen reads it, timings left out.
#[derive(Clone, Debug)]
pub enum ProgressEvent {
    VolumeStarted { volume_num: u32, volume_name: String, total_volumes: u32 },
    ImageProgress {
        volume_num: u32,
        current: u32,
        total: u32,
        input_bytes: u64,
        output_bytes: u64,
        passthrough_pages: u32,
        encoded_pages: u32,
    },
    VolumeCompleted { volume_num: u32, success: bool, error: Option<String>, output_path: Option<String> },
}

impl ConversionProgress {
    /// No run yet: every count zero, no name and no outputs.
    pub fn new() -> (progress: Self)
        ensures
            progress.volume_name@ == Seq::<char>::empty(),
            progress.volume_num == 0,
            progress.total_volumes == 0,
            progress.current == 0,
            progress.total == 0,
            progress.input_bytes == 0,
            progress.output_bytes == 0,
            progress.passthrough_pages == 0,
            progress.encoded_pages == 0,
            progress.completed_outputs@ == Seq::<String>::empty(),
    {
        ConversionProgress {
            volume_name: String::new(),
            volume_num: 0,
            total_volumes: 0,
            current: 0,
            total: 0,
            input_bytes: 0,
            output_bytes: 0,
            passthrough_pages: 0,
            encoded_pages: 0,
            completed_outputs: Vec::new(),
        }
    }
}

/// Updates the progress screen and its error line for one conversion event:
/// a started volume resets the page counts; image progress replaces the
/// counts; a completed volume adds its output, if any, to the list, and a
/// failed one sets the error line to its error or a message naming it.
pub fn apply_conversion_event(progress: &mut ConversionProgress, error: &mut Option<String>, event: ProgressEvent)
    ensures
        match event {
            ProgressEvent::VolumeStarted { volume_num, volume_name, total_volumes } => {
                &&& *final(progress) == (ConversionProgress {
                    volume_num,
                    volume_name,
                    total_volumes,
                    current: 0,
                    total: 0,
                    ..*old(progress)
                })
                &&& *final(error) == *old(error)
            },
            ProgressEvent::ImageProgress {
                volume_num,
                current,
                total,
                input_bytes,
                output_bytes,
                passthrough_pages,
                encoded_pages,
            } => {
                &&& *final(progress) == (ConversionProgress {
                    volume_num,
                    current,
                    total,
                    input_bytes,
                    output_bytes,
                    passthrough_pages,
                    encoded_pages,
                    ..*old(progress)
                })
                &&& *final(error) == *old(error)
            },
            ProgressEvent::VolumeCompleted { volume_num, success, error: failure, output_path } => {
                &&& final(progress).completed_outputs@ == match output_path {
                    Some(path) => old(progress).completed_outputs@.push(path),
                    None => old(progress).completed_outputs@,
                }
                &&& *final(progress) == (ConversionProgress {
                    completed_outputs: final(progress).completed_outputs,
                    ..*old(progress)
                })
                &&& success ==> *final(error) == *old(error)
                &&& !success ==> (*final(error) is Some && match failure {
                    Some(e) => final(error)->Some_0 == e,
                    None => final(error)->Some_0@ == "Volume "@ + decimal(volume_num as nat) + " failed"@,
                })
            },
        },
{
    match event {
        ProgressEvent::VolumeStarted { volume_num, volume_name, total_volumes } => {
            progress.volume_num = volume_num;
            progress.volume_name = volume_name;
            progress.total_volumes = total_volumes;
            progress.current = 0;
            progress.total = 0;
        },
        ProgressEvent::ImageProgress {
            volume_num,
            current,
            total,
            input_bytes,
            output_bytes,
            passthrough_pages,
            encoded_pages,
        } => {
            progress.volume_num = volume_num;
            progress.current = current;
            progress.total = total;
            progress.input_bytes = input_bytes;
            progress.output_bytes = output_bytes;
            progress.passthrough_pages = passthrough_pages;
            progress.encoded_pages = encoded_pages;
        },
        ProgressEvent::VolumeCompleted { volume_num, success, error: failure, output_path } => {
            if !success {
                *error = Some(volume_failure_message(volume_num, failure));
            }
            match output_path {
                Some(path) => progress.completed_outputs.push(path),
                None => {},
            }
        },
    }
}

/// The message shown when a download of `count` chapters starts.
pub fn download_started_message(count: usize) -> (message: String)
    ensures
        message@ == "Downloading "@ + decimal(count as nat) + " chapters..."@,
{
    let mut message = "Downloading ".to_string();
    let digits = decimal_string(count as u64);
    append_str(&mut message, digits.as_str());
    append_str(&mut message, " chapters...");
    message
}

} // verus!
