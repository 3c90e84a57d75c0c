//! The state of the window between frames: the download and link-analysis
//! status, the progress shown, and what each user action and each download event
//! does to them.

use vstd::prelude::*;

use crate::downloader::{DownloadEvent, EventView};
use crate::text::{decimal, push_decimal, trim, trim_str};

verus! {

/// Where the download stands.
#[derive(Debug, Clone, PartialEq, Eq)]
pub enum Status {
    Idle,
    Running,
    Done,
    Error(String),
}

/// Where the analysis of the link stands.
#[derive(Debug, Clone, PartialEq, Eq)]
pub enum AnalyzeStatus {
    Idle,
    Loading,
    Loaded,
    Error(String),
}

/// A status with its message as a character sequence.
pub enum StatusView {
    Idle,
    Running,
    Done,
    Error(Seq<char>),
}

/// An analysis status with its message as a character sequence.
pub enum AnalyzeView {
    Idle,
    Loading,
    Loaded,
    Error(Seq<char>),
}

impl View for Status {
    type V = StatusView;

    open spec fn view(&self) -> StatusView {
        match self {
            Status::Idle => StatusView::Idle,
            Status::Running => StatusView::Running,
            Status::Done => StatusView::Done,
            Status::Error(e) => StatusView::Error(e@),
        }
    }
}

impl View for AnalyzeStatus {
    type V = AnalyzeView;

    open spec fn view(&self) -> AnalyzeView {
        match self {
            AnalyzeStatus::Idle => AnalyzeView::Idle,
            AnalyzeStatus::Loading => AnalyzeView::Loading,
            AnalyzeStatus::Loaded => AnalyzeView::Loaded,
            AnalyzeStatus::Error(e) => AnalyzeView::Error(e@),
        }
    }
}

/// The window's download state.
#[derive(Debug, Clone)]
pub struct Session {
    pub status: Status,
    pub analyze_status: AnalyzeStatus,
    /// Progress of the current file, in tenths of a percent.
    pub percent_tenths: u32,
    pub speed: String,
    pub eta: String,
    pub playlist_item: String,
    /// Whether a yt-dlp process is being watched.
    pub tracking_process: bool,
}

/// The session with its texts as character sequences.
pub struct SessionView {
    pub status: StatusView,
    pub analyze_status: AnalyzeView,
    pub percent_tenths: u32,
    pub speed: Seq<char>,
    pub eta: Seq<char>,
    pub playlist_item: Seq<char>,
    pub tracking_process: bool,
}

impl View for Session {
    type V = SessionView;

    open spec fn view(&self) -> SessionView {
        SessionView {
            status: self.status@,
            analyze_status: self.analyze_status@,
            percent_tenths: self.percent_tenths,
            speed: self.speed@,
            eta: self.eta@,
            playlist_item: self.playlist_item@,
            tracking_process: self.tracking_process,
        }
    }
}

/// The state of a window that has just opened.
pub open spec fn initial_session() -> SessionView {
    SessionView {
        status: StatusView::Idle,
        analyze_status: AnalyzeView::Idle,
        percent_tenths: 0,
        speed: seq![],
        eta: seq![],
        playlist_item: seq![],
        tracking_process: false,
    }
}

/// Whether a download may start: the tools are in place and the link is not blank.
pub open spec fn download_allowed(tools_ready: bool, url: Seq<char>) -> bool {
    tools_ready && trim(url).len() > 0
}

/// The state after the user asks for a download.
pub open spec fn after_start(s: SessionView, tools_ready: bool, url: Seq<char>) -> SessionView {
    if !tools_ready {
        SessionView { status: StatusView::Error("yt-dlp/ffmpeg не готовы"@), ..s }
    } else if trim(url).len() == 0 {
        SessionView { status: StatusView::Error("Укажите ссылку"@), ..s }
    } else {
        SessionView {
            status: StatusView::Running,
            percent_tenths: 0,
            speed: seq![],
            eta: seq![],
            ..s
        }
    }
}

/// The state after a download event.
pub open spec fn after_event(s: SessionView, e: EventView) -> SessionView {
    match e {
        EventView::Log(_) => s,
        EventView::Progress { percent_tenths, speed, eta, item } => SessionView {
            percent_tenths,
            speed,
            eta,
            playlist_item: item,
            ..s
        },
        EventView::Finished(Ok(())) => SessionView {
            status: StatusView::Done,
            tracking_process: false,
            ..s
        },
        EventView::Finished(Err(m)) => SessionView {
            status: StatusView::Error(m),
            tracking_process: false,
            ..s
        },
    }
}

/// The state after the user asks for the link to be analysed.
pub open spec fn after_analyze_start(s: SessionView, tools_ready: bool, url: Seq<char>) -> SessionView {
    if !tools_ready {
        SessionView { analyze_status: AnalyzeView::Error("yt-dlp не готов"@), ..s }
    } else if trim(url).len() == 0 {
        SessionView { analyze_status: AnalyzeView::Error("Укажите ссылку"@), ..s }
    } else {
        SessionView { analyze_status: AnalyzeView::Loading, ..s }
    }
}

impl Session {
    /// The state of a window that has just opened.
    pub fn new() -> (r: Self)
        ensures
            r@ == initial_session(),
    {
        Session {
            status: Status::Idle,
            analyze_status: AnalyzeStatus::Idle,
            percent_tenths: 0,
            speed: String::new(),
            eta: String::new(),
            playlist_item: String::new(),
            tracking_process: false,
        }
    }

    /// The user asks for a download of `url`. Returns whether yt-dlp is to be
    /// launched: not when the tools are missing or the link is blank, which the
    /// status then reports; otherwise the progress is reset and the status is running.
    pub fn start_download(&mut self, tools_ready: bool, url: &str) -> (launch: bool)
        ensures
            launch == download_allowed(tools_ready, url@),
            final(self)@ == after_start(old(self)@, tools_ready, url@),
    {
        if !tools_ready {
            self.status = Status::Error("yt-dlp/ffmpeg не готовы".to_owned());
            return false;
        }
        if trim_str(url).is_empty() {
            self.status = Status::Error("Укажите ссылку".to_owned());
            return false;
        }
        self.percent_tenths = 0;
        self.speed = String::new();
        self.eta = String::new();
        self.status = Status::Running;
        true
    }

    /// yt-dlp was launched and is now watched.
    pub fn launched(&mut self)
        ensures
            final(self)@ == (SessionView { tracking_process: true, ..old(self)@ }),
    {
        self.tracking_process = true;
    }

    /// yt-dlp could not be launched, for `reason`.
    pub fn launch_failed(&mut self, reason: &str)
        ensures
            final(self)@ == (SessionView {
                status: StatusView::Error("Не удалось запустить yt-dlp: "@ + reason@),
                ..old(self)@
            }),
    {
        let mut msg = "Не удалось запустить yt-dlp: ".to_owned();
        msg.append(reason);
        self.status = Status::Error(msg);
    }

    /// The user cancels the download: the process is no longer watched, the status
    /// goes back to idle, and the returned line is written to the log.
    pub fn cancel_download(&mut self) -> (log_line: &'static str)
        ensures
            final(self)@ == (SessionView {
                status: StatusView::Idle,
                tracking_process: false,
                ..old(self)@
            }),
            log_line@ == "⏹ Загрузка отменена пользователем"@,
    {
        self.tracking_process = false;
        self.status = Status::Idle;
        "⏹ Загрузка отменена пользователем"
    }

    /// A download event arrives. Returns the line to write to the log, for a log event.
    pub fn apply_event(&mut self, event: DownloadEvent) -> (log_line: Option<String>)
        ensures
            final(self)@ == after_event(old(self)@, event@),
            match event@ {
                EventView::Log(l) => log_line is Some && log_line->0@ == l,
                _ => log_line is None,
            },
            match event@ {
                EventView::Progress { percent_tenths, speed, eta, item } => {
                    &&& final(self).percent_tenths == percent_tenths
                    &&& final(self).speed@ == speed
                    &&& final(self).eta@ == eta
                    &&& final(self).playlist_item@ == item
                },
                _ => true,
            },
    {
        match event {
            DownloadEvent::Log(line) => Some(line),
            DownloadEvent::Progress { percent_tenths, speed, eta, item } => {
                self.percent_tenths = percent_tenths;
                self.speed = speed;
                self.eta = eta;
                self.playlist_item = item;
                None
            },
            DownloadEvent::Finished(result) => {
                self.tracking_process = false;
                self.status = match result {
                    Ok(()) => Status::Done,
                    Err(e) => Status::Error(e),
                };
                None
            },
        }
    }

    /// The user asks for `url` to be analysed. Returns the trimmed link to analyse,
    /// or none when the tools are missing or the link is blank, which the analysis
    /// status then reports.
    pub fn start_analyze(&mut self, tools_ready: bool, url: &str) -> (r: Option<String>)
        ensures
            final(self)@ == after_analyze_start(old(self)@, tools_ready, url@),
            match r {
                Some(u) => download_allowed(tools_ready, url@) && u@ == trim(url@),
                None => !download_allowed(tools_ready, url@),
            },
    {
        if !tools_ready {
            self.analyze_status = AnalyzeStatus::Error("yt-dlp не готов".to_owned());
            return None;
        }
        let link = trim_str(url);
        if link.is_empty() {
            self.analyze_status = AnalyzeStatus::Error("Укажите ссылку".to_owned());
            return None;
        }
        self.analyze_status = AnalyzeStatus::Loading;
        Some(link.to_owned())
    }

    /// The analysis ended, successfully or with the reason it failed.
    pub fn finish_analyze(&mut self, result: Result<(), String>)
        ensures
            final(self)@ == (SessionView {
                analyze_status: match result {
                    Ok(()) => AnalyzeView::Loaded,
                    Err(e) => AnalyzeView::Error(e@),
                },
                ..old(self)@
            }),
    {
        self.analyze_status = match result {
            Ok(()) => AnalyzeStatus::Loaded,
            Err(e) => AnalyzeStatus::Error(e),
        };
    }

    /// Whether the window must keep redrawing: while a download or an analysis runs.
    pub fn is_busy(&self) -> (r: bool)
        ensures
            r == (self.status@ is Running || self.analyze_status@ is Loading),
    {
        matches!(self.status, Status::Running) || matches!(self.analyze_status, AnalyzeStatus::Loading)
    }

    /// Whether the progress bar is shown: while running, or once some progress was made.
    pub fn shows_progress(&self) -> (r: bool)
        ensures
            r == (self.status@ is Running || self.percent_tenths > 0),
    {
        matches!(self.status, Status::Running) || self.percent_tenths > 0
    }
}

/// The message shown when the bundled tools could not be prepared.
pub fn setup_error_message(detail: &str) -> (r: String)
    ensures
        r@ == "Не удалось подготовить yt-dlp/ffmpeg: "@ + detail@,
{
    let mut r = "Не удалось подготовить yt-dlp/ffmpeg: ".to_owned();
    r.append(detail);
    r
}

/// Name of the log file of a download started at `timestamp` (seconds since the epoch).
pub open spec fn log_file_name_of(timestamp: u64) -> Seq<char> {
    "yt-dlp-gui_"@ + decimal(timestamp as nat) + ".log"@
}

/// Name of the log file of a download started at `timestamp` (seconds since the epoch).
pub fn log_file_name(timestamp: u64) -> (r: String)
    ensures
        r@ == log_file_name_of(timestamp),
{
    let mut r = "yt-dlp-gui_".to_owned();
    push_decimal(&mut r, timestamp);
    r.append(".log");
    r
}

#[verifier::external_type_specification]
#[verifier::external_body]
pub struct ExSystemTime(std::time::SystemTime);

#[verifier::external_type_specification]
#[verifier::external_body]
pub struct ExSystemTimeError(std::time::SystemTimeError);

/// `std::time::SystemTime::now`: the current time of the system clock.
#[verifier::external_body]
fn system_now() -> (r: std::time::SystemTime) {
    std::time::SystemTime::now()
}

/// `std::time::SystemTime::duration_since` with `UNIX_EPOCH`: the time elapsed since
/// the epoch, or an error when `t` lies before it.
#[verifier::external_body]
fn since_unix_epoch(t: &std::time::SystemTime) -> (r: Result<
    std::time::Duration,
    std::time::SystemTimeError,
>) {
    t.duration_since(std::time::UNIX_EPOCH)
}

/// `std::time::Duration::as_secs`: the whole seconds in `d`.
#[verifier::external_body]
fn whole_seconds(d: &std::time::Duration) -> (r: u64) {
    d.as_secs()
}

/// The timestamp a clock reading gives: the whole seconds since the Unix epoch
/// where the clock reads a later time, zero where it reads an earlier one.
pub fn seconds_or_zero(since_epoch: Option<u64>) -> (r: u64)
    ensures
        r == match since_epoch {
            Some(s) => s,
            None => 0,
        },
{
    match since_epoch {
        Some(s) => s,
        None => 0,
    }
}

/// Seconds since the Unix epoch by the system clock; zero when the clock reads an
/// earlier time (see `seconds_or_zero`). The reading itself depends on the clock,
/// so no clause names its value.
pub fn timestamp() -> u64 {
    let reading = match since_unix_epoch(&system_now()) {
        Ok(d) => Some(whole_seconds(&d)),
        Err(_) => None,
    };
    seconds_or_zero(reading)
}

/// A session that finished, whether successfully or not, no longer runs and
/// watches no process; a log line changes nothing; progress changes only the
/// progress fields.
pub proof fn lemma_event_effects(s: SessionView, e: EventView)
    ensures
        e is Finished ==> !(after_event(s, e).status is Running) && !after_event(s, e).tracking_process,
        e is Log ==> after_event(s, e) == s,
        e is Progress ==> after_event(s, e).status == s.status && after_event(s, e).tracking_process
            == s.tracking_process,
{
}

/// A progress event is shown as it came: the session takes the event's
/// percentage, speed, remaining time and playlist item, each into the field of
/// the same name, and keeps its status and whether it watches a process.
pub proof fn lemma_progress_shown(
    s: SessionView,
    percent_tenths: u32,
    speed: Seq<char>,
    eta: Seq<char>,
    item: Seq<char>,
)
    ensures
        ({
            let t = after_event(
                s,
                EventView::Progress { percent_tenths, speed, eta, item },
            );
            &&& t.percent_tenths == percent_tenths
            &&& t.speed == speed
            &&& t.eta == eta
            &&& t.playlist_item == item
            &&& t.status == s.status
            &&& t.analyze_status == s.analyze_status
            &&& t.tracking_process == s.tracking_process
        }),
{
}

/// A download that was started and ends successfully is done: starting with a
/// non-blank link and ready tools, any number of progress and log events, then a
/// successful end, leaves the status done.
pub proof fn lemma_started_then_finished_is_done(
    s: SessionView,
    url: Seq<char>,
    events: Seq<EventView>,
)
    requires
        trim(url).len() > 0,
        forall|i: int| 0 <= i < events.len() ==> !(#[trigger] events[i] is Finished),
    ensures
        after_events(after_start(s, true, url), events).status is Running,
        after_event(after_events(after_start(s, true, url), events), EventView::Finished(Ok(()))).status is Done,
    decreases events.len(),
{
    lemma_events_keep_status(after_start(s, true, url), events);
}

/// The state after the events `events`, in order.
pub open spec fn after_events(s: SessionView, events: Seq<EventView>) -> SessionView
    decreases events.len(),
{
    if events.len() == 0 {
        s
    } else {
        after_event(after_events(s, events.drop_last()), events.last())
    }
}

proof fn lemma_events_keep_status(s: SessionView, events: Seq<EventView>)
    requires
        forall|i: int| 0 <= i < events.len() ==> !(#[trigger] events[i] is Finished),
    ensures
        after_events(s, events).status == s.status,
    decreases events.len(),
{
    if events.len() > 0 {
        assert(!(events[events.len() - 1] is Finished));
        assert forall|i: int| 0 <= i < events.drop_last().len() implies !(
        #[trigger] events.drop_last()[i] is Finished) by {
            assert(events.drop_last()[i] == events[i]);
        }
        lemma_events_keep_status(s, events.drop_last());
    }
}

} // verus!
