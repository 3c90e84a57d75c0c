//! What the downloader decides: which binaries to rewrite, what yt-dlp's output
//! lines report, and what a finished yt-dlp process means.

use vstd::prelude::*;

use sha2::Digest;

use crate::text::{decimal, digit_char, trim, trim_str};

verus! {

// --- Extracted binaries -------------------------------------------------------

/// What `sha2::Sha256::digest` gives for `data`.
pub uninterp spec fn sha256_digest(data: Seq<u8>) -> Seq<u8>;

/// `sha2::Sha256::digest`: the SHA-256 digest of `data`, 32 bytes long.
#[verifier::external_body]
fn hash(data: &[u8]) -> (r: Vec<u8>)
    ensures
        r@ == sha256_digest(data@),
        r@.len() == 32,
{
    sha2::Sha256::digest(data).to_vec()
}

/// Whether a binary must be written, given the bytes found at its place (none when
/// nothing could be read there) and the bytes it should hold.
pub open spec fn write_needed(existing: Option<Seq<u8>>, data: Seq<u8>) -> bool {
    match existing {
        Some(e) => sha256_digest(e) != sha256_digest(data),
        None => true,
    }
}

/// Whether a binary must be written: when nothing could be read at its place, or
/// when what was read has another SHA-256 digest than `data`.
pub fn needs_write(existing: Option<&[u8]>, data: &[u8]) -> (r: bool)
    ensures
        r == write_needed(
            match existing {
                Some(e) => Some(e@),
                None => None,
            },
            data@,
        ),
        match existing {
            Some(e) => r == (sha256_digest(e@) != sha256_digest(data@)),
            None => r,
        },
{
    match existing {
        Some(e) => {
            let a = hash(e);
            let b = hash(data);
            !vec_eq(&a, &b)
        },
        None => true,
    }
}

/// Whether `a` and `b` hold the same bytes.
fn vec_eq(a: &Vec<u8>, b: &Vec<u8>) -> (r: bool)
    ensures
        r == (a@ == b@),
{
    if a.len() != b.len() {
        return false;
    }
    let mut i: usize = 0;
    while i < a.len()
        invariant
            i <= a.len(),
            a.len() == b.len(),
            forall|k: int| 0 <= k < i ==> a@[k] == b@[k],
        decreases a.len() - i,
    {
        if a[i] != b[i] {
            return false;
        }
        i = i + 1;
    }
    assert(a@ =~= b@);
    true
}

/// A binary is rewritten exactly when what is found at its place has another
/// SHA-256 digest than the wanted bytes, whatever the lengths.
pub proof fn lemma_rewrite_iff_digest_differs(existing: Seq<u8>, data: Seq<u8>)
    ensures
        sha256_digest(existing) != sha256_digest(data) ==> write_needed(Some(existing), data),
        sha256_digest(existing) == sha256_digest(data) ==> !write_needed(Some(existing), data),
{
}

/// A binary that already holds the wanted bytes is never written again, and one
/// that could not be read always is.
pub proof fn lemma_unchanged_binary_kept(data: Seq<u8>)
    ensures
        !write_needed(Some(data), data),
        write_needed(None, data),
{
}


// --- yt-dlp's output ----------------------------------------------------------

/// What the download reports to the user interface.
#[derive(Debug)]
pub enum DownloadEvent {
    /// A line that yt-dlp printed.
    Log(String),
    /// Progress of the current file.
    Progress {
        /// Percentage done, in tenths of a percent.
        percent_tenths: u32,
        speed: String,
        eta: String,
        /// Position in the playlist, such as "3/12"; empty outside playlists.
        item: String,
    },
    /// The download ended, with the reason where it failed.
    Finished(Result<(), String>),
}

/// A download event with its texts as character sequences.
pub enum EventView {
    Log(Seq<char>),
    Progress { percent_tenths: u32, speed: Seq<char>, eta: Seq<char>, item: Seq<char> },
    Finished(Result<(), Seq<char>>),
}

impl View for DownloadEvent {
    type V = EventView;

    open spec fn view(&self) -> EventView {
        match self {
            DownloadEvent::Log(l) => EventView::Log(l@),
            DownloadEvent::Progress { percent_tenths, speed, eta, item } => EventView::Progress {
                percent_tenths: *percent_tenths,
                speed: speed@,
                eta: eta@,
                item: item@,
            },
            DownloadEvent::Finished(Ok(())) => EventView::Finished(Ok(())),
            DownloadEvent::Finished(Err(e)) => EventView::Finished(Err(e@)),
        }
    }
}

impl Clone for DownloadEvent {
    fn clone(&self) -> (r: Self)
        ensures
            r@ == self@,
    {
        match self {
            DownloadEvent::Log(l) => DownloadEvent::Log(l.clone()),
            DownloadEvent::Progress { percent_tenths, speed, eta, item } => DownloadEvent::Progress {
                percent_tenths: *percent_tenths,
                speed: speed.clone(),
                eta: eta.clone(),
                item: item.clone(),
            },
            DownloadEvent::Finished(Ok(())) => DownloadEvent::Finished(Ok(())),
            DownloadEvent::Finished(Err(e)) => DownloadEvent::Finished(Err(e.clone())),
        }
    }
}

/// The events of `v` as views.
pub open spec fn events_view(v: Seq<DownloadEvent>) -> Seq<EventView> {
    v.map_values(|e: DownloadEvent| e@)
}

/// Pattern of a progress line: the percentage, the speed and the remaining time.
pub const PROGRESS_PATTERN: &'static str = "\\[download\\]\\s+(\\d{1,3}\\.\\d)%.*?of.*?at\\s+([^\\s]+)\\s+ETA\\s+([^\\s]+)";

/// Pattern of the line that starts a playlist item: its number and the item count.
pub const ITEM_PATTERN: &'static str = "\\[download\\] Downloading item (\\d+) of (\\d+)";

/// What `regex::Regex::captures` gives for `pattern` on `haystack`: the text of each
/// capture group (group 0 being the whole match) at the leftmost match, or none
/// where the pattern does not match or does not compile.
pub uninterp spec fn regex_captures_of(pattern: Seq<char>, haystack: Seq<char>) -> Option<
    Seq<Option<Seq<char>>>,
>;

/// `regex::Regex::new` and `Regex::captures`: compiles `pattern` and returns the
/// groups of its leftmost match in `haystack`, or none where it does not compile
/// or does not match.
#[verifier::external_body]
fn regex_captures(pattern: &str, haystack: &str) -> (r: Option<Vec<Option<String>>>)
    ensures
        r.deep_view() == regex_captures_of(pattern@, haystack@),
{
    let re = regex::Regex::new(pattern).ok()?;
    let caps = re.captures(haystack)?;
    let mut groups = Vec::new();
    for m in caps.iter() {
        groups.push(match m {
            Some(m) => Some(m.as_str().to_owned()),
            None => None,
        });
    }
    Some(groups)
}

/// Group `i` of a match, where it took part.
pub open spec fn group(groups: Seq<Option<Seq<char>>>, i: int) -> Option<Seq<char>> {
    if 0 <= i < groups.len() {
        groups[i]
    } else {
        None
    }
}

/// Whether `c` is an ASCII decimal digit.
pub open spec fn is_ascii_digit(c: char) -> bool {
    '0' <= c && c <= '9'
}

/// The number an ASCII digit stands for.
pub open spec fn digit_value(c: char) -> nat {
    (c as int - '0' as int) as nat
}

/// The number that the ASCII digits `s` stand for.
pub open spec fn digits_value(s: Seq<char>) -> nat
    decreases s.len(),
{
    if s.len() == 0 {
        0
    } else {
        digits_value(s.drop_last()) * 10 + digit_value(s.last())
    }
}

/// Whether `s` is one to three ASCII digits, a point and one ASCII digit, as the
/// percentage of a progress line is written.
pub open spec fn is_percent_text(s: Seq<char>) -> bool {
    &&& 3 <= s.len() <= 5
    &&& s[s.len() - 2] == '.'
    &&& forall|i: int| 0 <= i < s.len() && i != s.len() - 2 ==> is_ascii_digit(#[trigger] s[i])
}

/// The percentage written in `s`, in tenths of a percent; zero where `s` is not a
/// percentage.
pub open spec fn percent_tenths(s: Seq<char>) -> u32 {
    if is_percent_text(s) {
        (digits_value(s.take(s.len() - 2)) * 10 + digit_value(s.last())) as u32
    } else {
        0
    }
}

proof fn lemma_digits_value_bound(s: Seq<char>)
    requires
        forall|i: int| 0 <= i < s.len() ==> is_ascii_digit(#[trigger] s[i]),
    ensures
        s.len() <= 3 ==> digits_value(s) < 1000,
        s.len() <= 2 ==> digits_value(s) < 100,
        s.len() <= 1 ==> digits_value(s) < 10,
    decreases s.len(),
{
    if s.len() > 0 {
        assert(is_ascii_digit(s[s.len() - 1]));
        lemma_digits_value_bound(s.drop_last());
    }
}

/// The percentage written in `text`, in tenths of a percent; zero where `text` is
/// not one to three digits, a point and a digit.
pub fn parse_percent_tenths(text: &str) -> (r: u32)
    ensures
        r == percent_tenths(text@),
{
    let cs = crate::text::chars_of(text);
    let n = cs.len();
    if n < 3 || n > 5 || cs[n - 2] != '.' || cs[n - 1] < '0' || cs[n - 1] > '9' {
        return 0;
    }
    let mut whole: u32 = 0;
    let mut i: usize = 0;
    while i < n - 2
        invariant
            3 <= n <= 5,
            n == text@.len(),
            cs@ == text@,
            i <= n - 2,
            forall|k: int| 0 <= k < i ==> is_ascii_digit(#[trigger] cs@[k]),
            whole == digits_value(text@.take(i as int)),
            whole < 1000,
        decreases n - 2 - i,
    {
        let c = cs[i];
        if c < '0' || c > '9' {
            return 0;
        }
        assert(text@.take(i + 1).drop_last() =~= text@.take(i as int));
        proof {
            lemma_digits_value_bound(text@.take(i + 1));
        }
        whole = whole * 10 + (c as u32 - '0' as u32);
        i = i + 1;
    }
    assert(is_percent_text(text@));
    let frac = cs[n - 1] as u32 - '0' as u32;
    whole * 10 + frac
}

proof fn lemma_digit_char(d: nat)
    requires
        d < 10,
    ensures
        is_ascii_digit(digit_char(d)),
        digit_value(digit_char(d)) == d,
{
}

proof fn lemma_decimal_digits(n: nat)
    ensures
        1 <= decimal(n).len(),
        n < 10 ==> decimal(n).len() == 1,
        n < 100 ==> decimal(n).len() <= 2,
        n < 1000 ==> decimal(n).len() <= 3,
        forall|i: int| 0 <= i < decimal(n).len() ==> is_ascii_digit(#[trigger] decimal(n)[i]),
        digits_value(decimal(n)) == n,
    decreases n,
{
    lemma_digit_char(n % 10);
    if n < 10 {
        assert(n % 10 == n);
        assert(decimal(n).drop_last() =~= Seq::<char>::empty());
        assert(digits_value(Seq::<char>::empty()) == 0);
    } else {
        lemma_decimal_digits(n / 10);
        let d = decimal(n / 10);
        let t = decimal(n);
        assert(t.drop_last() =~= d);
        assert forall|i: int| 0 <= i < t.len() implies is_ascii_digit(#[trigger] t[i]) by {
            if i < d.len() {
                assert(t[i] == d[i]);
            }
        }
        assert(t.last() == digit_char(n % 10));
        assert(digits_value(t) == digits_value(d) * 10 + digit_value(digit_char(n % 10)));
        assert(n == (n / 10) * 10 + n % 10);
    }
}

/// Reading a percentage back gives what was written: the text of a whole part
/// below a thousand, a point and a tenth digit reads as that many tenths.
pub proof fn lemma_percent_roundtrip(whole: nat, tenth: nat)
    requires
        whole < 1000,
        tenth < 10,
    ensures
        is_percent_text(decimal(whole) + seq!['.', digit_char(tenth)]),
        percent_tenths(decimal(whole) + seq!['.', digit_char(tenth)]) == whole * 10 + tenth,
{
    lemma_decimal_digits(whole);
    let d = decimal(whole);
    let t = d + seq!['.', digit_char(tenth)];
    assert(t.take(t.len() - 2) =~= d);
    assert forall|i: int| 0 <= i < t.len() && i != t.len() - 2 implies is_ascii_digit(
        #[trigger] t[i],
    ) by {
        if i < d.len() {
            assert(t[i] == d[i]);
        }
    }
}

/// The progress event that a progress line's match describes, for playlist item
/// `item`; none where nothing matched.
pub open spec fn progress_event(progress: Option<Seq<Option<Seq<char>>>>, item: Seq<char>) -> Option<
    EventView,
> {
    match progress {
        Some(g) => match (group(g, 1), group(g, 2), group(g, 3)) {
            (Some(p), Some(sp), Some(eta)) => Some(
                EventView::Progress { percent_tenths: percent_tenths(p), speed: sp, eta: eta, item },
            ),
            _ => None,
        },
        None => None,
    }
}

/// The playlist position, "number/count", that an item line's match names; none
/// where nothing matched.
pub open spec fn item_position(item: Option<Seq<Option<Seq<char>>>>) -> Option<Seq<char>> {
    match item {
        Some(g) => match (group(g, 1), group(g, 2)) {
            (Some(a), Some(b)) => Some(a + "/"@ + b),
            _ => None,
        },
        None => None,
    }
}

/// The text of group `i`, where it took part.
fn group_text(groups: &Vec<Option<String>>, i: usize) -> (r: Option<&String>)
    ensures
        match r {
            Some(t) => group(groups.deep_view(), i as int) == Some(t@),
            None => group(groups.deep_view(), i as int) is None,
        },
{
    if i < groups.len() {
        match &groups[i] {
            Some(t) => Some(t),
            None => None,
        }
    } else {
        None
    }
}

/// The progress event described by the groups of a progress line's match, for
/// playlist item `item`.
pub fn progress_from_captures(progress: &Option<Vec<Option<String>>>, item: &str) -> (r: Option<
    DownloadEvent,
>)
    ensures
        match r {
            Some(e) => progress_event(progress.deep_view(), item@) == Some(e@),
            None => progress_event(progress.deep_view(), item@) is None,
        },
{
    match progress {
        Some(groups) => {
            match (group_text(groups, 1), group_text(groups, 2), group_text(groups, 3)) {
                (Some(p), Some(sp), Some(eta)) => Some(
                    DownloadEvent::Progress {
                        percent_tenths: parse_percent_tenths(p.as_str()),
                        speed: sp.clone(),
                        eta: eta.clone(),
                        item: item.to_owned(),
                    },
                ),
                _ => None,
            }
        },
        None => None,
    }
}

/// The playlist position, "number/count", named by the groups of an item line's match.
pub fn item_from_captures(item: &Option<Vec<Option<String>>>) -> (r: Option<String>)
    ensures
        match r {
            Some(t) => item_position(item.deep_view()) == Some(t@),
            None => item_position(item.deep_view()) is None,
        },
{
    match item {
        Some(groups) => match (group_text(groups, 1), group_text(groups, 2)) {
            (Some(a), Some(b)) => {
                let mut t = a.clone();
                t.append("/");
                t.append(b.as_str());
                Some(t)
            },
            _ => None,
        },
        None => None,
    }
}

/// Reads yt-dlp's output line by line, remembering the playlist item being downloaded.
#[derive(Debug, Clone)]
pub struct OutputReader {
    /// Position of the current playlist item, such as "3/12"; empty before the first.
    pub current_item: String,
}

impl OutputReader {
    /// A reader that has seen no line yet.
    pub fn new() -> (r: Self)
        ensures
            r.current_item@ == Seq::<char>::empty(),
    {
        OutputReader { current_item: String::new() }
    }

    /// Takes one output line together with the matches of the item and the progress
    /// patterns on it, and returns the events it gives: none for a blank line;
    /// otherwise the progress (where the line reports it) and the line itself. An
    /// item line makes its position the current item, before the progress is read.
    pub fn apply_line(
        &mut self,
        line: String,
        item: &Option<Vec<Option<String>>>,
        progress: &Option<Vec<Option<String>>>,
    ) -> (r: Vec<DownloadEvent>)
        ensures
            trim(line@).len() == 0 ==> final(self).current_item@ == old(self).current_item@
                && r@.len() == 0,
            trim(line@).len() > 0 ==> {
                &&& final(self).current_item@ == match item_position(item.deep_view()) {
                    Some(p) => p,
                    None => old(self).current_item@,
                }
                &&& events_view(r@) == match progress_event(
                    progress.deep_view(),
                    final(self).current_item@,
                ) {
                    Some(e) => seq![e, EventView::Log(line@)],
                    None => seq![EventView::Log(line@)],
                }
            },
    {
        let mut events: Vec<DownloadEvent> = Vec::new();
        if trim_str(line.as_str()).is_empty() {
            return events;
        }
        if let Some(position) = item_from_captures(item) {
            self.current_item = position;
        }
        if let Some(e) = progress_from_captures(progress, self.current_item.as_str()) {
            events.push(e);
        }
        events.push(DownloadEvent::Log(line));
        assert(events_view(events@) =~= match progress_event(
            progress.deep_view(),
            self.current_item@,
        ) {
            Some(e) => seq![e, EventView::Log(line@)],
            None => seq![EventView::Log(line@)],
        });
        events
    }

    /// Takes one output line and returns the events it gives, matching it against
    /// the item and the progress patterns.
    pub fn read_line(&mut self, line: String) -> (r: Vec<DownloadEvent>)
        ensures
            trim(line@).len() == 0 ==> final(self).current_item@ == old(self).current_item@
                && r@.len() == 0,
            trim(line@).len() > 0 ==> {
                &&& final(self).current_item@ == match item_position(
                    regex_captures_of(ITEM_PATTERN@, line@),
                ) {
                    Some(p) => p,
                    None => old(self).current_item@,
                }
                &&& events_view(r@) == match progress_event(
                    regex_captures_of(PROGRESS_PATTERN@, line@),
                    final(self).current_item@,
                ) {
                    Some(e) => seq![e, EventView::Log(line@)],
                    None => seq![EventView::Log(line@)],
                }
            },
    {
        let item = regex_captures(ITEM_PATTERN, line.as_str());
        let progress = regex_captures(PROGRESS_PATTERN, line.as_str());
        self.apply_line(line, &item, &progress)
    }
}

// --- What yt-dlp says of a link ----------------------------------------------

/// The characters of `s` before its first line break (all of `s` without one).
pub open spec fn first_line(s: Seq<char>) -> Seq<char>
    decreases s.len(),
{
    if s.len() == 0 || s[0] == '\n' {
        seq![]
    } else {
        seq![s[0]] + first_line(s.drop_first())
    }
}

/// The characters of `s` after its first line break (nothing without one).
pub open spec fn after_first_line(s: Seq<char>) -> Seq<char>
    decreases s.len(),
{
    if s.len() == 0 {
        seq![]
    } else if s[0] == '\n' {
        s.drop_first()
    } else {
        after_first_line(s.drop_first())
    }
}

/// The first line of `s` and what follows its line break.
pub fn split_first_line<'a>(s: &'a str) -> (r: (&'a str, &'a str))
    ensures
        r.0@ == first_line(s@),
        r.1@ == after_first_line(s@),
{
    let cs = crate::text::chars_of(s);
    let n = cs.len();
    let mut i: usize = 0;
    assert(s@.skip(0) =~= s@);
    assert(s@.take(0) =~= Seq::<char>::empty());
    while i < n && cs[i] != '\n'
        invariant
            i <= n,
            n == s@.len(),
            cs@ == s@,
            first_line(s@) == s@.take(i as int) + first_line(s@.skip(i as int)),
            after_first_line(s@) == after_first_line(s@.skip(i as int)),
        decreases n - i,
    {
        let ghost rest = s@.skip(i as int);
        assert(rest.drop_first() =~= s@.skip(i + 1));
        assert(rest[0] == cs@[i as int]);
        assert(s@.take(i + 1) =~= s@.take(i as int) + seq![cs@[i as int]]);
        i = i + 1;
    }
    if i == n {
        assert(s@.skip(n as int) =~= Seq::<char>::empty());
        assert(s@.take(n as int) =~= s@);
        (s, s.substring_char(n, n))
    } else {
        let ghost rest = s@.skip(i as int);
        assert(rest[0] == cs@[i as int]);
        assert(rest.drop_first() =~= s@.subrange(i + 1, n as int));
        assert(s@.take(i as int) =~= s@.subrange(0, i as int));
        (s.substring_char(0, i), s.substring_char(i + 1, n))
    }
}

/// Whether `t` is one or more ASCII digits.
pub open spec fn all_ascii_digits(t: Seq<char>) -> bool {
    t.len() > 0 && forall|i: int| 0 <= i < t.len() ==> is_ascii_digit(#[trigger] t[i])
}

/// The count written in `t`: its decimal value where `t` is ASCII digits that fit
/// in a `u64`, else none.
pub open spec fn parse_count(t: Seq<char>) -> Option<u64> {
    if all_ascii_digits(t) && digits_value(t) <= u64::MAX {
        Some(digits_value(t) as u64)
    } else {
        None
    }
}

proof fn lemma_digits_value_prefix(t: Seq<char>, k: int)
    requires
        0 <= k <= t.len(),
    ensures
        digits_value(t.take(k)) <= digits_value(t),
    decreases t.len(),
{
    if k < t.len() {
        lemma_digits_value_prefix(t.drop_last(), k);
        assert(t.drop_last().take(k) =~= t.take(k));
    } else {
        assert(t.take(k) =~= t);
    }
}

/// The count written in `text`: its decimal value where it is ASCII digits that
/// fit in a `u64`, else none.
pub fn parse_count_text(text: &str) -> (r: Option<u64>)
    ensures
        r == parse_count(text@),
{
    let cs = crate::text::chars_of(text);
    let n = cs.len();
    if n == 0 {
        return None;
    }
    let mut value: u64 = 0;
    let mut i: usize = 0;
    assert(text@.take(0) =~= Seq::<char>::empty());
    while i < n
        invariant
            i <= n,
            n == text@.len(),
            cs@ == text@,
            forall|k: int| 0 <= k < i ==> is_ascii_digit(#[trigger] cs@[k]),
            value == digits_value(text@.take(i as int)),
        decreases n - i,
    {
        let c = cs[i];
        if c < '0' || c > '9' {
            assert(!all_ascii_digits(text@)) by {
                assert(!is_ascii_digit(text@[i as int]));
            }
            return None;
        }
        assert(text@.take(i + 1).drop_last() =~= text@.take(i as int));
        assert(text@.take(i + 1).last() == c);
        let d = c as u64 - '0' as u64;
        let next = match value.checked_mul(10) {
            Some(v) => v.checked_add(d),
            None => None,
        };
        match next {
            Some(v) => {
                value = v;
            },
            None => {
                proof {
                    if all_ascii_digits(text@) {
                        lemma_digits_value_prefix(text@, i + 1);
                    }
                }
                return None;
            },
        }
        i = i + 1;
    }
    assert(text@.take(n as int) =~= text@);
    Some(value)
}

/// What yt-dlp printed for a link, asked for its title and then its playlist
/// size on one line each: the trimmed first line as the title, and the second
/// line read as a count (none where it is not a number, as for a single video).
pub fn parse_link_info(output: &str) -> (r: (String, Option<u64>))
    ensures
        r.0@ == trim(first_line(output@)),
        r.1 == parse_count(trim(first_line(after_first_line(output@)))),
{
    let (title, rest) = split_first_line(output);
    let (count, _) = split_first_line(rest);
    (trim_str(title).to_owned(), parse_count_text(trim_str(count)))
}

// --- The end of the yt-dlp process ----------------------------------------------

/// What waiting on the yt-dlp process, without blocking, found.
#[derive(Debug, Clone)]
pub enum WaitOutcome {
    /// The process has ended; `status` is how its exit status reads.
    Exited { success: bool, status: String },
    /// The process is still running.
    Running,
    /// Waiting failed, for the reason given.
    Failed(String),
}

/// The event a wait outcome gives: none while yt-dlp runs, else the end of the
/// download, successful or with the reason it failed.
pub open spec fn finish_event(outcome: WaitOutcome) -> Option<EventView> {
    match outcome {
        WaitOutcome::Exited { success, status } => Some(
            EventView::Finished(
                if success {
                    Ok(())
                } else {
                    Err("yt-dlp завершился с кодом "@ + status@)
                },
            ),
        ),
        WaitOutcome::Running => None,
        WaitOutcome::Failed(e) => Some(EventView::Finished(Err("Ошибка ожидания процесса: "@ + e@))),
    }
}

/// The event that a non-blocking wait on yt-dlp gives: none while it runs; once it
/// has ended (or the wait failed), the end of the download, after which the
/// process is no longer tracked.
pub fn poll_finished(outcome: WaitOutcome) -> (r: Option<DownloadEvent>)
    ensures
        match r {
            Some(e) => finish_event(outcome) == Some(e@),
            None => finish_event(outcome) is None,
        },
{
    match outcome {
        WaitOutcome::Exited { success, status } => {
            if success {
                Some(DownloadEvent::Finished(Ok(())))
            } else {
                let mut msg = "yt-dlp завершился с кодом ".to_owned();
                msg.append(status.as_str());
                Some(DownloadEvent::Finished(Err(msg)))
            }
        },
        WaitOutcome::Running => None,
        WaitOutcome::Failed(e) => {
            let mut msg = "Ошибка ожидания процесса: ".to_owned();
            msg.append(e.as_str());
            Some(DownloadEvent::Finished(Err(msg)))
        },
    }
}

} // verus!
