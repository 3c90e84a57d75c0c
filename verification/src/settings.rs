//! Download settings and the yt-dlp command line they stand for.

use vstd::prelude::*;

use crate::text::{is_ws, lacks, lemma_blank_has_no_tokens, lemma_concat_lacks, lemma_decimal_lacks, lemma_split_join, lemma_trim_ends, split_on, decimal, join, trim, trim_str, trim_trailing_separators, trim_trailing_seps, ws_tokens, split_whitespace, join_strings, decimal_string};

verus! {

/// Container that downloaded video streams are merged into.
#[derive(Debug, Clone, Copy, PartialEq, Eq, Structural, Hash)]
pub enum VideoContainer {
    Best,
    Mp4,
    Mkv,
    Webm,
}

impl VideoContainer {
    pub const ALL: [VideoContainer; 4] = [
        VideoContainer::Best,
        VideoContainer::Mp4,
        VideoContainer::Mkv,
        VideoContainer::Webm,
    ];

    /// Text shown for this container in the settings window.
    pub fn label(&self) -> (r: &'static str)
        ensures
            r@ == container_label(*self),
    {
        match self {
            VideoContainer::Best => "Автоматически (лучший)",
            VideoContainer::Mp4 => "MP4",
            VideoContainer::Mkv => "MKV",
            VideoContainer::Webm => "WebM",
        }
    }

    /// Value for `--merge-output-format`; none for the automatic choice.
    pub fn ext(&self) -> (r: Option<&'static str>)
        ensures
            opt_text(r) == container_ext(*self),
    {
        match self {
            VideoContainer::Best => None,
            VideoContainer::Mp4 => Some("mp4"),
            VideoContainer::Mkv => Some("mkv"),
            VideoContainer::Webm => Some("webm"),
        }
    }
}

/// Text shown for a container.
pub open spec fn container_label(c: VideoContainer) -> Seq<char> {
    match c {
        VideoContainer::Best => "Автоматически (лучший)"@,
        VideoContainer::Mp4 => "MP4"@,
        VideoContainer::Mkv => "MKV"@,
        VideoContainer::Webm => "WebM"@,
    }
}

/// Container name handed to yt-dlp.
pub open spec fn container_ext(c: VideoContainer) -> Option<Seq<char>> {
    match c {
        VideoContainer::Best => None,
        VideoContainer::Mp4 => Some("mp4"@),
        VideoContainer::Mkv => Some("mkv"@),
        VideoContainer::Webm => Some("webm"@),
    }
}

/// The characters of an optional text.
pub open spec fn opt_text(o: Option<&str>) -> Option<Seq<char>> {
    match o {
        Some(t) => Some(t@),
        None => None,
    }
}

/// Largest video height asked for.
#[derive(Debug, Clone, Copy, PartialEq, Eq, Structural, Hash)]
pub enum Resolution {
    Best,
    R2160,
    R1440,
    R1080,
    R720,
    R480,
    R360,
    Worst,
}

impl Resolution {
    pub const ALL: [Resolution; 8] = [
        Resolution::Best,
        Resolution::R2160,
        Resolution::R1440,
        Resolution::R1080,
        Resolution::R720,
        Resolution::R480,
        Resolution::R360,
        Resolution::Worst,
    ];

    /// Text shown for this resolution in the settings window.
    pub fn label(&self) -> (r: &'static str)
        ensures
            r@ == resolution_label(*self),
    {
        match self {
            Resolution::Best => "Максимальное",
            Resolution::R2160 => "2160p (4K)",
            Resolution::R1440 => "1440p (2K)",
            Resolution::R1080 => "1080p",
            Resolution::R720 => "720p",
            Resolution::R480 => "480p",
            Resolution::R360 => "360p",
            Resolution::Worst => "Минимальное",
        }
    }

    /// Upper bound on the video height; none for the best and the worst quality.
    pub fn height_filter(&self) -> (r: Option<u32>)
        ensures
            r == resolution_height(*self),
    {
        match self {
            Resolution::Best | Resolution::Worst => None,
            Resolution::R2160 => Some(2160),
            Resolution::R1440 => Some(1440),
            Resolution::R1080 => Some(1080),
            Resolution::R720 => Some(720),
            Resolution::R480 => Some(480),
            Resolution::R360 => Some(360),
        }
    }
}

/// Text shown for a resolution.
pub open spec fn resolution_label(r: Resolution) -> Seq<char> {
    match r {
        Resolution::Best => "Максимальное"@,
        Resolution::R2160 => "2160p (4K)"@,
        Resolution::R1440 => "1440p (2K)"@,
        Resolution::R1080 => "1080p"@,
        Resolution::R720 => "720p"@,
        Resolution::R480 => "480p"@,
        Resolution::R360 => "360p"@,
        Resolution::Worst => "Минимальное"@,
    }
}

/// Largest height a resolution allows, in pixels.
pub open spec fn resolution_height(r: Resolution) -> Option<u32> {
    match r {
        Resolution::Best | Resolution::Worst => None,
        Resolution::R2160 => Some(2160),
        Resolution::R1440 => Some(1440),
        Resolution::R1080 => Some(1080),
        Resolution::R720 => Some(720),
        Resolution::R480 => Some(480),
        Resolution::R360 => Some(360),
    }
}

/// Format that extracted audio is converted to.
#[derive(Debug, Clone, Copy, PartialEq, Eq, Structural, Hash)]
pub enum AudioFormat {
    Best,
    Mp3,
    M4a,
    Opus,
    Wav,
    Flac,
}

impl AudioFormat {
    pub const ALL: [AudioFormat; 6] = [
        AudioFormat::Best,
        AudioFormat::Mp3,
        AudioFormat::M4a,
        AudioFormat::Opus,
        AudioFormat::Wav,
        AudioFormat::Flac,
    ];

    /// Text shown for this format in the settings window.
    pub fn label(&self) -> (r: &'static str)
        ensures
            r@ == audio_label(*self),
    {
        match self {
            AudioFormat::Best => "Оригинальный",
            AudioFormat::Mp3 => "MP3",
            AudioFormat::M4a => "M4A (AAC)",
            AudioFormat::Opus => "Opus",
            AudioFormat::Wav => "WAV",
            AudioFormat::Flac => "FLAC",
        }
    }

    /// Value for `--audio-format`; none to keep the original audio.
    pub fn code(&self) -> (r: Option<&'static str>)
        ensures
            opt_text(r) == audio_code(*self),
    {
        match self {
            AudioFormat::Best => None,
            AudioFormat::Mp3 => Some("mp3"),
            AudioFormat::M4a => Some("m4a"),
            AudioFormat::Opus => Some("opus"),
            AudioFormat::Wav => Some("wav"),
            AudioFormat::Flac => Some("flac"),
        }
    }
}

/// Text shown for an audio format.
pub open spec fn audio_label(a: AudioFormat) -> Seq<char> {
    match a {
        AudioFormat::Best => "Оригинальный"@,
        AudioFormat::Mp3 => "MP3"@,
        AudioFormat::M4a => "M4A (AAC)"@,
        AudioFormat::Opus => "Opus"@,
        AudioFormat::Wav => "WAV"@,
        AudioFormat::Flac => "FLAC"@,
    }
}

/// Audio format name handed to yt-dlp.
pub open spec fn audio_code(a: AudioFormat) -> Option<Seq<char>> {
    match a {
        AudioFormat::Best => None,
        AudioFormat::Mp3 => Some("mp3"@),
        AudioFormat::M4a => Some("m4a"@),
        AudioFormat::Opus => Some("opus"@),
        AudioFormat::Wav => Some("wav"@),
        AudioFormat::Flac => Some("flac"@),
    }
}

/// How a link that names a playlist is treated.
#[derive(Debug, Clone, Copy, PartialEq, Eq, Structural, Hash)]
pub enum PlaylistMode {
    /// Download the whole playlist when the link is a playlist link.
    Auto,
    /// Always treat the link as a playlist (`--yes-playlist`).
    ForcePlaylist,
    /// Download only the one video, even from a playlist link (`--no-playlist`).
    SingleVideoOnly,
}

impl PlaylistMode {
    pub const ALL: [PlaylistMode; 3] = [
        PlaylistMode::Auto,
        PlaylistMode::ForcePlaylist,
        PlaylistMode::SingleVideoOnly,
    ];

    /// Text shown for this mode in the settings window.
    pub fn label(&self) -> (r: &'static str)
        ensures
            r@ == playlist_label(*self),
    {
        match self {
            PlaylistMode::Auto => "Авто (спросить yt-dlp)",
            PlaylistMode::ForcePlaylist => "Всегда скачивать весь плейлист",
            PlaylistMode::SingleVideoOnly => "Только одно видео",
        }
    }
}

/// Text shown for a playlist mode.
pub open spec fn playlist_label(m: PlaylistMode) -> Seq<char> {
    match m {
        PlaylistMode::Auto => "Авто (спросить yt-dlp)"@,
        PlaylistMode::ForcePlaylist => "Всегда скачивать весь плейлист"@,
        PlaylistMode::SingleVideoOnly => "Только одно видео"@,
    }
}


/// Everything a download is configured with.
#[derive(Debug, Clone)]
pub struct DownloadSettings {
    pub url: String,
    pub output_dir: String,
    pub audio_only: bool,
    pub video_container: VideoContainer,
    pub resolution: Resolution,
    pub audio_format: AudioFormat,
    /// Language code of the audio track, such as "ru" or "en"; empty when any will do.
    pub audio_language: String,
    pub embed_thumbnail: bool,
    pub embed_subtitles: bool,
    pub subtitle_language: String,
    pub embed_metadata: bool,
    pub embed_chapters: bool,
    pub playlist_mode: PlaylistMode,
    /// Which playlist items to fetch, such as "1-10,15".
    pub playlist_items: String,
    /// File name template (without folder) in yt-dlp's output template syntax.
    pub filename_template: String,
    /// Download rate limit, such as "2M"; empty for no limit.
    pub rate_limit: String,
    /// Further command-line arguments, separated by whitespace.
    pub extra_args: String,
}

/// The settings with their texts as character sequences.
pub struct SettingsView {
    pub url: Seq<char>,
    pub output_dir: Seq<char>,
    pub audio_only: bool,
    pub video_container: VideoContainer,
    pub resolution: Resolution,
    pub audio_format: AudioFormat,
    pub audio_language: Seq<char>,
    pub embed_thumbnail: bool,
    pub embed_subtitles: bool,
    pub subtitle_language: Seq<char>,
    pub embed_metadata: bool,
    pub embed_chapters: bool,
    pub playlist_mode: PlaylistMode,
    pub playlist_items: Seq<char>,
    pub filename_template: Seq<char>,
    pub rate_limit: Seq<char>,
    pub extra_args: Seq<char>,
}

impl View for DownloadSettings {
    type V = SettingsView;

    open spec fn view(&self) -> SettingsView {
        SettingsView {
            url: self.url@,
            output_dir: self.output_dir@,
            audio_only: self.audio_only,
            video_container: self.video_container,
            resolution: self.resolution,
            audio_format: self.audio_format,
            audio_language: self.audio_language@,
            embed_thumbnail: self.embed_thumbnail,
            embed_subtitles: self.embed_subtitles,
            subtitle_language: self.subtitle_language@,
            embed_metadata: self.embed_metadata,
            embed_chapters: self.embed_chapters,
            playlist_mode: self.playlist_mode,
            playlist_items: self.playlist_items@,
            filename_template: self.filename_template@,
            rate_limit: self.rate_limit@,
            extra_args: self.extra_args@,
        }
    }
}

/// The output template: the folder without trailing separators, a slash, and the
/// trimmed file name template, or yt-dlp's title-and-extension template when that is blank.
pub open spec fn output_template(s: SettingsView) -> Seq<char> {
    let name = trim(s.filename_template);
    trim_trailing_seps(s.output_dir) + "/"@ + (if name.len() == 0 {
        "%(title)s.%(ext)s"@
    } else {
        name
    })
}

/// Arguments that choose how playlists are handled.
pub open spec fn playlist_args(s: SettingsView) -> Seq<Seq<char>> {
    let mode: Seq<Seq<char>> = match s.playlist_mode {
        PlaylistMode::Auto => seq![],
        PlaylistMode::ForcePlaylist => seq!["--yes-playlist"@],
        PlaylistMode::SingleVideoOnly => seq!["--no-playlist"@],
    };
    let items = trim(s.playlist_items);
    mode + if items.len() > 0 {
        seq!["--playlist-items"@, items]
    } else {
        seq![]
    }
}

/// The `[language=..]` filter for the wanted audio language; empty when none is set.
pub open spec fn language_filter(s: SettingsView) -> Seq<char> {
    let lang = trim(s.audio_language);
    if lang.len() == 0 {
        seq![]
    } else {
        "[language="@ + lang + "]"@
    }
}

/// The `[height<=..]` filter of a resolution; empty when it sets no bound.
pub open spec fn height_filter_text(r: Resolution) -> Seq<char> {
    match resolution_height(r) {
        Some(h) => "[height<="@ + decimal(h as nat) + "]"@,
        None => seq![],
    }
}

/// Format selector when only audio is downloaded.
pub open spec fn audio_selector(s: SettingsView) -> Seq<char> {
    let lang = trim(s.audio_language);
    if lang.len() == 0 {
        "bestaudio/best"@
    } else {
        "bestaudio[language="@ + lang + "]/bestaudio/best"@
    }
}

/// Arguments for an audio-only download.
pub open spec fn audio_args(s: SettingsView) -> Seq<Seq<char>> {
    seq!["-x"@] + match audio_code(s.audio_format) {
        Some(c) => seq!["--audio-format"@, c],
        None => seq![],
    } + seq!["--audio-quality"@, "0"@, "-f"@, audio_selector(s)]
}

/// The list `alt` when the language filter is set, else nothing.
pub open spec fn if_language(s: SettingsView, alt: Seq<char>) -> Seq<Seq<char>> {
    if language_filter(s).len() > 0 {
        seq![alt]
    } else {
        seq![]
    }
}

/// The alternatives of the video format selector, in order of preference.
pub open spec fn format_alternatives(s: SettingsView) -> Seq<Seq<char>> {
    let lf = language_filter(s);
    let hf = height_filter_text(s.resolution);
    if s.resolution == Resolution::Worst {
        if_language(s, "worstvideo+worstaudio"@ + lf) + seq![
            "worstvideo+worstaudio"@,
            "worst"@,
        ]
    } else if s.video_container == VideoContainer::Mp4 {
        if_language(s, "bestvideo[ext=mp4]"@ + hf + "+bestaudio[ext=m4a]"@ + lf) + seq![
            "bestvideo[ext=mp4]"@ + hf + "+bestaudio[ext=m4a]"@,
            "best[ext=mp4]"@ + hf,
        ] + if_language(s, "bestvideo"@ + hf + "+bestaudio"@ + lf) + seq![
            "bestvideo"@ + hf + "+bestaudio"@,
            "best"@,
        ]
    } else {
        if_language(s, "bestvideo"@ + hf + "+bestaudio"@ + lf) + seq![
            "bestvideo"@ + hf + "+bestaudio"@,
            "best"@,
        ]
    }
}

/// Arguments for a video download.
pub open spec fn video_args(s: SettingsView) -> Seq<Seq<char>> {
    seq!["-f"@, join(format_alternatives(s), "/"@)] + match container_ext(s.video_container) {
        Some(e) => seq!["--merge-output-format"@, e],
        None => seq![],
    }
}

/// Subtitle languages asked for: the trimmed setting, or all when it is blank.
pub open spec fn subtitle_langs(s: SettingsView) -> Seq<char> {
    let l = trim(s.subtitle_language);
    if l.len() == 0 {
        "all"@
    } else {
        l
    }
}

/// Arguments that embed extra data into the downloaded file.
pub open spec fn embed_args(s: SettingsView) -> Seq<Seq<char>> {
    (if s.embed_thumbnail {
        seq!["--embed-thumbnail"@]
    } else {
        seq![]
    }) + (if s.embed_metadata {
        seq!["--embed-metadata"@]
    } else {
        seq![]
    }) + (if s.embed_chapters {
        seq!["--embed-chapters"@]
    } else {
        seq![]
    }) + (if s.embed_subtitles {
        seq!["--embed-subs"@, "--sub-langs"@, subtitle_langs(s)]
    } else {
        seq![]
    })
}

/// Arguments that limit the download rate.
pub open spec fn rate_args(s: SettingsView) -> Seq<Seq<char>> {
    let r = trim(s.rate_limit);
    if r.len() > 0 {
        seq!["-r"@, r]
    } else {
        seq![]
    }
}

/// The whole yt-dlp command line for the settings `s`, with ffmpeg in `ffmpeg_dir`.
pub open spec fn download_args(s: SettingsView, ffmpeg_dir: Seq<char>) -> Seq<Seq<char>> {
    seq![
        "--newline"@,
        "--no-mtime"@,
        "--ffmpeg-location"@,
        ffmpeg_dir,
        "-o"@,
        output_template(s),
    ] + playlist_args(s) + (if s.audio_only {
        audio_args(s)
    } else {
        video_args(s)
    }) + embed_args(s) + rate_args(s) + ws_tokens(s.extra_args) + seq![trim(s.url)]
}

/// Appends `src` to `dst`.
fn extend_strings(dst: &mut Vec<String>, src: Vec<String>)
    ensures
        final(dst).deep_view() == old(dst).deep_view() + src.deep_view(),
{
    let mut src = src;
    let ghost a = dst.deep_view();
    let ghost b = src.deep_view();
    dst.append(&mut src);
    assert(dst.deep_view() =~= a + b);
}

/// A string made of `a` followed by `b`.
fn concat2(a: &str, b: &str) -> (r: String)
    ensures
        r@ == a@ + b@,
{
    let mut r = a.to_owned();
    r.append(b);
    r
}

impl DownloadSettings {
    fn output_template(&self) -> (r: String)
        ensures
            r@ == output_template(self@),
    {
        let mut r = trim_trailing_separators(self.output_dir.as_str()).to_owned();
        r.append("/");
        let name = trim_str(self.filename_template.as_str());
        if name.is_empty() {
            r.append("%(title)s.%(ext)s");
        } else {
            r.append(name);
        }
        r
    }

    fn playlist_args(&self) -> (r: Vec<String>)
        ensures
            r.deep_view() == playlist_args(self@),
    {
        let mut r: Vec<String> = Vec::new();
        match self.playlist_mode {
            PlaylistMode::Auto => {},
            PlaylistMode::ForcePlaylist => r.push("--yes-playlist".to_owned()),
            PlaylistMode::SingleVideoOnly => r.push("--no-playlist".to_owned()),
        }
        let items = trim_str(self.playlist_items.as_str());
        if !items.is_empty() {
            r.push("--playlist-items".to_owned());
            r.push(items.to_owned());
        }
        assert(r.deep_view() =~= playlist_args(self@));
        r
    }

    fn language_filter(&self) -> (r: String)
        ensures
            r@ == language_filter(self@),
    {
        let lang = trim_str(self.audio_language.as_str());
        if lang.is_empty() {
            String::new()
        } else {
            let mut r = concat2("[language=", lang);
            r.append("]");
            r
        }
    }

    fn audio_args(&self) -> (r: Vec<String>)
        ensures
            r.deep_view() == audio_args(self@),
    {
        let mut r: Vec<String> = Vec::new();
        r.push("-x".to_owned());
        if let Some(code) = self.audio_format.code() {
            r.push("--audio-format".to_owned());
            r.push(code.to_owned());
        }
        r.push("--audio-quality".to_owned());
        r.push("0".to_owned());
        let lang = trim_str(self.audio_language.as_str());
        let fmt = if lang.is_empty() {
            "bestaudio/best".to_owned()
        } else {
            let mut f = concat2("bestaudio[language=", lang);
            f.append("]/bestaudio/best");
            f
        };
        r.push("-f".to_owned());
        r.push(fmt);
        assert(r.deep_view() =~= audio_args(self@));
        r
    }

    fn format_alternatives(&self) -> (r: Vec<String>)
        ensures
            r.deep_view() == format_alternatives(self@),
    {
        let lang_filter = self.language_filter();
        let height_filter = match self.resolution.height_filter() {
            Some(h) => {
                let mut t = concat2("[height<=", decimal_string(h as u64).as_str());
                t.append("]");
                t
            },
            None => String::new(),
        };
        assert(height_filter@ == height_filter_text(self.resolution));
        let with_lang = !lang_filter.as_str().is_empty();
        let mut alts: Vec<String> = Vec::new();
        if matches!(self.resolution, Resolution::Worst) {
            if with_lang {
                alts.push(concat2("worstvideo+worstaudio", lang_filter.as_str()));
            }
            alts.push("worstvideo+worstaudio".to_owned());
            alts.push("worst".to_owned());
        } else {
            match self.video_container {
                VideoContainer::Mp4 => {
                    let mut mp4 = concat2("bestvideo[ext=mp4]", height_filter.as_str());
                    mp4.append("+bestaudio[ext=m4a]");
                    if with_lang {
                        alts.push(concat2(mp4.as_str(), lang_filter.as_str()));
                    }
                    alts.push(mp4);
                    alts.push(concat2("best[ext=mp4]", height_filter.as_str()));
                },
                _ => {},
            }
            let mut any = concat2("bestvideo", height_filter.as_str());
            any.append("+bestaudio");
            if with_lang {
                alts.push(concat2(any.as_str(), lang_filter.as_str()));
            }
            alts.push(any);
            alts.push("best".to_owned());
        }
        assert(alts.deep_view() =~= format_alternatives(self@));
        alts
    }

    fn video_args(&self) -> (r: Vec<String>)
        ensures
            r.deep_view() == video_args(self@),
    {
        let alts = self.format_alternatives();
        let mut r: Vec<String> = Vec::new();
        r.push("-f".to_owned());
        r.push(join_strings(&alts, "/"));
        if let Some(ext) = self.video_container.ext() {
            r.push("--merge-output-format".to_owned());
            r.push(ext.to_owned());
        }
        assert(r.deep_view() =~= video_args(self@));
        r
    }

    fn embed_args(&self) -> (r: Vec<String>)
        ensures
            r.deep_view() == embed_args(self@),
    {
        let mut r: Vec<String> = Vec::new();
        if self.embed_thumbnail {
            r.push("--embed-thumbnail".to_owned());
        }
        if self.embed_metadata {
            r.push("--embed-metadata".to_owned());
        }
        if self.embed_chapters {
            r.push("--embed-chapters".to_owned());
        }
        if self.embed_subtitles {
            r.push("--embed-subs".to_owned());
            r.push("--sub-langs".to_owned());
            let lang = trim_str(self.subtitle_language.as_str());
            if lang.is_empty() {
                r.push("all".to_owned());
            } else {
                r.push(lang.to_owned());
            }
        }
        assert(r.deep_view() =~= embed_args(self@));
        r
    }

    /// The yt-dlp command line for these settings, with the ffmpeg binaries in `ffmpeg_dir`.
    pub fn build_args(&self, ffmpeg_dir: &str) -> (args: Vec<String>)
        ensures
            args.deep_view() == download_args(self@, ffmpeg_dir@),
    {
        let mut args: Vec<String> = Vec::new();
        // Progress in a form that is easy to parse.
        args.push("--newline".to_owned());
        args.push("--no-mtime".to_owned());
        args.push("--ffmpeg-location".to_owned());
        args.push(ffmpeg_dir.to_owned());
        args.push("-o".to_owned());
        args.push(self.output_template());
        extend_strings(&mut args, self.playlist_args());
        if self.audio_only {
            extend_strings(&mut args, self.audio_args());
        } else {
            extend_strings(&mut args, self.video_args());
        }
        extend_strings(&mut args, self.embed_args());
        let rate = trim_str(self.rate_limit.as_str());
        let mut rate_part: Vec<String> = Vec::new();
        if !rate.is_empty() {
            rate_part.push("-r".to_owned());
            rate_part.push(rate.to_owned());
        }
        assert(rate_part.deep_view() =~= rate_args(self@));
        extend_strings(&mut args, rate_part);
        extend_strings(&mut args, split_whitespace(self.extra_args.as_str()));
        let ghost before = args.deep_view();
        args.push(trim_str(self.url.as_str()).to_owned());
        assert(args.deep_view() =~= before + seq![trim(self.url@)]);
        args
    }
}


/// The settings a new session starts with, downloading into `output_dir`.
pub open spec fn default_settings(output_dir: Seq<char>) -> SettingsView {
    SettingsView {
        url: seq![],
        output_dir: output_dir,
        audio_only: false,
        video_container: VideoContainer::Mp4,
        resolution: Resolution::Best,
        audio_format: AudioFormat::Best,
        audio_language: seq![],
        embed_thumbnail: true,
        embed_subtitles: false,
        subtitle_language: "ru"@,
        embed_metadata: true,
        embed_chapters: false,
        playlist_mode: PlaylistMode::Auto,
        playlist_items: seq![],
        filename_template: "%(title)s.%(ext)s"@,
        rate_limit: seq![],
        extra_args: seq![],
    }
}

/// The folder new settings download into: the user's download folder where
/// one is known, else the current folder.
pub open spec fn default_output_dir(download_dir: Option<Seq<char>>) -> Seq<char> {
    match download_dir {
        Some(d) => d,
        None => "."@,
    }
}

impl DownloadSettings {
    /// The default settings, downloading into `download_dir` where it is given.
    pub fn with_download_dir(download_dir: Option<String>) -> (r: Self)
        ensures
            r@ == default_settings(default_output_dir(opt_string_view(download_dir))),
    {
        let output_dir = match download_dir {
            Some(d) => d,
            None => ".".to_owned(),
        };
        DownloadSettings {
            url: String::new(),
            output_dir,
            audio_only: false,
            video_container: VideoContainer::Mp4,
            resolution: Resolution::Best,
            audio_format: AudioFormat::Best,
            audio_language: String::new(),
            embed_thumbnail: true,
            embed_subtitles: false,
            subtitle_language: "ru".to_owned(),
            embed_metadata: true,
            embed_chapters: false,
            playlist_mode: PlaylistMode::Auto,
            playlist_items: String::new(),
            filename_template: "%(title)s.%(ext)s".to_owned(),
            rate_limit: String::new(),
            extra_args: String::new(),
        }
    }
}

/// The characters of an optional owned text.
pub open spec fn opt_string_view(o: Option<String>) -> Option<Seq<char>> {
    match o {
        Some(t) => Some(t@),
        None => None,
    }
}

/// Different containers are shown with different labels.
pub proof fn lemma_container_labels_distinct(a: VideoContainer, b: VideoContainer)
    ensures
        container_label(a) == container_label(b) ==> a == b,
{
    reveal_strlit("Автоматически (лучший)");
    reveal_strlit("MP4");
    reveal_strlit("MKV");
    reveal_strlit("WebM");
    if container_label(a) == container_label(b) && a != b {
        assert(container_label(a).len() == container_label(b).len());
        assert(container_label(a)[1] == container_label(b)[1]);
    }
}

/// Different resolutions are shown with different labels.
pub proof fn lemma_resolution_labels_distinct(a: Resolution, b: Resolution)
    ensures
        resolution_label(a) == resolution_label(b) ==> a == b,
{
    reveal_strlit("Максимальное");
    reveal_strlit("2160p (4K)");
    reveal_strlit("1440p (2K)");
    reveal_strlit("1080p");
    reveal_strlit("720p");
    reveal_strlit("480p");
    reveal_strlit("360p");
    reveal_strlit("Минимальное");
    if resolution_label(a) == resolution_label(b) && a != b {
        assert(resolution_label(a).len() == resolution_label(b).len());
        assert(resolution_label(a)[0] == resolution_label(b)[0]);
        assert(resolution_label(a)[1] == resolution_label(b)[1]);
    }
}

/// Different audio formats are shown with different labels.
pub proof fn lemma_audio_labels_distinct(a: AudioFormat, b: AudioFormat)
    ensures
        audio_label(a) == audio_label(b) ==> a == b,
{
    reveal_strlit("Оригинальный");
    reveal_strlit("MP3");
    reveal_strlit("M4A (AAC)");
    reveal_strlit("Opus");
    reveal_strlit("WAV");
    reveal_strlit("FLAC");
    if audio_label(a) == audio_label(b) && a != b {
        assert(audio_label(a).len() == audio_label(b).len());
        assert(audio_label(a)[0] == audio_label(b)[0]);
    }
}

/// Different playlist modes are shown with different labels.
pub proof fn lemma_playlist_labels_distinct(a: PlaylistMode, b: PlaylistMode)
    ensures
        playlist_label(a) == playlist_label(b) ==> a == b,
{
    reveal_strlit("Авто (спросить yt-dlp)");
    reveal_strlit("Всегда скачивать весь плейлист");
    reveal_strlit("Только одно видео");
    if playlist_label(a) == playlist_label(b) && a != b {
        assert(playlist_label(a).len() == playlist_label(b).len());
    }
}

/// Whether `s` begins with `p`.
pub open spec fn starts_with(s: Seq<char>, p: Seq<char>) -> bool {
    p.len() <= s.len() && s.take(p.len() as int) == p
}

/// Whether a format alternative yields video: a combined best or worst format, or
/// a selector that begins with a video stream.
pub open spec fn selects_video(alt: Seq<char>) -> bool {
    ||| alt == "best"@
    ||| alt == "worst"@
    ||| starts_with(alt, "best["@)
    ||| starts_with(alt, "bestvideo"@)
    ||| starts_with(alt, "worstvideo"@)
}

/// Whether a format alternative begins with an audio-only stream.
pub open spec fn starts_audio_only(alt: Seq<char>) -> bool {
    starts_with(alt, "bestaudio"@) || starts_with(alt, "worstaudio"@)
}

proof fn lemma_starts_with_concat(a: Seq<char>, b: Seq<char>, p: Seq<char>)
    requires
        starts_with(a, p),
    ensures
        starts_with(a + b, p),
{
    assert((a + b).take(p.len() as int) =~= a.take(p.len() as int));
}

proof fn lemma_video_prefix(t: Seq<char>)
    requires
        starts_with(t, "bestvideo"@) || starts_with(t, "worstvideo"@) || starts_with(t, "best["@),
    ensures
        !starts_audio_only(t),
{
    reveal_strlit("bestvideo");
    reveal_strlit("worstvideo");
    reveal_strlit("best[");
    reveal_strlit("bestaudio");
    reveal_strlit("worstaudio");
    if starts_with(t, "bestvideo"@) {
        assert(t[0] == t.take(9)[0]);
        assert(t[4] == t.take(9)[4]);
    }
    if starts_with(t, "worstvideo"@) {
        assert(t[0] == t.take(10)[0]);
        assert(t[5] == t.take(10)[5]);
    }
    if starts_with(t, "best["@) {
        assert(t[0] == t.take(5)[0]);
        assert(t[4] == t.take(5)[4]);
    }
    if starts_with(t, "bestaudio"@) {
        assert(t[0] == t.take(9)[0]);
        assert(t[4] == t.take(9)[4]);
    }
    if starts_with(t, "worstaudio"@) {
        assert(t[0] == t.take(10)[0]);
        assert(t[5] == t.take(10)[5]);
    }
}

/// In video mode no alternative of the format selector downloads audio alone:
/// each one is a combined format or begins with a video stream, and none begins
/// with an audio-only stream.
pub proof fn lemma_video_alternatives_select_video(s: SettingsView)
    ensures
        forall|k: int|
            0 <= k < format_alternatives(s).len() ==> selects_video(
                #[trigger] format_alternatives(s)[k],
            ) && !starts_audio_only(format_alternatives(s)[k]),
{
    reveal_strlit("bestvideo[ext=mp4]");
    reveal_strlit("bestvideo");
    reveal_strlit("worstvideo+worstaudio");
    reveal_strlit("worstvideo");
    reveal_strlit("best[ext=mp4]");
    reveal_strlit("best[");
    reveal_strlit("best");
    reveal_strlit("worst");
    reveal_strlit("bestaudio");
    reveal_strlit("worstaudio");
    let lf = language_filter(s);
    let hf = height_filter_text(s.resolution);
    let bv = "bestvideo"@;
    let wv = "worstvideo"@;
    let bb = "best["@;
    assert(starts_with("bestvideo[ext=mp4]"@, bv)) by {
        assert("bestvideo[ext=mp4]"@.take(9) =~= bv);
    }
    assert(starts_with("bestvideo"@, bv)) by {
        assert("bestvideo"@.take(9) =~= bv);
    }
    assert(starts_with("worstvideo+worstaudio"@, wv)) by {
        assert("worstvideo+worstaudio"@.take(10) =~= wv);
    }
    assert(starts_with("best[ext=mp4]"@, bb)) by {
        assert("best[ext=mp4]"@.take(5) =~= bb);
    }
    let m1 = "bestvideo[ext=mp4]"@ + hf + "+bestaudio[ext=m4a]"@;
    let a1 = "bestvideo"@ + hf + "+bestaudio"@;
    let w1 = "worstvideo+worstaudio"@;
    let b1 = "best[ext=mp4]"@ + hf;
    lemma_starts_with_concat("bestvideo[ext=mp4]"@, hf, bv);
    lemma_starts_with_concat("bestvideo[ext=mp4]"@ + hf, "+bestaudio[ext=m4a]"@, bv);
    lemma_starts_with_concat(m1, lf, bv);
    lemma_starts_with_concat("bestvideo"@, hf, bv);
    lemma_starts_with_concat("bestvideo"@ + hf, "+bestaudio"@, bv);
    lemma_starts_with_concat(a1, lf, bv);
    lemma_starts_with_concat(w1, lf, wv);
    lemma_starts_with_concat("best[ext=mp4]"@, hf, bb);
    lemma_video_prefix(m1);
    lemma_video_prefix(m1 + lf);
    lemma_video_prefix(a1);
    lemma_video_prefix(a1 + lf);
    lemma_video_prefix(w1);
    lemma_video_prefix(w1 + lf);
    lemma_video_prefix(b1);
    assert(!starts_audio_only("best"@));
    assert(!starts_audio_only("worst"@)) by {
        if starts_with("worst"@, "worstaudio"@) {
        }
    }
}

/// With an audio language set, the most preferred alternative is the next one with
/// the language filter added, so the wanted language is tried first and the same
/// formats in any language stay as the fallback.
pub proof fn lemma_language_tried_first(s: SettingsView)
    requires
        trim(s.audio_language).len() > 0,
    ensures
        format_alternatives(s).len() >= 2,
        format_alternatives(s)[0] == format_alternatives(s)[1] + language_filter(s),
{
    let lf = language_filter(s);
    let hf = height_filter_text(s.resolution);
    assert(("bestvideo[ext=mp4]"@ + hf + "+bestaudio[ext=m4a]"@) + lf =~= "bestvideo[ext=mp4]"@ + hf
        + "+bestaudio[ext=m4a]"@ + lf);
}

/// The last alternative always matches something: the combined worst format for
/// the worst quality, the combined best format otherwise.
pub proof fn lemma_last_alternative_is_fallback(s: SettingsView)
    ensures
        format_alternatives(s).len() > 0,
        format_alternatives(s).last() == if s.resolution == Resolution::Worst {
            "worst"@
        } else {
            "best"@
        },
{
}

/// For MP4 (unless the worst quality is wanted) the most preferred alternative
/// asks for an MP4 video stream merged with an M4A audio stream, which MP4 holds
/// without re-encoding.
pub proof fn lemma_mp4_prefers_compatible_streams(s: SettingsView)
    requires
        s.video_container == VideoContainer::Mp4,
        s.resolution != Resolution::Worst,
    ensures
        format_alternatives(s)[0] == "bestvideo[ext=mp4]"@ + height_filter_text(s.resolution)
            + "+bestaudio[ext=m4a]"@ + language_filter(s),
{
    let lf = language_filter(s);
    if lf.len() == 0 {
        assert("bestvideo[ext=mp4]"@ + height_filter_text(s.resolution) + "+bestaudio[ext=m4a]"@
            + lf =~= "bestvideo[ext=mp4]"@ + height_filter_text(s.resolution)
            + "+bestaudio[ext=m4a]"@);
    }
}

proof fn lemma_join_starts_with_first(parts: Seq<Seq<char>>, sep: Seq<char>)
    requires
        parts.len() >= 1,
    ensures
        starts_with(join(parts, sep), parts[0]),
    decreases parts.len(),
{
    if parts.len() == 1 {
        assert(parts[0].take(parts[0].len() as int) =~= parts[0]);
    } else {
        lemma_join_starts_with_first(parts.drop_last(), sep);
        lemma_starts_with_concat(join(parts.drop_last(), sep), sep, parts[0]);
        lemma_starts_with_concat(join(parts.drop_last(), sep) + sep, parts.last(), parts[0]);
    }
}

/// Video downloads are merged with `--merge-output-format` alone: the video
/// arguments never hold `--remux-video`, which re-muxes streams that the container
/// may not carry.
pub proof fn lemma_video_args_never_remux(s: SettingsView)
    ensures
        !video_args(s).contains("--remux-video"@),
{
    reveal_strlit("--remux-video");
    reveal_strlit("-f");
    reveal_strlit("--merge-output-format");
    reveal_strlit("mp4");
    reveal_strlit("mkv");
    reveal_strlit("webm");
    reveal_strlit("best");
    reveal_strlit("worst");
    reveal_strlit("best[");
    reveal_strlit("bestvideo");
    reveal_strlit("worstvideo");
    let alts = format_alternatives(s);
    let j = join(alts, "/"@);
    lemma_video_alternatives_select_video(s);
    lemma_last_alternative_is_fallback(s);
    lemma_join_starts_with_first(alts, "/"@);
    let a0 = alts[0];
    assert(selects_video(a0));
    assert(a0.len() > 0 && (a0[0] == 'b' || a0[0] == 'w')) by {
        if starts_with(a0, "best["@) {
            assert(a0.take(5)[0] == a0[0]);
        }
        if starts_with(a0, "bestvideo"@) {
            assert(a0.take(9)[0] == a0[0]);
        }
        if starts_with(a0, "worstvideo"@) {
            assert(a0.take(10)[0] == a0[0]);
        }
    }
    assert(j[0] == a0[0]) by {
        assert(j.take(a0.len() as int)[0] == j[0]);
    }
    assert(j != "--remux-video"@);
    let v = video_args(s);
    if v.contains("--remux-video"@) {
        let k = choose|k: int| 0 <= k < v.len() && v[k] == "--remux-video"@;
        assert(v[k].len() == 13);
    }
}

/// The settings `s` with the extra arguments `extra` in place of their own.
pub open spec fn with_extra_args(s: SettingsView, extra: Seq<char>) -> SettingsView {
    SettingsView { extra_args: extra, ..s }
}

/// The settings `s` with no audio language.
pub open spec fn without_language(s: SettingsView) -> SettingsView {
    SettingsView { audio_language: seq![], ..s }
}

/// Blank extra arguments add nothing, and any extra arguments stand, as their
/// whitespace-separated tokens, just before the link: the command line with
/// extra arguments `extra` is the one with blank extra arguments, less the link,
/// then the tokens of `extra`, then the link.
pub proof fn lemma_extra_args_before_link(s: SettingsView, extra: Seq<char>, ffmpeg_dir: Seq<char>)
    requires
        trim(s.extra_args).len() == 0,
    ensures
        ws_tokens(s.extra_args) == Seq::<Seq<char>>::empty(),
        download_args(with_extra_args(s, extra), ffmpeg_dir) == download_args(s, ffmpeg_dir).drop_last()
            + ws_tokens(extra) + seq![trim(s.url)],
{
    lemma_blank_has_no_tokens(s.extra_args);
    let t = with_extra_args(s, extra);
    let head = seq![
        "--newline"@,
        "--no-mtime"@,
        "--ffmpeg-location"@,
        ffmpeg_dir,
        "-o"@,
        output_template(s),
    ] + playlist_args(s) + (if s.audio_only {
        audio_args(s)
    } else {
        video_args(s)
    }) + embed_args(s) + rate_args(s);
    assert(output_template(t) == output_template(s));
    assert(playlist_args(t) == playlist_args(s));
    assert(audio_args(t) == audio_args(s));
    assert(format_alternatives(t) == format_alternatives(s));
    assert(video_args(t) == video_args(s));
    assert(embed_args(t) == embed_args(s));
    assert(rate_args(t) == rate_args(s));
    assert(download_args(s, ffmpeg_dir) =~= head + seq![trim(s.url)]);
    assert(download_args(s, ffmpeg_dir).drop_last() =~= head);
    assert(download_args(t, ffmpeg_dir) =~= head + ws_tokens(extra) + seq![trim(s.url)]);
}

/// The list `base` with, before each alternative that `preferred` marks, a copy
/// of it with the language filter `lf` added.
pub open spec fn with_language_preference(
    base: Seq<Seq<char>>,
    preferred: Seq<bool>,
    lf: Seq<char>,
) -> Seq<Seq<char>>
    decreases base.len(),
{
    if base.len() == 0 {
        seq![]
    } else {
        (if preferred.len() > 0 && preferred[0] {
            seq![base[0] + lf]
        } else {
            seq![]
        }) + seq![base[0]] + with_language_preference(base.drop_first(), preferred.drop_first(), lf)
    }
}

/// The audio language is only a preference: the alternatives with a language set
/// are those without it, where some of them are preceded by the same alternative
/// with the language filter added, so every language alternative is followed at
/// once by its fallback in any language.
pub proof fn lemma_language_is_preference(s: SettingsView)
    requires
        trim(s.audio_language).len() > 0,
    ensures
        exists|preferred: Seq<bool>|
            format_alternatives(s) == #[trigger] with_language_preference(
                format_alternatives(without_language(s)),
                preferred,
                language_filter(s),
            ),
{
    let s0 = without_language(s);
    let lf = language_filter(s);
    assert(trim(s0.audio_language) =~= Seq::<char>::empty()) by {
        assert(s0.audio_language =~= Seq::<char>::empty());
    }
    assert(language_filter(s0) == Seq::<char>::empty());
    let base = format_alternatives(s0);
    let hf = height_filter_text(s.resolution);
    let preferred: Seq<bool> = if s.resolution == Resolution::Worst {
        seq![true, false]
    } else if s.video_container == VideoContainer::Mp4 {
        seq![true, false, true, false]
    } else {
        seq![true, false]
    };
    reveal_with_fuel(with_language_preference, 5);
    assert(language_filter(s0).len() == 0);
    assert(if_language(s0, "worstvideo+worstaudio"@) == Seq::<Seq<char>>::empty());
    if s.resolution == Resolution::Worst {
        assert(base =~= seq!["worstvideo+worstaudio"@, "worst"@]);
        assert(base.drop_first().drop_first() =~= Seq::<Seq<char>>::empty());
        assert(with_language_preference(base, preferred, lf) =~= format_alternatives(s));
    } else if s.video_container == VideoContainer::Mp4 {
        let m = "bestvideo[ext=mp4]"@ + hf + "+bestaudio[ext=m4a]"@;
        let a = "bestvideo"@ + hf + "+bestaudio"@;
        assert(m + language_filter(s0) =~= m);
        assert(a + language_filter(s0) =~= a);
        assert(base =~= seq![m, "best[ext=mp4]"@ + hf, a, "best"@]);
        let b1 = base.drop_first();
        let b2 = b1.drop_first();
        let b3 = b2.drop_first();
        assert(b3.drop_first() =~= Seq::<Seq<char>>::empty());
        assert(with_language_preference(b3, preferred.drop_first().drop_first().drop_first(), lf)
            =~= seq!["best"@]);
        assert(with_language_preference(b2, preferred.drop_first().drop_first(), lf) =~= seq![
            a + lf,
            a,
            "best"@,
        ]);
        assert(with_language_preference(b1, preferred.drop_first(), lf) =~= seq![
            "best[ext=mp4]"@ + hf,
            a + lf,
            a,
            "best"@,
        ]);
        assert(with_language_preference(base, preferred, lf) =~= format_alternatives(s));
    } else {
        let a = "bestvideo"@ + hf + "+bestaudio"@;
        assert(a + language_filter(s0) =~= a);
        assert(base =~= seq![a, "best"@]);
        assert(base.drop_first().drop_first() =~= Seq::<Seq<char>>::empty());
        assert(with_language_preference(base, preferred, lf) =~= format_alternatives(s));
    }
}

proof fn lemma_literal_lacks_slash()
    ensures
        lacks("bestvideo[ext=mp4]"@, '/'),
        lacks("+bestaudio[ext=m4a]"@, '/'),
        lacks("bestvideo"@, '/'),
        lacks("+bestaudio"@, '/'),
        lacks("worstvideo+worstaudio"@, '/'),
        lacks("best[ext=mp4]"@, '/'),
        lacks("best"@, '/'),
        lacks("worst"@, '/'),
        lacks("[height<="@, '/'),
        lacks("[language="@, '/'),
        lacks("]"@, '/'),
        lacks(Seq::<char>::empty(), '/'),
{
    reveal_strlit("bestvideo[ext=mp4]");
    reveal_strlit("+bestaudio[ext=m4a]");
    reveal_strlit("bestvideo");
    reveal_strlit("+bestaudio");
    reveal_strlit("worstvideo+worstaudio");
    reveal_strlit("best[ext=mp4]");
    reveal_strlit("best");
    reveal_strlit("worst");
    reveal_strlit("[height<=");
    reveal_strlit("[language=");
    reveal_strlit("]");
}

/// No format alternative holds a `/` when the audio language holds none, so `/`
/// can separate them.
pub proof fn lemma_alternatives_lack_slash(s: SettingsView)
    requires
        lacks(trim(s.audio_language), '/'),
    ensures
        forall|k: int|
            0 <= k < format_alternatives(s).len() ==> lacks(
                #[trigger] format_alternatives(s)[k],
                '/',
            ),
{
    lemma_literal_lacks_slash();
    let lang = trim(s.audio_language);
    let lf = language_filter(s);
    let hf = height_filter_text(s.resolution);
    if lang.len() > 0 {
        lemma_concat_lacks("[language="@, lang, '/');
        lemma_concat_lacks("[language="@ + lang, "]"@, '/');
    }
    assert(lacks(lf, '/'));
    match resolution_height(s.resolution) {
        Some(h) => {
            lemma_decimal_lacks(h as nat, '/');
            lemma_concat_lacks("[height<="@, decimal(h as nat), '/');
            lemma_concat_lacks("[height<="@ + decimal(h as nat), "]"@, '/');
        },
        None => {},
    }
    assert(lacks(hf, '/'));
    let m = "bestvideo[ext=mp4]"@ + hf;
    lemma_concat_lacks("bestvideo[ext=mp4]"@, hf, '/');
    lemma_concat_lacks(m, "+bestaudio[ext=m4a]"@, '/');
    lemma_concat_lacks(m + "+bestaudio[ext=m4a]"@, lf, '/');
    let a = "bestvideo"@ + hf;
    lemma_concat_lacks("bestvideo"@, hf, '/');
    lemma_concat_lacks(a, "+bestaudio"@, '/');
    lemma_concat_lacks(a + "+bestaudio"@, lf, '/');
    lemma_concat_lacks("worstvideo+worstaudio"@, lf, '/');
    lemma_concat_lacks("best[ext=mp4]"@, hf, '/');
}

/// Splitting the joined format selector at `/` gives the alternatives back, when
/// the audio language holds no `/`.
pub proof fn lemma_selector_splits_into_alternatives(s: SettingsView)
    requires
        lacks(trim(s.audio_language), '/'),
    ensures
        split_on(join(format_alternatives(s), "/"@), '/') == format_alternatives(s),
{
    reveal_strlit("/");
    assert("/"@ =~= seq!['/']);
    lemma_alternatives_lack_slash(s);
    lemma_last_alternative_is_fallback(s);
    lemma_split_join(format_alternatives(s), '/');
}

/// The audio language is only a preference, in the selector that yt-dlp gets:
/// in video mode the value after `-f` is the joined selector, and split at `/`
/// it is the selector without a language, where some alternatives are preceded
/// by the same alternative with the language filter added.
pub proof fn lemma_selector_language_is_preference(s: SettingsView, ffmpeg_dir: Seq<char>)
    requires
        trim(s.audio_language).len() > 0,
        lacks(trim(s.audio_language), '/'),
    ensures
        !s.audio_only ==> download_args(s, ffmpeg_dir)[6 + playlist_args(s).len() as int] == "-f"@
            && download_args(s, ffmpeg_dir)[7 + playlist_args(s).len() as int] == join(
            format_alternatives(s),
            "/"@,
        ),
        exists|preferred: Seq<bool>|
            split_on(join(format_alternatives(s), "/"@), '/') == #[trigger] with_language_preference(
                split_on(join(format_alternatives(without_language(s)), "/"@), '/'),
                preferred,
                language_filter(s),
            ),
{
    let s0 = without_language(s);
    assert(s0.audio_language =~= Seq::<char>::empty());
    assert(trim(s0.audio_language) =~= Seq::<char>::empty());
    lemma_selector_splits_into_alternatives(s);
    lemma_selector_splits_into_alternatives(s0);
    lemma_language_is_preference(s);
    let p = playlist_args(s);
    if !s.audio_only {
        let d = download_args(s, ffmpeg_dir);
        assert(d[6 + p.len() as int] == video_args(s)[0]);
        assert(d[7 + p.len() as int] == video_args(s)[1]);
    }
}

/// Whether `args` holds `flag` directly followed by `value`.
pub open spec fn has_option(args: Seq<Seq<char>>, flag: Seq<char>, value: Seq<char>) -> bool {
    exists|i: int| 0 <= i && i + 1 < args.len() && #[trigger] args[i] == flag && args[i + 1] == value
}

/// Non-blank playlist items are always handed to yt-dlp, trimmed, after
/// `--playlist-items`, whatever the playlist mode.
pub proof fn lemma_playlist_items_passed(s: SettingsView, ffmpeg_dir: Seq<char>)
    requires
        trim(s.playlist_items).len() > 0,
    ensures
        has_option(download_args(s, ffmpeg_dir), "--playlist-items"@, trim(s.playlist_items)),
{
    let d = download_args(s, ffmpeg_dir);
    let p = playlist_args(s);
    let m: int = match s.playlist_mode {
        PlaylistMode::Auto => 0,
        _ => 1,
    };
    assert(p[m] == "--playlist-items"@);
    assert(p[m + 1] == trim(s.playlist_items));
    assert(d[6 + m] == p[m]);
    assert(d[7 + m] == p[m + 1]);
}

/// In video mode the chosen container is always handed to yt-dlp after
/// `--merge-output-format`, at every resolution; the automatic choice sets none.
pub proof fn lemma_merge_format_passed(s: SettingsView, ffmpeg_dir: Seq<char>)
    requires
        !s.audio_only,
    ensures
        s.video_container == VideoContainer::Mp4 ==> has_option(
            download_args(s, ffmpeg_dir),
            "--merge-output-format"@,
            "mp4"@,
        ),
        s.video_container == VideoContainer::Mkv ==> has_option(
            download_args(s, ffmpeg_dir),
            "--merge-output-format"@,
            "mkv"@,
        ),
        s.video_container == VideoContainer::Webm ==> has_option(
            download_args(s, ffmpeg_dir),
            "--merge-output-format"@,
            "webm"@,
        ),
{
    let d = download_args(s, ffmpeg_dir);
    let k: int = 6 + playlist_args(s).len() as int;
    let v = video_args(s);
    if s.video_container != VideoContainer::Best {
        assert(d[k + 2] == v[2]);
        assert(d[k + 3] == v[3]);
    }
}

/// Ticked embedding boxes always reach yt-dlp, in audio-only mode as in video
/// mode: the cover, the metadata, the chapters, and the subtitles with their
/// languages.
pub proof fn lemma_embedding_passed(s: SettingsView, ffmpeg_dir: Seq<char>)
    ensures
        s.embed_thumbnail ==> download_args(s, ffmpeg_dir).contains("--embed-thumbnail"@),
        s.embed_metadata ==> download_args(s, ffmpeg_dir).contains("--embed-metadata"@),
        s.embed_chapters ==> download_args(s, ffmpeg_dir).contains("--embed-chapters"@),
        s.embed_subtitles ==> download_args(s, ffmpeg_dir).contains("--embed-subs"@) && has_option(
            download_args(s, ffmpeg_dir),
            "--sub-langs"@,
            subtitle_langs(s),
        ),
{
    let d = download_args(s, ffmpeg_dir);
    let k: int = 6 + playlist_args(s).len() as int + (if s.audio_only {
        audio_args(s)
    } else {
        video_args(s)
    }).len() as int;
    let e = embed_args(s);
    let t: int = if s.embed_thumbnail { 1 } else { 0 };
    let m: int = if s.embed_metadata { 1 } else { 0 };
    let c: int = if s.embed_chapters { 1 } else { 0 };
    if s.embed_thumbnail {
        assert(e[0] == "--embed-thumbnail"@);
        assert(d[k] == e[0]);
    }
    if s.embed_metadata {
        assert(e[t] == "--embed-metadata"@);
        assert(d[k + t] == e[t]);
    }
    if s.embed_chapters {
        assert(e[t + m] == "--embed-chapters"@);
        assert(d[k + t + m] == e[t + m]);
    }
    if s.embed_subtitles {
        assert(e[t + m + c] == "--embed-subs"@);
        assert(e[t + m + c + 1] == "--sub-langs"@);
        assert(e[t + m + c + 2] == subtitle_langs(s));
        assert(d[k + t + m + c] == e[t + m + c]);
        assert(d[k + t + m + c + 1] == e[t + m + c + 1]);
        assert(d[k + t + m + c + 2] == e[t + m + c + 2]);
    }
}

/// The command line starts with the progress-friendly `--newline` flag and ends
/// with the link, which carries no whitespace at either end.
pub proof fn lemma_args_frame(s: SettingsView, ffmpeg_dir: Seq<char>)
    ensures
        download_args(s, ffmpeg_dir)[0] == "--newline"@,
        download_args(s, ffmpeg_dir).last() == trim(s.url),
        trim(s.url).len() > 0 ==> !is_ws(trim(s.url)[0]) && !is_ws(trim(s.url).last()),
{
    lemma_trim_ends(s.url);
}

} // verus!
