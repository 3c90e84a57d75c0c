use yt_dlp_gui::settings::{AudioFormat, DownloadSettings, PlaylistMode, Resolution, VideoContainer};

fn settings() -> DownloadSettings {
    let mut s = DownloadSettings::with_download_dir(Some("/home/u/Downloads".to_string()));
    s.url = "https://example.com/watch?v=abc".to_string();
    s
}

fn strs(v: &[&str]) -> Vec<String> {
    v.iter().map(|s| s.to_string()).collect()
}

#[test]
fn labels_of_containers() {
    assert_eq!(VideoContainer::Best.label(), "Автоматически (лучший)");
    assert_eq!(VideoContainer::Mp4.label(), "MP4");
    assert_eq!(VideoContainer::Mkv.label(), "MKV");
    assert_eq!(VideoContainer::Webm.label(), "WebM");
}

#[test]
fn labels_of_resolutions() {
    let labels: Vec<&str> = Resolution::ALL.iter().map(|r| r.label()).collect();
    assert_eq!(
        labels,
        vec!["Максимальное", "2160p (4K)", "1440p (2K)", "1080p", "720p", "480p", "360p", "Минимальное"]
    );
}

#[test]
fn labels_of_audio_formats() {
    let labels: Vec<&str> = AudioFormat::ALL.iter().map(|a| a.label()).collect();
    assert_eq!(labels, vec!["Оригинальный", "MP3", "M4A (AAC)", "Opus", "WAV", "FLAC"]);
}

#[test]
fn labels_of_playlist_modes() {
    assert_eq!(PlaylistMode::Auto.label(), "Авто (спросить yt-dlp)");
    assert_eq!(PlaylistMode::ForcePlaylist.label(), "Всегда скачивать весь плейлист");
    assert_eq!(PlaylistMode::SingleVideoOnly.label(), "Только одно видео");
}

#[test]
fn labels_are_distinct() {
    let labels: Vec<&str> = VideoContainer::ALL.iter().map(|c| c.label()).collect();
    for i in 0..labels.len() {
        for j in 0..labels.len() {
            if i != j {
                assert_ne!(labels[i], labels[j]);
            }
        }
    }
}

#[test]
fn container_extensions() {
    assert_eq!(VideoContainer::Best.ext(), None);
    assert_eq!(VideoContainer::Mp4.ext(), Some("mp4"));
    assert_eq!(VideoContainer::Mkv.ext(), Some("mkv"));
    assert_eq!(VideoContainer::Webm.ext(), Some("webm"));
}

#[test]
fn audio_codes() {
    assert_eq!(AudioFormat::Best.code(), None);
    assert_eq!(AudioFormat::Mp3.code(), Some("mp3"));
    assert_eq!(AudioFormat::M4a.code(), Some("m4a"));
    assert_eq!(AudioFormat::Opus.code(), Some("opus"));
    assert_eq!(AudioFormat::Wav.code(), Some("wav"));
    assert_eq!(AudioFormat::Flac.code(), Some("flac"));
}

#[test]
fn height_filters() {
    let hs: Vec<Option<u32>> = Resolution::ALL.iter().map(|r| r.height_filter()).collect();
    assert_eq!(
        hs,
        vec![None, Some(2160), Some(1440), Some(1080), Some(720), Some(480), Some(360), None]
    );
}

#[test]
fn defaults_without_download_folder() {
    let s = DownloadSettings::with_download_dir(None);
    assert_eq!(s.output_dir, ".");
    assert_eq!(s.url, "");
    assert!(!s.audio_only);
    assert_eq!(s.video_container, VideoContainer::Mp4);
    assert_eq!(s.resolution, Resolution::Best);
    assert_eq!(s.audio_format, AudioFormat::Best);
    assert!(s.embed_thumbnail);
    assert!(!s.embed_subtitles);
    assert_eq!(s.subtitle_language, "ru");
    assert!(s.embed_metadata);
    assert!(!s.embed_chapters);
    assert_eq!(s.playlist_mode, PlaylistMode::Auto);
    assert_eq!(s.filename_template, "%(title)s.%(ext)s");
    assert_eq!(s.rate_limit, "");
    assert_eq!(s.extra_args, "");
}

#[test]
fn default_video_args() {
    let s = settings();
    assert_eq!(
        s.build_args("/opt/ffmpeg"),
        strs(&[
            "--newline",
            "--no-mtime",
            "--ffmpeg-location",
            "/opt/ffmpeg",
            "-o",
            "/home/u/Downloads/%(title)s.%(ext)s",
            "-f",
            "bestvideo[ext=mp4]+bestaudio[ext=m4a]/best[ext=mp4]/bestvideo+bestaudio/best",
            "--merge-output-format",
            "mp4",
            "--embed-thumbnail",
            "--embed-metadata",
            "https://example.com/watch?v=abc",
        ])
    );
}

#[test]
fn mp4_with_height_and_language() {
    let mut s = settings();
    s.resolution = Resolution::R1080;
    s.audio_language = "  ru ".to_string();
    let args = s.build_args("ff");
    assert_eq!(args[6], "-f");
    assert_eq!(
        args[7],
        "bestvideo[ext=mp4][height<=1080]+bestaudio[ext=m4a][language=ru]/\
         bestvideo[ext=mp4][height<=1080]+bestaudio[ext=m4a]/\
         best[ext=mp4][height<=1080]/\
         bestvideo[height<=1080]+bestaudio[language=ru]/\
         bestvideo[height<=1080]+bestaudio/best"
    );
}

#[test]
fn mkv_selector_and_merge_format() {
    let mut s = settings();
    s.video_container = VideoContainer::Mkv;
    s.resolution = Resolution::R720;
    let args = s.build_args("ff");
    assert_eq!(args[7], "bestvideo[height<=720]+bestaudio/best");
    assert_eq!(args[8], "--merge-output-format");
    assert_eq!(args[9], "mkv");
}

#[test]
fn best_container_has_no_merge_format() {
    let mut s = settings();
    s.video_container = VideoContainer::Best;
    s.embed_thumbnail = false;
    s.embed_metadata = false;
    let args = s.build_args("ff");
    assert_eq!(args[7], "bestvideo+bestaudio/best");
    assert_eq!(args.len(), 9);
    assert!(!args.iter().any(|a| a == "--merge-output-format" || a == "--remux-video"));
}

#[test]
fn worst_quality_with_language() {
    let mut s = settings();
    s.resolution = Resolution::Worst;
    s.audio_language = "en".to_string();
    let args = s.build_args("ff");
    assert_eq!(args[7], "worstvideo+worstaudio[language=en]/worstvideo+worstaudio/worst");
}

#[test]
fn audio_only_args() {
    let mut s = settings();
    s.audio_only = true;
    s.audio_format = AudioFormat::Mp3;
    s.audio_language = "de".to_string();
    s.embed_thumbnail = false;
    s.embed_metadata = false;
    let args = s.build_args("ff");
    assert_eq!(
        args[6..].to_vec(),
        strs(&[
            "-x",
            "--audio-format",
            "mp3",
            "--audio-quality",
            "0",
            "-f",
            "bestaudio[language=de]/bestaudio/best",
            "https://example.com/watch?v=abc",
        ])
    );
}

#[test]
fn audio_only_original_format() {
    let mut s = settings();
    s.audio_only = true;
    s.embed_thumbnail = false;
    s.embed_metadata = false;
    let args = s.build_args("ff");
    assert_eq!(
        args[6..].to_vec(),
        strs(&["-x", "--audio-quality", "0", "-f", "bestaudio/best", "https://example.com/watch?v=abc"])
    );
}

#[test]
fn output_folder_and_template() {
    let mut s = settings();
    s.output_dir = "C:\\Videos\\//".to_string();
    s.filename_template = "  %(id)s.%(ext)s ".to_string();
    assert_eq!(s.build_args("ff")[5], "C:\\Videos/%(id)s.%(ext)s");
    s.filename_template = " \t ".to_string();
    assert_eq!(s.build_args("ff")[5], "C:\\Videos/%(title)s.%(ext)s");
}

#[test]
fn playlist_options() {
    let mut s = settings();
    s.playlist_mode = PlaylistMode::ForcePlaylist;
    s.playlist_items = " 1-10,15 ".to_string();
    let args = s.build_args("ff");
    assert_eq!(args[6..9].to_vec(), strs(&["--yes-playlist", "--playlist-items", "1-10,15"]));
    s.playlist_mode = PlaylistMode::SingleVideoOnly;
    s.playlist_items = String::new();
    let args = s.build_args("ff");
    assert_eq!(args[6], "--no-playlist");
    assert_eq!(args[7], "-f");
}

#[test]
fn embedding_subtitles_rate_and_extra() {
    let mut s = settings();
    s.embed_chapters = true;
    s.embed_subtitles = true;
    s.subtitle_language = "  ".to_string();
    s.rate_limit = " 2M ".to_string();
    s.extra_args = "  --no-part\t--retries  3 \n".to_string();
    s.url = "  https://example.com/v \n".to_string();
    let args = s.build_args("ff");
    assert_eq!(
        args[10..].to_vec(),
        strs(&[
            "--embed-thumbnail",
            "--embed-metadata",
            "--embed-chapters",
            "--embed-subs",
            "--sub-langs",
            "all",
            "-r",
            "2M",
            "--no-part",
            "--retries",
            "3",
            "https://example.com/v",
        ])
    );
    s.subtitle_language = " en,ru ".to_string();
    assert!(s.build_args("ff").contains(&"en,ru".to_string()));
}

#[test]
fn unicode_whitespace_is_trimmed() {
    let mut s = settings();
    s.url = "\u{3000}https://example.com/x\u{a0}".to_string();
    let args = s.build_args("ff");
    assert_eq!(args.last().unwrap(), "https://example.com/x");
}

#[test]
fn video_alternatives_always_carry_video() {
    for res in Resolution::ALL {
        for c in VideoContainer::ALL {
            for lang in ["", "ru"] {
                let mut s = settings();
                s.resolution = res;
                s.video_container = c;
                s.audio_language = lang.to_string();
                let args = s.build_args("ff");
                let alts: Vec<&str> = args[7].split('/').collect();
                for a in &alts {
                    assert!(!a.starts_with("bestaudio") && !a.starts_with("worstaudio"));
                    assert!(
                        *a == "best" || *a == "worst" || a.starts_with("best[")
                            || a.starts_with("bestvideo") || a.starts_with("worstvideo")
                    );
                }
                let last = *alts.last().unwrap();
                assert_eq!(last, if res == Resolution::Worst { "worst" } else { "best" });
                if !lang.is_empty() {
                    assert_eq!(alts[0], format!("{}[language={}]", alts[1], lang));
                }
                assert!(!args.iter().any(|a| a == "--remux-video"));
            }
        }
    }
}

#[test]
fn extra_args_stand_before_the_link() {
    let mut s = settings();
    s.extra_args = "  \t ".to_string();
    let blank = s.build_args("ff");
    let mut t = s.clone();
    t.extra_args = " --a  b ".to_string();
    let mut expected = blank[..blank.len() - 1].to_vec();
    expected.extend(strs(&["--a", "b", "https://example.com/watch?v=abc"]));
    assert_eq!(t.build_args("ff"), expected);
}

#[test]
fn language_is_only_a_preference() {
    let mut s = settings();
    s.resolution = Resolution::R480;
    let plain = s.build_args("ff")[7].clone();
    s.audio_language = "ja".to_string();
    let with_lang = s.build_args("ff")[7].clone();
    let alts: Vec<&str> = with_lang.split('/').collect();
    let kept: Vec<&str> = alts.iter().copied().filter(|a| !a.contains("[language=ja]")).collect();
    assert_eq!(kept, plain.split('/').collect::<Vec<_>>());
    for (k, a) in alts.iter().enumerate() {
        if a.contains("[language=ja]") {
            assert_eq!(a.replace("[language=ja]", ""), alts[k + 1]);
        }
    }
}
