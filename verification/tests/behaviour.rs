use snag_core::install::Dep;
use snag_core::parse;
use snag_core::text;
use snag_core::tools;
use snag_core::update;
use snag_core::version;
use snag_core::winget::{classify, Outcome};
use snag_core::ytdlp;

#[test]
fn a_clean_exit_means_it_installed() {
    assert_eq!(classify(Some(0), true, ""), Outcome::Done);
}

#[test]
fn winget_code_43_also_means_installed() {
    assert_eq!(classify(Some(43), false, ""), Outcome::Done);
}

#[test]
fn nothing_to_upgrade_is_not_a_failure() {
    assert_eq!(
        classify(Some(0x8A15_002B), false, ""),
        Outcome::AlreadyCurrent
    );
    assert_eq!(
        classify(Some(1), false, "No applicable upgrade found"),
        Outcome::AlreadyCurrent
    );
}

#[test]
fn a_tool_installed_outside_winget_is_reported_as_such() {
    assert_eq!(classify(Some(0x8A15_0014), false, ""), Outcome::NotManaged);
}

#[test]
fn a_real_failure_carries_the_last_line_winget_printed() {
    let out = classify(Some(1), false, "Installer hash does not match");
    assert_eq!(
        out,
        Outcome::Failed("Installer hash does not match".to_string())
    );
}

#[test]
fn a_silent_failure_still_says_something() {
    assert_eq!(
        classify(Some(1), false, ""),
        Outcome::Failed("winget could not install it".to_string())
    );
}

#[test]
fn versions_ignore_the_v_prefix() {
    assert_eq!(version::number("v1.2.3"), (1, 2, 3));
    assert_eq!(version::number("1.2.3"), (1, 2, 3));
}

#[test]
fn missing_version_parts_count_as_zero() {
    assert_eq!(version::number("2"), (2, 0, 0));
    assert_eq!(version::number(""), (0, 0, 0));
}

#[test]
fn date_style_tags_compare_in_order() {
    assert!(version::newer("2026.08.19", "2026.08.18"));
    assert!(!version::newer("2026.08.19", "2026.08.19"));
}

#[test]
fn a_release_is_only_newer_when_it_really_is() {
    assert!(version::newer("1.0.1", "1.0.0"));
    assert!(!version::newer("1.0.0", "1.0.1"));
    assert!(!version::newer("1.0.0", "1.0.0"));
}

#[test]
fn download_percentage_comes_out_of_the_line() {
    let pct = |line: &str| parse::percent_text(line).and_then(|t| t.parse::<f32>().ok());
    assert_eq!(pct("[download]  42.3% of 10MiB"), Some(42.3));
    assert_eq!(pct("[download] 100% of 10MiB"), Some(100.0));
}

#[test]
fn other_lines_have_no_percentage() {
    let pct = |line: &str| parse::percent_text(line).and_then(|t| t.parse::<f32>().ok());
    assert_eq!(pct("[info] Writing thumbnail"), None);
    assert_eq!(pct(""), None);
}

#[test]
fn the_destination_keeps_spaces_and_drops_the_extension() {
    let line = r"[download] Destination: C:\Users\me\Downloads\My Song.mp3";
    assert_eq!(parse::destination(line).as_deref(), Some("My Song"));
}

fn share(text: &str) -> Option<f32> {
    let (done, total) = parse::share_text(text)?;
    let done = done.parse::<f32>().ok()?;
    let total = total.parse::<f32>().ok()?;
    if total <= 0.0 {
        return None;
    }
    Some((done / total).clamp(0.0, 1.0))
}

#[test]
fn share_turns_two_sizes_into_a_fraction() {
    assert_eq!(share("5.00 MB / 10.00 MB"), Some(0.5));
    assert_eq!(share("10.00 MB / 10.00 MB"), Some(1.0));
}

#[test]
fn share_refuses_nonsense() {
    assert_eq!(share("0 MB / 0 MB"), None);
    assert_eq!(share("Successfully installed"), None);
}

#[test]
fn noise_from_winget_is_removed() {
    assert_eq!(
        parse::strip_noise("  ██████  1.5 MB / 3 MB  "),
        "1.5 MB / 3 MB"
    );
    assert_eq!(parse::strip_noise("\u{1b}[32mdone\u{1b}[0m"), "done");
}

#[test]
fn shortening_never_splits_a_character() {
    let text = "cancion con acentos áéíóú";
    let cut = text::shorten(text, 10);
    assert!(cut.chars().count() <= 10);
    assert!(cut.ends_with('…'));
}

#[test]
fn tail_keeps_the_end_of_a_path() {
    let path = r"C:\Users\someone\Downloads\yt-dlp";
    let cut = text::tail(path, 16);
    assert!(cut.starts_with('…'));
    assert!(cut.ends_with("yt-dlp"));
}

#[test]
fn short_text_is_left_alone() {
    assert_eq!(text::shorten("abc", 10), "abc");
    assert_eq!(text::tail("abc", 10), "abc");
}

#[test]
fn the_ffmpeg_banner_reduces_to_a_number() {
    let line = "ffmpeg version 9.0.2-full_build-www.gyan.dev Copyright (c) 2000-2026";
    assert_eq!(tools::short_ffmpeg_version(line), "9.0.2");
}

#[test]
fn a_git_built_ffmpeg_keeps_something_readable() {
    let line = "ffmpeg version N-125875-g5d4d3bdc61-win64-gpl";
    let short = tools::short_ffmpeg_version(line);
    assert!(!short.is_empty());
    assert!(short.chars().count() <= 18);
}

#[test]
fn a_release_field_comes_out_of_the_json() {
    let body = r#"{"url": "x", "html_url": "https://github.com/o/r/releases/tag/v1.2.0", "id": 7, "tag_name":"v1.2.0"}"#;
    assert_eq!(
        update::json_string(body, "tag_name").as_deref(),
        Some("v1.2.0")
    );
    assert_eq!(
        update::json_string(body, "html_url").as_deref(),
        Some("https://github.com/o/r/releases/tag/v1.2.0")
    );
    assert_eq!(update::json_string(body, "missing"), None);
}

#[test]
fn a_release_without_a_page_still_points_somewhere() {
    let release = update::parse_release(r#"{"tag_name": "v2.0.0"}"#).unwrap();
    assert_eq!(release.tag, "v2.0.0");
    assert!(release.page.starts_with("https://github.com/"));
}

#[test]
fn an_empty_or_missing_tag_is_not_a_release() {
    assert_eq!(update::parse_release(r#"{"tag_name": ""}"#), None);
    assert_eq!(update::parse_release(r#"{"message": "Not Found"}"#), None);
}

fn fraction(reading: &ytdlp::Reading) -> Option<f32> {
    if reading.finishing {
        return Some(0.99);
    }
    reading
        .percent
        .as_deref()
        .and_then(|t| t.parse::<f32>().ok())
        .map(|p| p / 100.0)
}

#[test]
fn a_download_line_reports_its_progress_as_a_fraction() {
    let event = ytdlp::interpret_line("[download]  42.5% of 10MiB").unwrap();
    assert_eq!(fraction(&event), Some(0.425));
    assert_eq!(event.title, None);
}

#[test]
fn the_destination_line_names_the_job() {
    let event = ytdlp::interpret_line(r"[download] Destination: C:\out\My Song.webm").unwrap();
    assert_eq!(event.title.as_deref(), Some("My Song"));
    assert_eq!(fraction(&event), None);
}

#[test]
fn ffmpeg_work_is_shown_as_almost_done() {
    for line in [
        r"[ExtractAudio] Destination: C:\out\a.mp3",
        r#"[Merger] Merging formats into "C:\out\a.mp4""#,
    ] {
        let event = ytdlp::interpret_line(line).unwrap();
        assert_eq!(fraction(&event), Some(0.99));
        assert_eq!(event.line, "Processing with ffmpeg");
    }
}

#[test]
fn blank_output_is_ignored() {
    assert_eq!(ytdlp::interpret_line("   "), None);
}

#[test]
fn the_mode_names_from_the_interface_are_recognised() {
    assert_eq!(ytdlp::Mode::from_name("mp3"), Some(ytdlp::Mode::Mp3));
    assert_eq!(ytdlp::Mode::from_name("video"), Some(ytdlp::Mode::Video));
    assert_eq!(ytdlp::Mode::from_name("flac"), None);
}

fn args_of(ffmpeg: Option<&str>, mode: ytdlp::Mode) -> Vec<String> {
    ytdlp::arguments(ffmpeg, mode, r"C:\out\%(title)s.%(ext)s", "https://x")
}

#[test]
fn mp3_mode_extracts_audio_and_video_mode_merges_to_mp4() {
    let mp3 = args_of(None, ytdlp::Mode::Mp3);
    assert!(mp3.windows(3).any(|w| w == ["-x", "--audio-format", "mp3"]));
    assert!(!mp3.contains(&"--merge-output-format".to_string()));

    let video = args_of(None, ytdlp::Mode::Video);
    assert!(video
        .windows(2)
        .any(|w| w == ["--merge-output-format", "mp4"]));
    assert!(!video.contains(&"-x".to_string()));
}

#[test]
fn ffmpeg_is_only_pointed_at_when_it_was_found() {
    let without = args_of(None, ytdlp::Mode::Mp3);
    assert!(!without.contains(&"--ffmpeg-location".to_string()));

    let with = args_of(Some(r"C:\ff\bin"), ytdlp::Mode::Mp3);
    assert!(with
        .windows(2)
        .any(|w| w == ["--ffmpeg-location", r"C:\ff\bin"]));
}

#[test]
fn the_url_is_the_last_argument_so_it_cannot_be_read_as_a_flag() {
    let args = args_of(None, ytdlp::Mode::Video);
    assert_eq!(args.last().map(String::as_str), Some("https://x"));
    assert!(args.contains(&"--no-playlist".to_string()));
}

#[test]
fn each_tool_has_its_package() {
    assert_eq!(Dep::Yt.id(), "yt-dlp.yt-dlp");
    assert_eq!(Dep::Ff.id(), "Gyan.FFmpeg");
}
