use snag_core::download::link;
use snag_core::install::{mark, offer, winget_id, Dep};
use snag_core::parse::{destination, percent_text, share_text, strip_noise};
use snag_core::settings::stored_value;
use snag_core::text::{shorten, tail};
use snag_core::tools::{ffmpeg_package, short_ffmpeg_version, version_line, ytdlp_package};
use snag_core::update::{
    json_string, latest_release_api, may_open, newer_release, parse_release, Release,
};
use snag_core::version::{newer, number};
use snag_core::winget::{self, classify, report, stage_name, track, Outcome, Stage};
use snag_core::ytdlp::{finish, interpret_line, Outcome as Download};

#[test]
fn cuts_at_zero_and_one_still_leave_a_mark() {
    assert_eq!(shorten("abcdef", 0), "…");
    assert_eq!(shorten("abcdef", 1), "…");
    assert_eq!(shorten("abcdef", 3), "ab…");
    assert_eq!(shorten("abcdef", 6), "abcdef");
    assert_eq!(tail("abcdef", 0), "…");
    assert_eq!(tail("abcdef", 1), "…");
    assert_eq!(tail("abcdef", 3), "…ef");
    assert_eq!(tail("", 0), "");
}

#[test]
fn cut_text_never_exceeds_the_limit() {
    for max in 1..30 {
        let text = "ñandú en la montaña, ¿por qué no?";
        assert!(shorten(text, max).chars().count() <= max);
        assert!(tail(text, max).chars().count() <= max);
    }
}

#[test]
fn version_numbers_in_odd_shapes() {
    assert_eq!(number("  V2.10.7-beta "), (2, 10, 7));
    assert_eq!(number("vv3"), (3, 0, 0));
    assert_eq!(number("4294967295"), (4294967295, 0, 0));
    assert_eq!(number("4294967296.1"), (0, 1, 0));
    assert_eq!(number("1..3"), (1, 0, 3));
    assert_eq!(number("x1.2"), (0, 2, 0));
    assert_eq!(number("1.2.3.4"), (1, 2, 3));
}

#[test]
fn newer_is_a_strict_order_on_examples() {
    let tags = ["v2", "1.9.9", "1.2", "1.2.0", "2026.08.19", "", "v0.0.1"];
    for a in tags {
        assert!(!newer(a, a));
        for b in tags {
            assert!(!(newer(a, b) && newer(b, a)));
            for c in tags {
                if newer(a, b) && newer(b, c) {
                    assert!(newer(a, c));
                }
            }
        }
    }
    assert!(newer("v2", "1.9.9"));
    assert!(!newer("1.2", "1.2.0"));
}

#[test]
fn a_leading_v_changes_nothing() {
    for tag in ["1.2.3", "2026.08.19", "", "7", "V3.1"] {
        assert_eq!(number(&format!("v{tag}")), number(tag));
    }
}

#[test]
fn escapes_and_bars_are_dropped() {
    assert_eq!(strip_noise("\u{1b}[1;32"), "");
    assert_eq!(strip_noise("a▓b░c"), "abc");
    assert_eq!(strip_noise("\u{1b}"), "");
    assert_eq!(strip_noise("  x \u{1b}[K "), "x");
}

#[test]
fn cleaning_twice_is_cleaning_once() {
    for raw in ["  ██ 1 MB / 2 MB ", "\u{1b}[32mok\u{1b}[0m  ", "■ plain ▒", ""] {
        let once = strip_noise(raw);
        assert_eq!(strip_noise(&once), once);
    }
}

#[test]
fn destinations_follow_windows_paths() {
    let d = |p: &str| destination(&format!("[download] Destination: {p}"));
    assert_eq!(d(r"C:\a\song").as_deref(), Some("song"));
    assert_eq!(d("/tmp/.hidden").as_deref(), Some(".hidden"));
    assert_eq!(d("a/b.tar.gz").as_deref(), Some("b.tar"));
    assert_eq!(d(r"C:\dir\.."), None);
    assert_eq!(d(" x/ ").as_deref(), Some("x"));
    assert_eq!(d("C:"), None);
    assert_eq!(d("C:song.mp3").as_deref(), Some("song"));
    assert_eq!(d("a/./").as_deref(), Some("a"));
    assert_eq!(destination("[download] 5% of 3MiB"), None);
}

#[test]
fn a_destination_is_never_a_path() {
    for p in [r"C:\a\b\c.mp3", "x/y/z", "name", "..."] {
        let n = destination(&format!("Destination: {p}")).unwrap();
        assert!(!n.is_empty());
        assert!(!n.contains('\\') && !n.contains('/'));
    }
}

#[test]
fn percent_and_share_texts() {
    assert_eq!(percent_text("[download]   7% of 1MiB").as_deref(), Some("7"));
    assert_eq!(percent_text("[download] no percent"), None);
    assert_eq!(percent_text(" [download] 5%"), None);
    assert_eq!(
        share_text("1.5 MB / 3 MB"),
        Some(("1.5".to_string(), "3".to_string()))
    );
    assert_eq!(
        share_text("3B / 6KB"),
        Some(("3".to_string(), "6".to_string()))
    );
    assert_eq!(share_text(" / 3 MB"), None);
    assert_eq!(share_text("a / "), None);
}

#[test]
fn banners_and_first_lines() {
    assert_eq!(short_ffmpeg_version(""), "");
    assert_eq!(short_ffmpeg_version("ffmpeg version"), "ffmpeg");
    assert_eq!(short_ffmpeg_version("7.1"), "7.1");
    assert_eq!(version_line("yt-dlp 2024.1\r\nmore").as_deref(), Some("yt-dlp 2024.1"));
    assert_eq!(version_line("\n\nx"), None);
    assert_eq!(version_line(""), None);
}

#[test]
fn package_folders_are_recognised() {
    assert!(ytdlp_package("yt-dlp.yt-dlp_Microsoft.Winget.Source_8wekyb3d8bbwe"));
    assert!(!ytdlp_package("yt-dlp"));
    assert!(ffmpeg_package("Gyan.FFmpeg_Microsoft.Winget.Source_8wekyb3d8bbwe"));
    assert!(!ffmpeg_package("ffmpeg"));
}

#[test]
fn json_values_in_several_layouts() {
    assert_eq!(json_string(r#"{"a" :  "x y"}"#, "a").as_deref(), Some("x y"));
    assert_eq!(json_string(r#"{"a": 5}"#, "a"), None);
    assert_eq!(json_string(r#"{"a": "unterminated"#, "a"), None);
    assert_eq!(json_string(r#""a""#, "a"), None);
    assert_eq!(json_string(r#"{"b":"a","a":"z"}"#, "a").as_deref(), Some("z"));
}

#[test]
fn a_written_field_is_read_back() {
    for (key, value) in [("tag_name", "v9"), ("k", ""), ("html_url", "https://x/y")] {
        let body = format!("\"{key}\":\"{value}\",\"other\":\"1\"}}");
        assert_eq!(json_string(&body, key).as_deref(), Some(value));
    }
}

#[test]
fn a_release_with_a_page_keeps_it() {
    assert_eq!(
        parse_release(r#"{"tag_name":"v1","html_url":"https://x"}"#),
        Some(Release {
            tag: "v1".to_string(),
            page: "https://x".to_string()
        })
    );
    assert_eq!(
        parse_release(r#"{"tag_name":"v1"}"#).unwrap().page,
        "https://github.com/sebastian642431/snag-app/releases/latest"
    );
}

#[test]
fn only_github_pages_are_opened() {
    assert!(may_open("https://github.com/x"));
    assert!(!may_open("http://github.com/"));
    assert!(!may_open("https://github.com.evil.com/"));
    assert_eq!(
        latest_release_api(),
        "https://api.github.com/repos/sebastian642431/snag-app/releases/latest"
    );
}

#[test]
fn what_winget_runs_mean() {
    assert_eq!(classify(Some(0x8A15_0014), true, ""), Outcome::Done);
    assert_eq!(
        classify(Some(1), false, "No newer package versions are available"),
        Outcome::AlreadyCurrent
    );
    assert_eq!(
        classify(Some(0), true, "no applicable upgrade"),
        Outcome::AlreadyCurrent
    );
    assert_eq!(
        classify(Some(1), false, "NO INSTALLED PACKAGE found"),
        Outcome::NotManaged
    );
    let long = "x".repeat(60);
    match classify(None, false, &long) {
        Outcome::Failed(m) => {
            assert_eq!(m.chars().count(), 44);
            assert!(m.ends_with('…'));
        }
        other => panic!("{other:?}"),
    }
}

#[test]
fn a_failure_message_is_never_empty_or_long() {
    for msg in ["", "x", &"y".repeat(100)] {
        if let Outcome::Failed(m) = classify(Some(7), false, msg) {
            assert!(!m.is_empty() && m.chars().count() <= 44);
        }
    }
}

#[test]
fn winget_command_lines() {
    let install = winget::arguments("yt-dlp.yt-dlp", "install");
    assert_eq!(
        install,
        [
            "install",
            "--id",
            "yt-dlp.yt-dlp",
            "-e",
            "--accept-source-agreements",
            "--accept-package-agreements",
            "--disable-interactivity"
        ]
    );
    let upgrade = winget::arguments("Gyan.FFmpeg", "upgrade");
    assert_eq!(upgrade.len(), 8);
    assert_eq!(upgrade[0], "upgrade");
    assert_eq!(upgrade[7], "--include-unknown");
}

#[test]
fn lines_move_the_stage_on() {
    assert_eq!(track(Stage::Starting, "abcd", false), (Stage::Starting, true));
    assert_eq!(track(Stage::Downloading, "abcd", false), (Stage::Installing, true));
    assert_eq!(track(Stage::Downloading, "abc", false), (Stage::Downloading, false));
    assert_eq!(track(Stage::Installing, "x", true), (Stage::Downloading, false));
    assert_eq!(stage_name(Stage::Starting), "starting");
    assert_eq!(stage_name(Stage::Downloading), "downloading");
    assert_eq!(stage_name(Stage::Installing), "installing");
}

#[test]
fn runs_are_reported_to_the_user() {
    assert_eq!(
        report(&Outcome::AlreadyCurrent, "upgrade"),
        Ok("Already up to date".to_string())
    );
    assert_eq!(report(&Outcome::Done, "upgrade"), Ok("Updated".to_string()));
    assert_eq!(report(&Outcome::Done, "install"), Ok(String::new()));
    assert_eq!(
        report(&Outcome::NotManaged, "upgrade"),
        Err("not installed through winget".to_string())
    );
    assert_eq!(
        report(&Outcome::Failed("boom".to_string()), "install"),
        Err("boom".to_string())
    );
}

#[test]
fn tools_and_their_packages() {
    assert_eq!(Dep::Yt.name(), "yt-dlp");
    assert_eq!(Dep::Ff.name(), "ffmpeg");
    assert_eq!(Dep::Yt.what(), "does the downloading");
    assert_eq!(Dep::Ff.what(), "extracts MP3, merges video");
    assert_eq!(winget_id("ytdlp"), Some("yt-dlp.yt-dlp"));
    assert_eq!(winget_id("ffmpeg"), Some("Gyan.FFmpeg"));
    assert_eq!(winget_id("flac"), None);
}

#[test]
fn downloads_end_with_a_reason() {
    assert_eq!(finish(true, "x"), Download::Done);
    assert_eq!(finish(false, ""), Download::Failed("yt-dlp failed".to_string()));
    assert_eq!(
        finish(false, "ERROR: x"),
        Download::Failed("ERROR: x".to_string())
    );
}

#[test]
fn readings_of_yt_dlp_lines() {
    let r = interpret_line("  [download]  3.5% of 2MiB ").unwrap();
    assert_eq!(r.percent.as_deref(), Some("3.5"));
    assert_eq!(r.line, "[download]  3.5% of 2MiB");
    assert!(!r.finishing);
}

#[test]
fn settings_are_read_trimmed() {
    assert_eq!(stored_value("  C:\\out \n").as_deref(), Some("C:\\out"));
    assert_eq!(stored_value("  "), None);
}

#[test]
fn only_links_are_downloaded() {
    assert_eq!(link("  https://x/y  ").as_deref(), Some("https://x/y"));
    assert_eq!(link("ftp://x"), None);
    assert_eq!(link("   "), None);
}

#[test]
fn tool_rows_offer_the_right_action() {
    assert_eq!(offer(true, true), ("Retry", "upgrade"));
    assert_eq!(offer(true, false), ("Retry", "install"));
    assert_eq!(offer(false, true), ("Update", "upgrade"));
    assert_eq!(offer(false, false), ("Install", "install"));
    assert_eq!(mark(false, "yt-dlp", "2024.1"), "yt-dlp missing");
    assert_eq!(mark(true, "yt-dlp", ""), "yt-dlp ready");
    assert_eq!(mark(true, "ffmpeg", "7.1"), "ffmpeg 7.1");
}

#[test]
fn only_newer_releases_are_offered() {
    let r = Release {
        tag: "v1.0.1".to_string(),
        page: "https://github.com/o/r".to_string(),
    };
    assert_eq!(newer_release(r.clone(), "1.0.0"), Some(r.clone()));
    assert_eq!(newer_release(r, "1.0.1"), None);
}

#[test]
fn a_path_that_is_only_a_prefix_names_nothing() {
    let d = |p: &str| destination(&format!("Destination: {p}"));
    assert_eq!(d(r"\\server\share"), None);
    assert_eq!(d(r"\\server\share\"), None);
    assert_eq!(d("//server/share"), None);
    assert_eq!(d(r"\\server\share\x.mp3").as_deref(), Some("x"));
    assert_eq!(d(r"\\server").as_deref(), Some("server"));
    assert_eq!(d(r"\\?\C:"), None);
    assert_eq!(d(r"\\?\UNC\srv\sh"), None);
    assert_eq!(d(r"\\.\COM1"), None);
    assert_eq!(d(r"\\?\C:\a\b.mp3").as_deref(), Some("b"));
    assert_eq!(d(r"\\?\C:\a\."), None);
    assert_eq!(d(r"\\?\C:\dir\x/y.mp3").as_deref(), Some("x/y"));
}
