//! What a yt-dlp download means: the command line it is given, what each
//! line it prints says, and how its exit is read.
use vstd::prelude::*;
use crate::parse::{destination, destination_of, percent_of, percent_text};
use crate::scan::{
    chars_of, contains, has_chars, has_prefix, push_text, same_text, starts_with, string_all,
    texts, trim, trim_chars,
};

verus! {

#[derive(Clone, Copy, PartialEq, Eq, Debug, Structural)]
pub enum Mode {
    Mp3,
    Video,
}

impl Mode {
    /// The names the HTML interface sends: `mp3` or `video`.
    pub fn from_name(name: &str) -> (r: Option<Mode>)
        ensures
            r == (if name@ == "mp3"@ {
                Some(Mode::Mp3)
            } else if name@ == "video"@ {
                Some(Mode::Video)
            } else {
                None
            }),
    {
        if same_text(name, "mp3") {
            Some(Mode::Mp3)
        } else if same_text(name, "video") {
            Some(Mode::Video)
        } else {
            None
        }
    }
}

#[derive(Clone, PartialEq, Debug)]
pub enum Outcome {
    Done,
    Failed(String),
}

impl View for Outcome {
    type V = Option<Seq<char>>;

    /// `None` for a finished download, the reason for a failed one.
    open spec fn view(&self) -> Option<Seq<char>> {
        match self {
            Outcome::Done => None,
            Outcome::Failed(m) => Some(m@),
        }
    }
}

/// The arguments yt-dlp is run with: ffmpeg's folder when it was found, the
/// format options of the mode, the output template, and the address last so
/// that it cannot be read as a flag.
pub open spec fn ytdlp_args(
    ffmpeg: Option<Seq<char>>,
    mode: Mode,
    output: Seq<char>,
    url: Seq<char>,
) -> Seq<Seq<char>> {
    let base = seq!["--newline"@, "--no-playlist"@, "--restrict-filenames"@];
    let with_ffmpeg = match ffmpeg {
        Some(dir) => base + seq!["--ffmpeg-location"@, dir],
        None => base,
    };
    let with_mode = match mode {
        Mode::Mp3 => with_ffmpeg + seq!["-x"@, "--audio-format"@, "mp3"@, "--audio-quality"@, "0"@],
        Mode::Video => with_ffmpeg + seq!["-f"@, "bv*+ba/b"@, "--merge-output-format"@, "mp4"@],
    };
    with_mode + seq!["-o"@, output, url]
}

/// The command line for one download. `output` is the output template: the
/// output folder joined with `%(title)s.%(ext)s`.
pub fn arguments(ffmpeg: Option<&str>, mode: Mode, output: &str, url: &str) -> (r: Vec<String>)
    ensures
        texts(r@) == ytdlp_args(
            match ffmpeg {
                Some(d) => Some(d@),
                None => None,
            },
            mode,
            output@,
            url@,
        ),
        texts(r@).last() == url@,
        texts(r@).len() >= 6,
        texts(r@)[texts(r@).len() - 3] == "-o"@,
        texts(r@)[texts(r@).len() - 2] == output@,
        ({
            let a = texts(r@);
            let k: int = if ffmpeg is Some { 5 } else { 3 };
            &&& a.subrange(0, 3) == seq!["--newline"@, "--no-playlist"@, "--restrict-filenames"@]
            &&& ffmpeg matches Some(d) ==> a[3] == "--ffmpeg-location"@ && a[4] == d@
            &&& mode == Mode::Mp3 ==> a.len() == k + 8 && a.subrange(k, k + 5) == seq![
                "-x"@,
                "--audio-format"@,
                "mp3"@,
                "--audio-quality"@,
                "0"@,
            ]
            &&& mode == Mode::Video ==> a.len() == k + 7 && a.subrange(k, k + 4) == seq![
                "-f"@,
                "bv*+ba/b"@,
                "--merge-output-format"@,
                "mp4"@,
            ]
        }),
{
    let mut r: Vec<String> = Vec::new();
    push_text(&mut r, "--newline");
    push_text(&mut r, "--no-playlist");
    push_text(&mut r, "--restrict-filenames");
    if let Some(dir) = ffmpeg {
        push_text(&mut r, "--ffmpeg-location");
        push_text(&mut r, dir);
    }
    match mode {
        Mode::Mp3 => {
            push_text(&mut r, "-x");
            push_text(&mut r, "--audio-format");
            push_text(&mut r, "mp3");
            push_text(&mut r, "--audio-quality");
            push_text(&mut r, "0");
        },
        Mode::Video => {
            push_text(&mut r, "-f");
            push_text(&mut r, "bv*+ba/b");
            push_text(&mut r, "--merge-output-format");
            push_text(&mut r, "mp4");
        },
    }
    push_text(&mut r, "-o");
    push_text(&mut r, output);
    push_text(&mut r, url);
    assert(texts(r@) =~= ytdlp_args(
        match ffmpeg {
            Some(d) => Some(d@),
            None => None,
        },
        mode,
        output@,
        url@,
    ));
    r
}

/// Whatever the mode and whether ffmpeg was found, the command line starts
/// with the fixed options, ends with the address, and hands the output
/// template to yt-dlp right after `-o`, just before the address.
pub proof fn output_goes_after_o_and_url_last(
    ffmpeg: Option<Seq<char>>,
    mode: Mode,
    output: Seq<char>,
    url: Seq<char>,
)
    ensures
        ({
            let a = ytdlp_args(ffmpeg, mode, output, url);
            &&& a.len() >= 6
            &&& a[0] == "--newline"@
            &&& a[1] == "--no-playlist"@
            &&& a[2] == "--restrict-filenames"@
            &&& a[a.len() - 3] == "-o"@
            &&& a[a.len() - 2] == output
            &&& a[a.len() - 1] == url
        }),
{
}

/// After the fixed options come ffmpeg's folder, when it was found, right
/// after `--ffmpeg-location`; then the options of the mode: for mp3, audio
/// extraction to mp3 at the best quality; for video, the best video and
/// audio merged into mp4. Nothing else stands between them and `-o`.
pub proof fn mode_options_follow_the_fixed_ones(
    ffmpeg: Option<Seq<char>>,
    mode: Mode,
    output: Seq<char>,
    url: Seq<char>,
)
    ensures
        ({
            let a = ytdlp_args(ffmpeg, mode, output, url);
            let k: int = if ffmpeg is Some { 5 } else { 3 };
            &&& ffmpeg matches Some(d) ==> a[3] == "--ffmpeg-location"@ && a[4] == d
            &&& mode == Mode::Mp3 ==> a.len() == k + 8 && a.subrange(k, k + 5) == seq![
                "-x"@,
                "--audio-format"@,
                "mp3"@,
                "--audio-quality"@,
                "0"@,
            ]
            &&& mode == Mode::Video ==> a.len() == k + 7 && a.subrange(k, k + 4) == seq![
                "-f"@,
                "bv*+ba/b"@,
                "--merge-output-format"@,
                "mp4"@,
            ]
        }),
{
    let a = ytdlp_args(ffmpeg, mode, output, url);
    let k: int = if ffmpeg is Some { 5 } else { 3 };
    if mode == Mode::Mp3 {
        assert(a.subrange(k, k + 5) =~= seq![
            "-x"@,
            "--audio-format"@,
            "mp3"@,
            "--audio-quality"@,
            "0"@,
        ]);
    } else {
        assert(a.subrange(k, k + 4) =~= seq!["-f"@, "bv*+ba/b"@, "--merge-output-format"@, "mp4"@]);
    }
}

/// What one line of yt-dlp output means for the interface.
#[derive(Clone, PartialEq, Debug)]
pub struct Reading {
    /// The percentage as printed (`42.3`), when the line carries one.
    pub percent: Option<String>,
    /// The file name, once yt-dlp has decided it.
    pub title: Option<String>,
    /// What to show under the progress bar.
    pub line: String,
    /// ffmpeg is at work: yt-dlp reports nothing meanwhile, so the bar
    /// stands just short of full rather than at 100% looking finished.
    pub finishing: bool,
}

pub open spec fn opt_view(o: Option<String>) -> Option<Seq<char>> {
    match o {
        Some(s) => Some(s@),
        None => None,
    }
}

impl View for Reading {
    type V = (Option<Seq<char>>, Option<Seq<char>>, Seq<char>, bool);

    open spec fn view(&self) -> (Option<Seq<char>>, Option<Seq<char>>, Seq<char>, bool) {
        (opt_view(self.percent), opt_view(self.title), self.line@, self.finishing)
    }
}

/// What a raw line of yt-dlp output says. Blank lines say nothing.
pub open spec fn reading_of(raw: Seq<char>) -> Option<
    (Option<Seq<char>>, Option<Seq<char>>, Seq<char>, bool),
> {
    let line = trim(raw);
    if line.len() == 0 {
        None
    } else {
        let finishing = starts_with(line, "[ExtractAudio]"@) || contains(line, "Merging formats"@);
        Some(
            (
                if finishing {
                    None
                } else {
                    percent_of(line)
                },
                destination_of(line),
                if finishing {
                    "Processing with ffmpeg"@
                } else {
                    line
                },
                finishing,
            ),
        )
    }
}

/// Reads a line of yt-dlp output. Blank lines mean nothing.
pub fn interpret_line(raw: &str) -> (r: Option<Reading>)
    ensures
        match r {
            Some(reading) => reading_of(raw@) == Some(reading@),
            None => reading_of(raw@) is None,
        },
{
    let t = trim_chars(&chars_of(raw));
    if t.len() == 0 {
        return None;
    }
    let line = string_all(&t);
    let finishing = has_prefix(&t, &chars_of("[ExtractAudio]")) || has_chars(
        &t,
        &chars_of("Merging formats"),
    );
    let percent = if finishing {
        None
    } else {
        percent_text(line.as_str())
    };
    let title = destination(line.as_str());
    let shown = if finishing {
        String::from_str("Processing with ffmpeg")
    } else {
        line
    };
    Some(Reading { percent, title, line: shown, finishing })
}

/// How a download ended, from whether yt-dlp succeeded and the last thing
/// it wrote to its error stream.
pub open spec fn ending(success: bool, last_error: Seq<char>) -> Option<Seq<char>> {
    if success {
        None
    } else if last_error.len() == 0 {
        Some("yt-dlp failed"@)
    } else {
        Some(last_error)
    }
}

/// How a download ended: the last thing yt-dlp wrote to stderr is the reason
/// it failed.
pub fn finish(success: bool, last_error: &str) -> (r: Outcome)
    ensures
        r@ == ending(success, last_error@),
{
    if success {
        Outcome::Done
    } else if chars_of(last_error).len() == 0 {
        Outcome::Failed(String::from_str("yt-dlp failed"))
    } else {
        Outcome::Failed(String::from_str(last_error))
    }
}

} // verus!
