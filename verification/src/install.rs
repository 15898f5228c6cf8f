//! The two tools the application drives, and the winget packages they come in.
use vstd::prelude::*;
use crate::scan::same_text;

verus! {

#[derive(Clone, Copy, PartialEq, Eq, Debug, Structural)]
pub enum Dep {
    Yt,
    Ff,
}

impl Dep {
    /// The winget package that provides the tool.
    pub fn id(self) -> (r: &'static str)
        ensures
            r@ == match self {
                Dep::Yt => "yt-dlp.yt-dlp"@,
                Dep::Ff => "Gyan.FFmpeg"@,
            },
    {
        match self {
            Dep::Yt => "yt-dlp.yt-dlp",
            Dep::Ff => "Gyan.FFmpeg",
        }
    }

    /// The tool's name as shown.
    pub fn name(self) -> (r: &'static str)
        ensures
            r@ == match self {
                Dep::Yt => "yt-dlp"@,
                Dep::Ff => "ffmpeg"@,
            },
    {
        match self {
            Dep::Yt => "yt-dlp",
            Dep::Ff => "ffmpeg",
        }
    }

    /// What the tool is for.
    pub fn what(self) -> (r: &'static str)
        ensures
            r@ == match self {
                Dep::Yt => "does the downloading"@,
                Dep::Ff => "extracts MP3, merges video"@,
            },
    {
        match self {
            Dep::Yt => "does the downloading",
            Dep::Ff => "extracts MP3, merges video",
        }
    }
}

/// The winget package for a tool named by the HTML interface: `ytdlp` or `ffmpeg`.
pub fn winget_id(dep: &str) -> (r: Option<&'static str>)
    ensures
        match r {
            Some(id) => (dep@ == "ytdlp"@ && id@ == "yt-dlp.yt-dlp"@) || (dep@ != "ytdlp"@ && dep@
                == "ffmpeg"@ && id@ == "Gyan.FFmpeg"@),
            None => dep@ != "ytdlp"@ && dep@ != "ffmpeg"@,
        },
{
    if same_text(dep, "ytdlp") {
        Some("yt-dlp.yt-dlp")
    } else if same_text(dep, "ffmpeg") {
        Some("Gyan.FFmpeg")
    } else {
        None
    }
}

/// The button a tool's row offers when nothing is running, as label and
/// winget action: after a failure `Retry`, else `Update` for an installed
/// tool and `Install` for a missing one.
pub fn offer(failed: bool, installed: bool) -> (r: (&'static str, &'static str))
    ensures
        r.0@ == (if failed {
            "Retry"@
        } else if installed {
            "Update"@
        } else {
            "Install"@
        }),
        r.1@ == (if installed {
            "upgrade"@
        } else {
            "install"@
        }),
{
    match (failed, installed) {
        (true, true) => ("Retry", "upgrade"),
        (true, false) => ("Retry", "install"),
        (false, true) => ("Update", "upgrade"),
        (false, false) => ("Install", "install"),
    }
}

/// What the status line says of a tool.
pub open spec fn mark_of(found: bool, name: Seq<char>, version: Seq<char>) -> Seq<char> {
    if !found {
        name + " missing"@
    } else if version.len() == 0 {
        name + " ready"@
    } else {
        name + " "@ + version
    }
}

/// The status line's text for a tool: missing, ready, or its version.
pub fn mark(found: bool, name: &str, version: &str) -> (r: String)
    ensures
        r@ == mark_of(found, name@, version@),
{
    let mut r = String::from_str(name);
    if !found {
        r.append(" missing");
    } else if crate::scan::chars_of(version).len() == 0 {
        r.append(" ready");
    } else {
        r.append(" ");
        r.append(version);
    }
    r
}

/// The two tools go by different packages and different names.
pub proof fn tools_are_told_apart()
    ensures
        "yt-dlp.yt-dlp"@ != "Gyan.FFmpeg"@,
        "yt-dlp"@ != "ffmpeg"@,
{
    reveal_strlit("yt-dlp.yt-dlp");
    reveal_strlit("Gyan.FFmpeg");
    reveal_strlit("yt-dlp");
    reveal_strlit("ffmpeg");
    assert("yt-dlp.yt-dlp"@[0] != "Gyan.FFmpeg"@[0]);
    assert("yt-dlp"@[0] != "ffmpeg"@[0]);
}

} // verus!
