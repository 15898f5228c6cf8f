//! What a winget run means: the command line it is given, how its output
//! moves the progress on, and how its exit is read.
use vstd::prelude::*;
use crate::scan::{chars_of, contains, has_chars, push_text, same_text, texts};
use crate::text::{shorten, shortened};

verus! {

/// winget's code for "no applicable upgrade".
pub const NO_UPGRADE: u32 = 0x8A15_002B;

/// winget's code for "no installed package found".
pub const NOT_INSTALLED: u32 = 0x8A15_0014;

/// The exit code winget gives when the package was already installed.
pub const ALREADY_INSTALLED: u32 = 43;

#[derive(Clone, Copy, PartialEq, Eq, Debug, Structural)]
pub enum Stage {
    Starting,
    Downloading,
    Installing,
}

#[derive(Clone, PartialEq, Debug)]
pub enum Outcome {
    /// Installed or upgraded.
    Done,
    /// Already at the newest version winget knows about.
    AlreadyCurrent,
    /// Present on the machine, but not through winget, so it cannot upgrade it.
    NotManaged,
    Failed(String),
}

/// What an [`Outcome`] says, with the failure message as text.
pub enum Meaning {
    Done,
    AlreadyCurrent,
    NotManaged,
    Failed(Seq<char>),
}

impl View for Outcome {
    type V = Meaning;

    open spec fn view(&self) -> Meaning {
        match self {
            Outcome::Done => Meaning::Done,
            Outcome::AlreadyCurrent => Meaning::AlreadyCurrent,
            Outcome::NotManaged => Meaning::NotManaged,
            Outcome::Failed(m) => Meaning::Failed(m@),
        }
    }
}

/// The message given when winget failed without saying why.
pub open spec fn silent_failure() -> Seq<char> {
    "winget could not install it"@
}

/// What a finished run meant, from its exit code, whether it succeeded, its
/// last message, and that message in lower case.
pub open spec fn meaning(code: Option<u32>, success: bool, lower: Seq<char>, message: Seq<char>) -> Meaning {
    if code == Some(NO_UPGRADE) || contains(lower, "no applicable upgrade"@) || contains(
        lower,
        "no available upgrade"@,
    ) || contains(lower, "no newer package"@) {
        Meaning::AlreadyCurrent
    } else if success || code == Some(ALREADY_INSTALLED) {
        Meaning::Done
    } else if code == Some(NOT_INSTALLED) || contains(lower, "no installed package"@) {
        Meaning::NotManaged
    } else {
        Meaning::Failed(
            if message.len() == 0 {
                silent_failure()
            } else {
                shortened(message, 44)
            },
        )
    }
}

/// Names what `str::to_lowercase` gives for a text: its lower-case form by
/// Unicode's `Lowercase` property.
pub uninterp spec fn lowercase(s: Seq<char>) -> Seq<char>;

/// Calls `str::to_lowercase`. Claimed: the result is the name `lowercase`
/// applied to the text; nothing else is said of it.
#[verifier::external_body]
fn to_lower(s: &str) -> (r: String)
    ensures
        r@ == lowercase(s@),
{
    s.to_lowercase()
}

/// Decides what a finished winget run meant, given its last message both as
/// printed and in lower case.
pub fn judge(code: Option<u32>, success: bool, lower: &str, last_message: &str) -> (r: Outcome)
    ensures
        r@ == meaning(code, success, lower@, last_message@),
        contains(lower@, "no applicable upgrade"@) ==> r is AlreadyCurrent,
        contains(lower@, "no available upgrade"@) ==> r is AlreadyCurrent,
        contains(lower@, "no newer package"@) ==> r is AlreadyCurrent,
{
    let l = chars_of(lower);
    let no_upgrade = code == Some(NO_UPGRADE) || has_chars(&l, &chars_of("no applicable upgrade"))
        || has_chars(&l, &chars_of("no available upgrade")) || has_chars(
        &l,
        &chars_of("no newer package"),
    );
    if no_upgrade {
        return Outcome::AlreadyCurrent;
    }
    if success || code == Some(ALREADY_INSTALLED) {
        return Outcome::Done;
    }
    if code == Some(NOT_INSTALLED) || has_chars(&l, &chars_of("no installed package")) {
        return Outcome::NotManaged;
    }
    let m = chars_of(last_message);
    if m.len() == 0 {
        Outcome::Failed(String::from_str("winget could not install it"))
    } else {
        Outcome::Failed(shorten(last_message, 44))
    }
}

/// Decides what a finished winget run actually meant.
///
/// Exit codes alone are not enough: winget reports "nothing to upgrade" as a
/// failure, and localised builds say it in the user's language, so the last
/// line it printed has to be read as well.
pub fn classify(code: Option<u32>, success: bool, last_message: &str) -> (r: Outcome)
    ensures
        r@ == meaning(code, success, lowercase(last_message@), last_message@),
{
    let lower = to_lower(last_message);
    judge(code, success, lower.as_str(), last_message)
}

/// A failure always says something, and never more than 44 characters.
pub proof fn a_failure_says_something(
    code: Option<u32>,
    success: bool,
    lower: Seq<char>,
    message: Seq<char>,
)
    ensures
        meaning(code, success, lower, message) matches Meaning::Failed(m) ==> 0 < m.len() <= 44,
{
    reveal_strlit("winget could not install it");
}

/// A last message that says there is nothing to upgrade ("no applicable
/// upgrade", "no available upgrade", "no newer package", in any case) means
/// the tool is already current, whatever the exit code and success flag.
pub proof fn nothing_newer_means_already_current(
    code: Option<u32>,
    success: bool,
    lower: Seq<char>,
    message: Seq<char>,
)
    ensures
        contains(lower, "no applicable upgrade"@) ==> meaning(code, success, lower, message) is AlreadyCurrent,
        contains(lower, "no available upgrade"@) ==> meaning(code, success, lower, message) is AlreadyCurrent,
        contains(lower, "no newer package"@) ==> meaning(code, success, lower, message) is AlreadyCurrent,
{
}

/// What a finished run means, case by case: winget's "no applicable upgrade"
/// code, or a last message saying there is nothing newer, means already
/// current; otherwise success or the "already installed"
/// code means done; otherwise the "no installed package" code or message
/// means winget does not manage the tool; anything else is a failure that
/// gives the last message, cut to 44 characters with an ellipsis, or says
/// that winget could not install it when there was no message.
pub proof fn what_a_finished_run_meant(
    code: Option<u32>,
    success: bool,
    lower: Seq<char>,
    message: Seq<char>,
)
    ensures
        code == Some(0x8A15_002Bu32) ==> meaning(code, success, lower, message) is AlreadyCurrent,
        ({
            let nothing_newer = code == Some(0x8A15_002Bu32) || contains(
                lower,
                "no applicable upgrade"@,
            ) || contains(lower, "no available upgrade"@) || contains(lower, "no newer package"@);
            let done = success || code == Some(43u32);
            let unmanaged = code == Some(0x8A15_0014u32) || contains(lower, "no installed package"@);
            &&& !nothing_newer && done ==> meaning(code, success, lower, message) is Done
            &&& !nothing_newer && !done && unmanaged ==> meaning(code, success, lower, message)
                is NotManaged
            &&& !nothing_newer && !done && !unmanaged ==> (meaning(code, success, lower, message)
                matches Meaning::Failed(m)
                && (message.len() == 0 ==> m == "winget could not install it"@)
                && (0 < message.len() <= 44 ==> m == message)
                && (message.len() > 44 ==> m.len() == 44 && m.last() == '…' && m.take(43)
                == message.take(43)))
        }),
{
    if message.len() > 44 {
        let m = shortened(message, 44);
        assert(m.take(43) =~= message.take(43));
    }
}

/// "Nothing to upgrade" is never a failure, whatever else the run says.
pub proof fn nothing_to_upgrade_is_not_a_failure(
    success: bool,
    lower: Seq<char>,
    message: Seq<char>,
)
    ensures
        meaning(Some(NO_UPGRADE), success, lower, message) is AlreadyCurrent,
{
}

/// The arguments winget is run with for `action` (`install` or `upgrade`) on
/// the package `id`.
pub open spec fn winget_args(id: Seq<char>, action: Seq<char>) -> Seq<Seq<char>> {
    let base = seq![
        action,
        "--id"@,
        id,
        "-e"@,
        "--accept-source-agreements"@,
        "--accept-package-agreements"@,
        "--disable-interactivity"@,
    ];
    if action == "upgrade"@ {
        base.push("--include-unknown"@)
    } else {
        base
    }
}

/// The command line for one winget run.
pub fn arguments(id: &str, action: &str) -> (r: Vec<String>)
    ensures
        texts(r@) == winget_args(id@, action@),
        ({
            let a = texts(r@);
            &&& a.len() == (if action@ == "upgrade"@ { 8int } else { 7int })
            &&& a[0] == action@ && a[1] == "--id"@ && a[2] == id@ && a[3] == "-e"@
            &&& a[4] == "--accept-source-agreements"@ && a[5] == "--accept-package-agreements"@
            &&& a[6] == "--disable-interactivity"@
            &&& action@ == "upgrade"@ ==> a[7] == "--include-unknown"@
        }),
{
    let mut r: Vec<String> = Vec::new();
    push_text(&mut r, action);
    push_text(&mut r, "--id");
    push_text(&mut r, id);
    push_text(&mut r, "-e");
    push_text(&mut r, "--accept-source-agreements");
    push_text(&mut r, "--accept-package-agreements");
    push_text(&mut r, "--disable-interactivity");
    if same_text(action, "upgrade") {
        push_text(&mut r, "--include-unknown");
    }
    assert(texts(r@) =~= winget_args(id@, action@));
    r
}

/// Where a line of winget's output (already cleaned of noise) moves the run:
/// a `1.5 MB / 3 MB` line means it is downloading; any other line of more
/// than three characters means it is installing, unless nothing has been
/// downloaded yet, and becomes the last message.
pub open spec fn next_stage(stage: Stage, text: Seq<char>, is_share: bool) -> (Stage, bool) {
    if is_share {
        (Stage::Downloading, false)
    } else if text.len() > 3 {
        (
            if stage != Stage::Starting {
                Stage::Installing
            } else {
                Stage::Starting
            },
            true,
        )
    } else {
        (stage, false)
    }
}

/// Moves the run on by one cleaned line of output. `is_share` says whether
/// the line read as a download fraction. The flag in the result says whether
/// the line is now the last message of the run.
pub fn track(stage: Stage, text: &str, is_share: bool) -> (r: (Stage, bool))
    ensures
        r == next_stage(stage, text@, is_share),
        is_share ==> r == (Stage::Downloading, false),
        !is_share && text@.len() > 3 ==> r.1 && r.0 == (if stage == Stage::Starting {
            Stage::Starting
        } else {
            Stage::Installing
        }),
        !is_share && text@.len() <= 3 ==> r == (stage, false),
{
    if is_share {
        return (Stage::Downloading, false);
    }
    let n = chars_of(text).len();
    if n > 3 {
        let next = if stage != Stage::Starting {
            Stage::Installing
        } else {
            Stage::Starting
        };
        (next, true)
    } else {
        (stage, false)
    }
}

/// Once a run has left `Starting` it never goes back, and it leaves
/// `Starting` only through a download fraction.
pub proof fn a_run_never_returns_to_starting(stage: Stage, text: Seq<char>, is_share: bool)
    ensures
        stage != Stage::Starting ==> next_stage(stage, text, is_share).0 != Stage::Starting,
        stage == Stage::Starting && !is_share ==> next_stage(stage, text, is_share).0
            == Stage::Starting,
{
}

/// The names the interface switches on for each stage.
pub fn stage_name(stage: Stage) -> (r: &'static str)
    ensures
        r@ == match stage {
            Stage::Starting => "starting"@,
            Stage::Downloading => "downloading"@,
            Stage::Installing => "installing"@,
        },
{
    match stage {
        Stage::Starting => "starting",
        Stage::Downloading => "downloading",
        Stage::Installing => "installing",
    }
}

/// What the interface shows once a run is over: `Ok` with a note when the
/// tool is in place, `Err` with the reason when it is not.
pub open spec fn report_of(outcome: Meaning, action: Seq<char>) -> Result<Seq<char>, Seq<char>> {
    match outcome {
        Meaning::AlreadyCurrent => Ok("Already up to date"@),
        Meaning::Done => Ok(
            if action == "upgrade"@ {
                "Updated"@
            } else {
                Seq::empty()
            },
        ),
        Meaning::NotManaged => Err("not installed through winget"@),
        Meaning::Failed(reason) => Err(reason),
    }
}

/// What to tell the user about a finished run of `action`.
pub fn report(outcome: &Outcome, action: &str) -> (r: Result<String, String>)
    ensures
        match r {
            Ok(note) => report_of(outcome@, action@) == Ok::<Seq<char>, Seq<char>>(note@),
            Err(reason) => report_of(outcome@, action@) == Err::<Seq<char>, Seq<char>>(reason@),
        },
{
    match outcome {
        Outcome::AlreadyCurrent => Ok(String::from_str("Already up to date")),
        Outcome::Done => {
            if same_text(action, "upgrade") {
                Ok(String::from_str("Updated"))
            } else {
                Ok(String::new())
            }
        },
        Outcome::NotManaged => Err(String::from_str("not installed through winget")),
        Outcome::Failed(reason) => Err(reason.clone()),
    }
}

/// When a finished run leaves the tool missing, the user is always told why.
pub proof fn a_refusal_is_always_explained(
    code: Option<u32>,
    success: bool,
    lower: Seq<char>,
    message: Seq<char>,
    action: Seq<char>,
)
    ensures
        report_of(meaning(code, success, lower, message), action) matches Err(reason)
            ==> reason.len() > 0,
{
    a_failure_says_something(code, success, lower, message);
    reveal_strlit("not installed through winget");
}

} // verus!
