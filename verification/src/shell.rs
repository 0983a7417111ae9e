//! The decisions of the formatted stderr/stdout output: which messages the
//! verbosity shows, how colors are chosen, and how a status line is laid out

use vstd::prelude::*;
use vstd::string::{StringExecFns, StringSliceAdditionalSpecFns, StrSliceExecFns};
use crate::cli::ParseFailure;
use crate::util::text::{self, to_lowercase};

verus! {

/// Maximum length of status string when being justified
pub const JUSTIFY_STATUS_LEN: usize = 12;

/// The requested verbosity of the program output
#[derive(Clone, Copy, Debug, PartialEq, Eq, Structural)]
pub enum Verbosity {
    Verbose,
    Normal,
    Quiet,
}

/// Mode of the color output of the process, controllable via a CLI flag
#[derive(Clone, Copy, Debug, PartialEq, Eq, Structural)]
pub enum ColorMode {
    Auto,
    Always,
    Never,
}

/// All configuration parameters for the shell
#[derive(Clone, Copy, Debug, PartialEq, Eq, Structural)]
pub struct Options {
    /// Whether to run in quiet mode (minimal output)
    pub quiet: bool,
    /// Whether to run in verbose mode (maximum output)
    pub verbose: bool,
    /// Color display mode for stdout/stderr output
    pub color_mode: ColorMode,
}

impl Verbosity {
    /// Determines the appropriate verbosity setting for the specified CLI
    /// options: quiet wins over verbose
    pub fn from_opts(opts: &Options) -> (r: Self)
        ensures
            opts.quiet ==> r == Verbosity::Quiet,
            !opts.quiet && opts.verbose ==> r == Verbosity::Verbose,
            !opts.quiet && !opts.verbose ==> r == Verbosity::Normal,
    {
        if opts.quiet {
            Verbosity::Quiet
        } else if opts.verbose {
            Verbosity::Verbose
        } else {
            Verbosity::Normal
        }
    }

    /// Whether status, info and warning messages are shown (errors always
    /// are)
    pub fn shows_messages(self) -> (r: bool)
        ensures
            r == (self != Verbosity::Quiet),
    {
        !matches!(self, Verbosity::Quiet)
    }

    /// Whether verbose-only output is shown
    pub fn shows_verbose(self) -> (r: bool)
        ensures
            r == (self == Verbosity::Verbose),
    {
        matches!(self, Verbosity::Verbose)
    }
}

/// The mode a lowercase name gives
pub open spec fn mode_named(name: Seq<char>) -> Option<ColorMode> {
    if name == "auto"@ {
        Some(ColorMode::Auto)
    } else if name == "always"@ {
        Some(ColorMode::Always)
    } else if name == "never"@ {
        Some(ColorMode::Never)
    } else {
        None
    }
}

impl ColorMode {
    /// Parses a color mode, compared in lowercase; an unknown mode is a
    /// parse failure of the color mode holding the given text
    pub fn from_str(s: &str) -> (r: Result<Self, ParseFailure>)
        ensures
            mode_named(text::lowercase(s@)) matches Some(m) ==> r == Ok::<ColorMode, ParseFailure>(m),
            mode_named(text::lowercase(s@)) is None ==> (r matches Err(e) && e.field@ == "color mode"@
                && e.given@ == s@),
    {
        let lower = to_lowercase(s);
        if lower.eq(&"auto".to_owned()) {
            Ok(ColorMode::Auto)
        } else if lower.eq(&"always".to_owned()) {
            Ok(ColorMode::Always)
        } else if lower.eq(&"never".to_owned()) {
            Ok(ColorMode::Never)
        } else {
            Err(ParseFailure::new("color mode".to_owned(), s.to_owned()))
        }
    }

    /// The color choice of a stream: automatic only when the stream is a
    /// terminal, never otherwise
    pub fn into_termcolor(self, is_tty: bool) -> (r: ColorMode)
        ensures
            self == ColorMode::Auto ==> r == if is_tty {
                ColorMode::Auto
            } else {
                ColorMode::Never
            },
            self != ColorMode::Auto ==> r == self,
    {
        match self {
            ColorMode::Always => ColorMode::Always,
            ColorMode::Never => ColorMode::Never,
            ColorMode::Auto => if is_tty {
                ColorMode::Auto
            } else {
                ColorMode::Never
            },
        }
    }
}

/// The lines `textwrap::wrap` breaks `text` into for the given width
pub uninterp spec fn wrapped(text: Seq<char>, width: usize) -> Seq<Seq<char>>;

/// The views of a sequence of strings
pub open spec fn string_views(s: Seq<String>) -> Seq<Seq<char>> {
    s.map_values(|x: String| x@)
}

/// Calls `textwrap::wrap` with a width and copies out the lines. Its source:
/// the lines depend on the text and the width alone (default options).
#[verifier::external_body]
fn wrap_text(text: &str, width: usize) -> (r: Vec<String>)
    ensures
        string_views(r@) == wrapped(text@, width),
{
    textwrap::wrap(text, width).into_iter().map(|line| line.into_owned()).collect()
}

/// A status line laid out: the status text (printed bold in the status
/// color), whether a bold colon follows it, and the text after it (the
/// message lines, each ending with a line break, or a single space when there
/// is no message)
pub struct PrintLayout {
    pub status: String,
    pub colon: bool,
    pub body: Vec<String>,
}

/// `n` spaces
pub open spec fn spaces(n: int) -> Seq<char> {
    Seq::new(if n < 0 { 0 } else { n as nat }, |i: int| ' ')
}

/// `s` right-aligned in `w` characters
pub open spec fn pad_left(s: Seq<char>, w: int) -> Seq<char> {
    spaces(w - s.len()) + s
}

/// The width taken by the status on a stream: the justified width, or the
/// status and its colon
pub open spec fn status_offset(status: &str, justified: bool, is_tty: bool) -> int {
    if justified && is_tty {
        JUSTIFY_STATUS_LEN as int
    } else {
        status.spec_bytes().len() + 1int
    }
}

/// The width taken by the status on a stream, as `stream_layout` needs the
/// terminal width to exceed it
pub fn status_width(status: &str, justified: bool, is_tty: bool) -> (r: usize)
    requires
        status.spec_bytes().len() < usize::MAX,
    ensures
        r == status_offset(status, justified, is_tty),
{
    if justified && is_tty {
        JUSTIFY_STATUS_LEN
    } else {
        status.len() + 1
    }
}

/// The message lines on a stream of the given width: wrapped to what is left
/// of the width after the status, each after a space (and, from the second
/// one on, an indent as wide as the status)
pub open spec fn stream_body(message: Option<Seq<char>>, offset: int, width: Option<usize>) -> Seq<
    Seq<char>,
> {
    match message {
        None => seq![" "@],
        Some(m) => match width {
            None => seq![" "@ + m + "\n"@],
            Some(w) => {
                let lines = wrapped(m, (w - (offset + 1)) as usize);
                Seq::new(
                    lines.len(),
                    |i: int|
                        if i == 0 {
                            " "@ + lines[i] + "\n"@
                        } else {
                            spaces(offset) + " "@ + lines[i] + "\n"@
                        },
                )
            },
        },
    }
}

/// The views of an optional string slice
pub open spec fn opt_str(s: Option<&str>) -> Option<Seq<char>> {
    match s {
        Some(x) => Some(x@),
        None => None,
    }
}

/// `n` spaces, as a string
fn make_spaces(n: usize) -> (r: String)
    ensures
        r@ == spaces(n as int),
{
    let mut r = String::new();
    let mut i: usize = 0;
    while i < n
        invariant
            i <= n,
            r@ == spaces(i as int),
        decreases n - i,
    {
        r.append(" ");
        proof {
            reveal_strlit(" ");
        }
        assert(r@ =~= spaces(i + 1));
        i += 1;
    }
    r
}

/// Lays out a status line for a color stream: a justified status on a
/// terminal is right-aligned in the justified width, otherwise a colon
/// follows it; when the terminal width is known, the message is wrapped to
/// what is left of it
pub fn stream_layout(
    status: &str,
    message: Option<&str>,
    justified: bool,
    is_tty: bool,
    width: Option<usize>,
) -> (r: PrintLayout)
    requires
        status.spec_bytes().len() < usize::MAX,
        width matches Some(w) ==> status_offset(status, justified, is_tty) + 1 <= w,
    ensures
        justified && is_tty ==> r.status@ == pad_left(status@, JUSTIFY_STATUS_LEN as int) && !r.colon,
        !(justified && is_tty) ==> r.status@ == status@ && r.colon,
        string_views(r.body@) == stream_body(
            opt_str(message),
            status_offset(status, justified, is_tty),
            width,
        ),
{
    let (text, colon, offset) = if justified && is_tty {
        let len = status.unicode_len();
        let mut padded = if len < JUSTIFY_STATUS_LEN {
            make_spaces(JUSTIFY_STATUS_LEN - len)
        } else {
            String::new()
        };
        padded.append(status);
        assert(padded@ =~= pad_left(status@, JUSTIFY_STATUS_LEN as int));
        (padded, false, JUSTIFY_STATUS_LEN)
    } else {
        (status.to_owned(), true, status.len() + 1)
    };
    let mut body: Vec<String> = Vec::new();
    match message {
        None => {
            body.push(" ".to_owned());
            assert(string_views(body@) =~= seq![" "@]);
        },
        Some(m) => match width {
            None => {
                let mut line = " ".to_owned();
                line.append(m);
                line.append("\n");
                body.push(line);
                assert(string_views(body@) =~= seq![" "@ + m@ + "\n"@]);
            },
            Some(w) => {
                let lines = wrap_text(m, w - (offset + 1));
                let indent = make_spaces(offset);
                let ghost expected = stream_body(opt_str(message), offset as int, width);
                let mut i: usize = 0;
                while i < lines.len()
                    invariant
                        i <= lines@.len(),
                        string_views(lines@) == wrapped(m@, (w - (offset + 1)) as usize),
                        indent@ == spaces(offset as int),
                        expected == stream_body(opt_str(message), offset as int, width),
                        message == Some(m),
                        width == Some(w),
                        offset + 1 <= w,
                        string_views(body@) == expected.subrange(0, i as int),
                    decreases lines@.len() - i,
                {
                    let mut line = if i == 0 {
                        " ".to_owned()
                    } else {
                        let mut l = indent.clone();
                        l.append(" ");
                        l
                    };
                    line.append(lines[i].as_str());
                    line.append("\n");
                    let ghost before = body@;
                    body.push(line);
                    assert(string_views(body@) =~= string_views(before).push(expected[i as int]));
                    assert(expected.subrange(0, i + 1) =~= expected.subrange(0, i as int).push(
                        expected[i as int],
                    ));
                    i += 1;
                }
                assert(expected.subrange(0, lines@.len() as int) =~= expected);
            },
        },
    }
    PrintLayout { status: text, colon, body }
}

/// Lays out a status line for a plain writer: a justified status is
/// right-aligned in the justified width, otherwise a colon follows it; the
/// message is not wrapped
pub fn write_layout(status: &str, message: Option<&str>, justified: bool) -> (r: PrintLayout)
    ensures
        justified ==> r.status@ == pad_left(status@, JUSTIFY_STATUS_LEN as int),
        !justified ==> r.status@ == status@ + ":"@,
        !r.colon,
        message matches Some(m) ==> string_views(r.body@) == seq![" "@ + m@ + "\n"@],
        message is None ==> string_views(r.body@) == seq![" "@],
{
    let text = if justified {
        let len = status.unicode_len();
        let mut padded = if len < JUSTIFY_STATUS_LEN {
            make_spaces(JUSTIFY_STATUS_LEN - len)
        } else {
            String::new()
        };
        padded.append(status);
        assert(padded@ =~= pad_left(status@, JUSTIFY_STATUS_LEN as int));
        padded
    } else {
        let mut t = status.to_owned();
        t.append(":");
        t
    };
    let mut body: Vec<String> = Vec::new();
    match message {
        Some(m) => {
            let mut line = " ".to_owned();
            line.append(m);
            line.append("\n");
            body.push(line);
            assert(string_views(body@) =~= seq![" "@ + m@ + "\n"@]);
        },
        None => {
            body.push(" ".to_owned());
            assert(string_views(body@) =~= seq![" "@]);
        },
    }
    PrintLayout { status: text, colon: false, body }
}

} // verus!
