//! The `glia` command: which binary a subcommand runs, and coloured text.

use vstd::prelude::*;

use crate::text;

verus! {

/// A subcommand: its name, the binary that it runs, and what it does.
#[derive(Clone, Copy, Debug)]
pub struct Subcommand {
    pub name: &'static str,
    pub binary: &'static str,
    pub description: &'static str,
}

/// All subcommands.
pub fn subcommands() -> (subs: Vec<Subcommand>)
    ensures
        subs@.len() == 2,
        subs@[0].name@ == "import"@ && subs@[0].binary@ == "mi"@,
        subs@[0].description@ == "import an ML model (HF directory → .model)"@,
        subs@[1].name@ == "run"@ && subs@[1].binary@ == "mr"@,
        subs@[1].description@ == "run a model — portable, spec-driven runtime"@,
{
    vec![
        Subcommand {
            name: "import",
            binary: "mi",
            description: "import an ML model (HF directory → .model)",
        },
        Subcommand {
            name: "run",
            binary: "mr",
            description: "run a model — portable, spec-driven runtime",
        },
    ]
}

/// What a command line asks for.
#[derive(Clone, Copy, Debug, PartialEq, Eq, Structural)]
pub enum Request {
    Help,
    /// Run the binary of the subcommand in this place.
    Run(usize),
    Unknown,
}

/// What the first argument asks for.
pub open spec fn requested(arg: Seq<char>) -> Request {
    if arg == ""@ || arg == "help"@ || arg == "--help"@ || arg == "-h"@ {
        Request::Help
    } else if arg == "import"@ {
        Request::Run(0)
    } else if arg == "run"@ {
        Request::Run(1)
    } else {
        Request::Unknown
    }
}

/// What the first argument asks for; no argument is the empty one.
pub fn request(arg: &str) -> (r: Request)
    ensures
        r == requested(arg@),
{
    if text::text_eq(arg, "") || text::text_eq(arg, "help") || text::text_eq(arg, "--help")
        || text::text_eq(arg, "-h") {
        Request::Help
    } else if text::text_eq(arg, "import") {
        Request::Run(0)
    } else if text::text_eq(arg, "run") {
        Request::Run(1)
    } else {
        Request::Unknown
    }
}

/// `s` in a colour of the terminal, or plain where there is none.
pub open spec fn painted(tty: bool, code: Seq<char>, s: Seq<char>) -> Seq<char> {
    if tty {
        "\x1b["@ + code + "m"@ + s + "\x1b[0m"@
    } else {
        s
    }
}

/// `s` in a colour of the terminal, or plain where there is none.
pub fn paint(tty: bool, code: &str, s: &str) -> (out: String)
    ensures
        out@ == painted(tty, code@, s@),
{
    if tty {
        let mut out = "\x1b[".to_owned();
        out.append(code);
        out.append("m");
        out.append(s);
        out.append("\x1b[0m");
        out
    } else {
        s.to_owned()
    }
}

/// `s` dimmed.
pub fn dim(tty: bool, s: &str) -> (out: String)
    ensures
        out@ == painted(tty, "90"@, s@),
{
    paint(tty, "90", s)
}

/// `s` in bold.
pub fn bold(tty: bool, s: &str) -> (out: String)
    ensures
        out@ == painted(tty, "1"@, s@),
{
    paint(tty, "1", s)
}

/// The banner.
pub const LOGO: &'static str =
    "\x1b[31m ██████╗ ██╗     ██╗ █████╗ \x1b[0m\n\x1b[33m██╔════╝ ██║     ██║██╔══██╗\x1b[0m\n\x1b[32m██║  ███╗██║     ██║███████║\x1b[0m\n\x1b[36m██║   ██║██║     ██║██╔══██║\x1b[0m\n\x1b[34m╚██████╔╝███████╗██║██║  ██║\x1b[0m\n\x1b[35m ╚═════╝ ╚══════╝╚═╝╚═╝  ╚═╝\x1b[0m";

/// `s`, filled up with spaces to a width of seven.
pub open spec fn to_seven(s: Seq<char>) -> Seq<char> {
    s + Seq::new(
        if s.len() < 7 {
            (7 - s.len()) as nat
        } else {
            0
        },
        |i: int| ' ',
    )
}

fn padded(s: &str) -> (out: String)
    ensures
        out@ == to_seven(s@),
{
    let v = text::chars_of(s);
    let mut out = s.to_owned();
    let mut n: usize = v.len();
    assert(out@ =~= s@ + Seq::new((n - v@.len()) as nat, |i: int| ' '));
    while n < 7
        invariant
            v@ == s@,
            v@.len() <= n,
            n <= 7 || n == v@.len(),
            out@ == s@ + Seq::new((n - v@.len()) as nat, |i: int| ' '),
        decreases 7 - n,
    {
        out.push(' ');
        n = n + 1;
        assert(out@ =~= s@ + Seq::new((n - v@.len()) as nat, |i: int| ' '));
    }
    out
}

/// The line of a subcommand in the help.
pub open spec fn help_line(tty: bool, name: Seq<char>, description: Seq<char>) -> Seq<char> {
    "  "@ + painted(tty, "1"@, to_seven(name)) + "  "@ + painted(tty, "90"@, description) + "\n"@
}

/// The banner, on a terminal.
pub open spec fn banner(tty: bool) -> Seq<char> {
    if tty {
        LOGO@ + "\n"@ + painted(tty, "37"@, "    the model layer"@) + "\n\n"@
    } else {
        Seq::empty()
    }
}

/// The help.
pub open spec fn help_text(tty: bool) -> Seq<char> {
    banner(tty) + painted(tty, "90"@, "usage: glia <command> [args…]"@) + "\n"@ + help_line(
        tty,
        "import"@,
        "import an ML model (HF directory → .model)"@,
    ) + help_line(tty, "run"@, "run a model — portable, spec-driven runtime"@)
}

fn line(tty: bool, sub: &Subcommand) -> (s: String)
    ensures
        s@ == help_line(tty, sub.name@, sub.description@),
{
    let mut s = "  ".to_owned();
    s.append(bold(tty, padded(sub.name).as_str()).as_str());
    s.append("  ");
    s.append(dim(tty, sub.description).as_str());
    s.append("\n");
    s
}

/// The help: the banner on a terminal, the usage, and the subcommands.
pub fn help(tty: bool) -> (s: String)
    ensures
        s@ == help_text(tty),
{
    let mut s = String::new();
    if tty {
        s.append(LOGO);
        s.append("\n");
        s.append(paint(tty, "37", "    the model layer").as_str());
        s.append("\n\n");
    }
    assert(s@ =~= banner(tty));
    s.append(dim(tty, "usage: glia <command> [args…]").as_str());
    s.append("\n");
    let subs = subcommands();
    s.append(line(tty, &subs[0]).as_str());
    s.append(line(tty, &subs[1]).as_str());
    s
}

/// The model of a directory of the download cache, where it is one: the
/// directory's name tells the repository.
pub open spec fn cached_model_of(directory: Seq<char>) -> Option<Seq<char>> {
    if text::begins(directory, "models--"@) {
        Some(text::replaced(text::replaced(directory, "models--"@, ""@), "--"@, "/"@))
    } else {
        None
    }
}

/// The model of a directory of the download cache.
pub fn cached_model(directory: &str) -> (r: Option<String>)
    ensures
        match cached_model_of(directory@) {
            Some(m) => r matches Some(s) && s@ == m,
            None => r is None,
        },
{
    if !text::begins_with(directory, "models--") {
        return None;
    }
    proof {
        reveal_strlit("models--");
        reveal_strlit("--");
    }
    let name = text::replace_text(directory, "models--", "");
    Some(text::replace_text(name.as_str(), "--", "/"))
}

/// The name of the file that a directory is imported to.
pub open spec fn output_name_of(directory: Seq<char>) -> Seq<char> {
    if text::ends(directory, "-import"@) {
        directory.take(directory.len() - "-import"@.len()) + ".canonical"@
    } else {
        directory + ".canonical"@
    }
}

/// The name of the file that a directory is imported to: that of the
/// directory, without a final `-import`.
pub fn output_name(directory: &str) -> (s: String)
    ensures
        s@ == output_name_of(directory@),
{
    if text::ends_with(directory, "-import") {
        proof {
            reveal_strlit("-import");
        }
        let v = text::chars_of(directory);
        let n: usize = v.len();
        let head = text::substring(&v, 0, n - 7);
        assert(head@ =~= directory@.take(directory@.len() - 7));
        text::concat(head.as_str(), ".canonical")
    } else {
        text::concat(directory, ".canonical")
    }
}

} // verus!
