//! The help screen, plain or styled with ANSI escapes.
use vstd::prelude::*;

use crate::scripts::{extension, Platform};
use crate::text::{append_str, concat_str, lemma_ascii_bytes, push_char, str_equal};

verus! {

pub const BOLD: &'static str = "\x1b[1m";

pub const UNDERLINE: &'static str = "\x1b[4m";

pub const CYAN: &'static str = "\x1b[36m";

pub const GREEN: &'static str = "\x1b[32m";

pub const RESET: &'static str = "\x1b[0m";

/// The width that option names are padded to on the styled screen.
pub const OPTION_WIDTH: usize = 28;

/// Whether to style the help screen: standard output is a terminal or
/// `CLICOLOR_FORCE` is `1`, and `NO_COLOR` is not set.
pub fn should_style(stdout_is_terminal: bool, no_color_set: bool, clicolor_force: Option<&str>) -> (r: bool)
    ensures
        r == ((stdout_is_terminal || (clicolor_force is Some && clicolor_force->0@ == "1"@)) && !no_color_set),
{
    let force_color = match clicolor_force {
        Some(v) => str_equal(v, "1"),
        None => false,
    };
    (stdout_is_terminal || force_color) && !no_color_set
}

/// `s` followed by spaces up to `width` characters (as `{:<width}` writes it).
pub open spec fn pad_right(s: Seq<char>, width: nat) -> Seq<char> {
    if s.len() >= width {
        s
    } else {
        s + Seq::new((width - s.len()) as nat, |i: int| ' ')
    }
}

/// A section heading on the styled screen.
pub open spec fn section_spec(name: Seq<char>) -> Seq<char> {
    BOLD@ + UNDERLINE@ + name + ":"@ + RESET@
}

/// An option and its description on the styled screen.
pub open spec fn option_spec(flag: Seq<char>, desc: Seq<char>) -> Seq<char> {
    BOLD@ + pad_right(flag, OPTION_WIDTH as nat) + RESET@ + desc
}

/// An example command on the styled screen.
pub open spec fn example_spec(cmd: Seq<char>) -> Seq<char> {
    GREEN@ + cmd + RESET@
}

/// The lines of the help screen, each without its line break.
pub open spec fn help_lines_spec(styled: bool) -> Seq<Seq<char>> {
    if styled {
        seq![
            BOLD@ + CYAN@ + "jao - discover, inspect, and run workspace scripts"@ + RESET@,
            "  Finds platform scripts recursively and executes them from their own directory."@,
            ""@,
            section_spec("USAGE"@),
            "  jao --list"@,
            "  jao --fingerprint <SCRIPT_COMMAND_PART>..."@,
            "  jao <SCRIPT_COMMAND_PART>..."@,
            ""@,
            section_spec("OPTIONS"@),
            option_spec("  -h, --help"@, "Show this help screen"@),
            option_spec(
                "      --list"@,
                "List runnable scripts discovered from the current directory downward"@,
            ),
            option_spec(
                "      --fingerprint <SCRIPT_COMMAND_PART>..."@,
                "Resolve a script command, then print SHA-256 of canonical path + file contents"@,
            ),
            option_spec("  -V, --version"@, "Print version"@),
            ""@,
            section_spec("SCRIPT COMMAND INPUT"@),
            "  Positional parts are joined with '.' to form the script base name."@,
            "  Example: jao deploy api prod  -> base name deploy.api.prod"@,
            "  Matching extension is chosen by OS: .sh on Unix-like systems, .bat on Windows."@,
            "  The script runs with working directory set to the script's folder."@,
            ""@,
            section_spec("EXAMPLES"@),
            example_spec("  jao --list"@),
            "    Show all discovered runnable scripts."@,
            example_spec("  jao --fingerprint deploy api prod"@),
            "    Resolve deploy.api.prod.sh/.bat, then fingerprint that script file."@,
            example_spec("  jao test"@),
            "    Run test.sh / test.bat if found."@,
            example_spec("  jao deploy api prod"@),
            "    Run deploy.api.prod.sh / .bat if found."@,
        ]
    } else {
        seq![
            "jao - discover, inspect, and run workspace scripts"@,
            "  Finds platform scripts recursively and executes them from their own directory."@,
            ""@,
            "USAGE:"@,
            "  jao --list"@,
            "  jao --fingerprint <SCRIPT_COMMAND_PART>..."@,
            "  jao <SCRIPT_COMMAND_PART>..."@,
            ""@,
            "OPTIONS:"@,
            "  -h, --help                Show this help screen"@,
            "      --list                List runnable scripts discovered from the current directory downward"@,
            "      --fingerprint <SCRIPT_COMMAND_PART>...  Resolve a script command, then print SHA-256 of canonical path + file contents"@,
            "  -V, --version             Print version"@,
            ""@,
            "SCRIPT COMMAND INPUT:"@,
            "  Positional parts are joined with '.' to form the script base name."@,
            "  Example: jao deploy api prod  -> base name deploy.api.prod"@,
            "  Matching extension is chosen by OS: .sh on Unix-like systems, .bat on Windows."@,
            "  The script runs with working directory set to the script's folder."@,
            ""@,
            "EXAMPLES:"@,
            "  jao --list"@,
            "    Show all discovered runnable scripts."@,
            "  jao --fingerprint deploy api prod"@,
            "    Resolve deploy.api.prod.sh/.bat, then fingerprint that script file."@,
            "  jao test"@,
            "    Run test.sh / test.bat if found."@,
            "  jao deploy api prod"@,
            "    Run deploy.api.prod.sh / .bat if found."@,
        ]
    }
}

/// The views of a vector of strings.
pub open spec fn line_views(v: Seq<String>) -> Seq<Seq<char>> {
    v.map_values(|s: String| s@)
}

/// A section heading on the styled screen.
fn section(name: &str) -> (r: String)
    ensures
        r@ == section_spec(name@),
{
    let mut s = concat_str(BOLD, UNDERLINE);
    append_str(&mut s, name);
    append_str(&mut s, ":");
    append_str(&mut s, RESET);
    s
}

/// An option, padded to the option width, and its description on the styled screen.
fn option(flag: &str, desc: &str) -> (r: String)
    ensures
        r@ == option_spec(flag@, desc@),
{
    let mut s = concat_str(BOLD, flag);
    let ghost start = s@;
    let n = flag.unicode_len();
    let mut k = n;
    while k < OPTION_WIDTH
        invariant
            n == flag@.len(),
            n <= k,
            k <= OPTION_WIDTH || n > OPTION_WIDTH,
            n >= OPTION_WIDTH ==> k == n,
            s@ == start + Seq::new((k - n) as nat, |i: int| ' '),
        decreases OPTION_WIDTH - k,
    {
        push_char(&mut s, ' ');
        assert(s@ =~= start + Seq::new((k + 1 - n) as nat, |i: int| ' '));
        k = k + 1;
    }
    if n >= OPTION_WIDTH {
        assert(k == n);
        assert(s@ =~= start);
    } else {
        assert(k == OPTION_WIDTH);
    }
    assert(s@ =~= BOLD@ + pad_right(flag@, OPTION_WIDTH as nat));
    append_str(&mut s, RESET);
    append_str(&mut s, desc);
    s
}

/// An example command on the styled screen.
fn example(cmd: &str) -> (r: String)
    ensures
        r@ == example_spec(cmd@),
{
    let mut s = concat_str(GREEN, cmd);
    append_str(&mut s, RESET);
    s
}

/// Appends a line to the screen.
fn push_line(lines: &mut Vec<String>, line: String)
    ensures
        line_views(final(lines)@) == line_views(old(lines)@).push(line@),
{
    let ghost before = lines@;
    lines.push(line);
    assert(line_views(lines@) =~= line_views(before).push(line@));
}

/// Appends a plain line of text to the screen.
fn line(lines: &mut Vec<String>, text: &str)
    ensures
        line_views(final(lines)@) == line_views(old(lines)@).push(text@),
{
    push_line(lines, String::from_str(text));
}

/// The lines of the help screen, styled with ANSI escapes or plain.
pub fn help_lines(styled: bool) -> (r: Vec<String>)
    ensures
        line_views(r@) == help_lines_spec(styled),
{
    let mut v: Vec<String> = Vec::new();
    assert(line_views(v@) =~= Seq::<Seq<char>>::empty());
    if styled {
        let mut title = concat_str(BOLD, CYAN);
        append_str(&mut title, "jao - discover, inspect, and run workspace scripts");
        append_str(&mut title, RESET);
        push_line(&mut v, title);
        line(&mut v, "  Finds platform scripts recursively and executes them from their own directory.");
        line(&mut v, "");
        push_line(&mut v, section("USAGE"));
        line(&mut v, "  jao --list");
        line(&mut v, "  jao --fingerprint <SCRIPT_COMMAND_PART>...");
        line(&mut v, "  jao <SCRIPT_COMMAND_PART>...");
        line(&mut v, "");
        push_line(&mut v, section("OPTIONS"));
        push_line(&mut v, option("  -h, --help", "Show this help screen"));
        push_line(
            &mut v,
            option("      --list", "List runnable scripts discovered from the current directory downward"),
        );
        push_line(
            &mut v,
            option(
                "      --fingerprint <SCRIPT_COMMAND_PART>...",
                "Resolve a script command, then print SHA-256 of canonical path + file contents",
            ),
        );
        push_line(&mut v, option("  -V, --version", "Print version"));
        line(&mut v, "");
        push_line(&mut v, section("SCRIPT COMMAND INPUT"));
        line(&mut v, "  Positional parts are joined with '.' to form the script base name.");
        line(&mut v, "  Example: jao deploy api prod  -> base name deploy.api.prod");
        line(&mut v, "  Matching extension is chosen by OS: .sh on Unix-like systems, .bat on Windows.");
        line(&mut v, "  The script runs with working directory set to the script's folder.");
        line(&mut v, "");
        push_line(&mut v, section("EXAMPLES"));
        push_line(&mut v, example("  jao --list"));
        line(&mut v, "    Show all discovered runnable scripts.");
        push_line(&mut v, example("  jao --fingerprint deploy api prod"));
        line(&mut v, "    Resolve deploy.api.prod.sh/.bat, then fingerprint that script file.");
        push_line(&mut v, example("  jao test"));
        line(&mut v, "    Run test.sh / test.bat if found.");
        push_line(&mut v, example("  jao deploy api prod"));
        line(&mut v, "    Run deploy.api.prod.sh / .bat if found.");
    } else {
        line(&mut v, "jao - discover, inspect, and run workspace scripts");
        line(&mut v, "  Finds platform scripts recursively and executes them from their own directory.");
        line(&mut v, "");
        line(&mut v, "USAGE:");
        line(&mut v, "  jao --list");
        line(&mut v, "  jao --fingerprint <SCRIPT_COMMAND_PART>...");
        line(&mut v, "  jao <SCRIPT_COMMAND_PART>...");
        line(&mut v, "");
        line(&mut v, "OPTIONS:");
        line(&mut v, "  -h, --help                Show this help screen");
        line(
            &mut v,
            "      --list                List runnable scripts discovered from the current directory downward",
        );
        line(
            &mut v,
            "      --fingerprint <SCRIPT_COMMAND_PART>...  Resolve a script command, then print SHA-256 of canonical path + file contents",
        );
        line(&mut v, "  -V, --version             Print version");
        line(&mut v, "");
        line(&mut v, "SCRIPT COMMAND INPUT:");
        line(&mut v, "  Positional parts are joined with '.' to form the script base name.");
        line(&mut v, "  Example: jao deploy api prod  -> base name deploy.api.prod");
        line(&mut v, "  Matching extension is chosen by OS: .sh on Unix-like systems, .bat on Windows.");
        line(&mut v, "  The script runs with working directory set to the script's folder.");
        line(&mut v, "");
        line(&mut v, "EXAMPLES:");
        line(&mut v, "  jao --list");
        line(&mut v, "    Show all discovered runnable scripts.");
        line(&mut v, "  jao --fingerprint deploy api prod");
        line(&mut v, "    Resolve deploy.api.prod.sh/.bat, then fingerprint that script file.");
        line(&mut v, "  jao test");
        line(&mut v, "    Run test.sh / test.bat if found.");
        line(&mut v, "  jao deploy api prod");
        line(&mut v, "    Run deploy.api.prod.sh / .bat if found.");
    }
    assert(line_views(v@) =~= help_lines_spec(styled));
    v
}

/// Bytes read as the characters with the same codes.
pub open spec fn ascii_text(b: Seq<u8>) -> Seq<char> {
    b.map_values(|x: u8| x as char)
}

/// The help screen names each platform's own script extension: the line on
/// extensions gives `extension(Unix)` for Unix-like systems and
/// `extension(Windows)` for Windows, styled or plain.
pub proof fn law_help_names_platform_extensions(styled: bool)
    ensures
        help_lines_spec(styled).len() == 29,
        help_lines_spec(styled)[17] == "  Matching extension is chosen by OS: "@ + ascii_text(extension(Platform::Unix))
            + " on Unix-like systems, "@ + ascii_text(extension(Platform::Windows)) + " on Windows."@,
{
    reveal_strlit("  Matching extension is chosen by OS: .sh on Unix-like systems, .bat on Windows.");
    reveal_strlit("  Matching extension is chosen by OS: ");
    reveal_strlit(" on Unix-like systems, ");
    reveal_strlit(" on Windows.");
    reveal_strlit(".sh");
    reveal_strlit(".bat");
    assert(vstd::string::is_ascii(".sh"));
    assert(vstd::string::is_ascii(".bat"));
    lemma_ascii_bytes(".sh");
    lemma_ascii_bytes(".bat");
    assert(ascii_text(extension(Platform::Unix)) =~= ".sh"@);
    assert(ascii_text(extension(Platform::Windows)) =~= ".bat"@);
    assert("  Matching extension is chosen by OS: .sh on Unix-like systems, .bat on Windows."@
        =~= "  Matching extension is chosen by OS: "@ + ".sh"@ + " on Unix-like systems, "@ + ".bat"@ + " on Windows."@);
}

/// The styled help screen is the plain one with styling added: the same
/// lines, in the same order, where the title, the section headings, the
/// examples and the options are wrapped in escapes and every other line is
/// unchanged.
pub proof fn law_styled_screen_decorates_plain()
    ensures
        help_lines_spec(true).len() == help_lines_spec(false).len(),
        help_lines_spec(true)[0] == BOLD@ + CYAN@ + help_lines_spec(false)[0] + RESET@,
        forall|i: int|
            #![trigger help_lines_spec(true)[i]]
            i == 1 || i == 2 || i == 4 || i == 5 || i == 6 || i == 7 || i == 13 || i == 15 || i == 16 || i == 17 || i
                == 18 || i == 19 || i == 22 || i == 24 || i == 26 || i == 28 ==> help_lines_spec(true)[i]
                == help_lines_spec(false)[i],
        forall|i: int|
            #![trigger help_lines_spec(true)[i]]
            i == 3 || i == 8 || i == 14 || i == 20 ==> help_lines_spec(true)[i] == BOLD@ + UNDERLINE@
                + help_lines_spec(false)[i] + RESET@,
        forall|i: int|
            #![trigger help_lines_spec(true)[i]]
            i == 21 || i == 23 || i == 25 || i == 27 ==> help_lines_spec(true)[i] == GREEN@ + help_lines_spec(
                false,
            )[i] + RESET@,
        forall|i: int|
            #![trigger help_lines_spec(true)[i]]
            i == 9 || i == 10 || i == 12 ==> help_lines_spec(true)[i] == BOLD@ + help_lines_spec(false)[i].take(
                OPTION_WIDTH as int,
            ) + RESET@ + help_lines_spec(false)[i].skip(OPTION_WIDTH as int),
{
    reveal_strlit("USAGE");
    reveal_strlit("OPTIONS");
    reveal_strlit("SCRIPT COMMAND INPUT");
    reveal_strlit("EXAMPLES");
    reveal_strlit(":");
    reveal_strlit("USAGE:");
    reveal_strlit("OPTIONS:");
    reveal_strlit("SCRIPT COMMAND INPUT:");
    reveal_strlit("EXAMPLES:");
    assert("USAGE"@ + ":"@ =~= "USAGE:"@);
    assert("OPTIONS"@ + ":"@ =~= "OPTIONS:"@);
    assert("SCRIPT COMMAND INPUT"@ + ":"@ =~= "SCRIPT COMMAND INPUT:"@);
    assert("EXAMPLES"@ + ":"@ =~= "EXAMPLES:"@);
    let t = help_lines_spec(true);
    let p = help_lines_spec(false);
    assert(t[3] =~= BOLD@ + UNDERLINE@ + p[3] + RESET@);
    assert(t[8] =~= BOLD@ + UNDERLINE@ + p[8] + RESET@);
    assert(t[14] =~= BOLD@ + UNDERLINE@ + p[14] + RESET@);
    assert(t[20] =~= BOLD@ + UNDERLINE@ + p[20] + RESET@);
    reveal_strlit("  -h, --help");
    reveal_strlit("Show this help screen");
    reveal_strlit("  -h, --help                Show this help screen");
    reveal_strlit("      --list");
    reveal_strlit("List runnable scripts discovered from the current directory downward");
    reveal_strlit("      --list                List runnable scripts discovered from the current directory downward");
    reveal_strlit("  -V, --version");
    reveal_strlit("Print version");
    reveal_strlit("  -V, --version             Print version");
    assert(p[9].take(28) =~= pad_right("  -h, --help"@, 28));
    assert(p[9].skip(28) =~= "Show this help screen"@);
    assert(t[9] =~= BOLD@ + p[9].take(28) + RESET@ + p[9].skip(28));
    assert(p[10].take(28) =~= pad_right("      --list"@, 28));
    assert(p[10].skip(28) =~= "List runnable scripts discovered from the current directory downward"@);
    assert(t[10] =~= BOLD@ + p[10].take(28) + RESET@ + p[10].skip(28));
    assert(p[12].take(28) =~= pad_right("  -V, --version"@, 28));
    assert(p[12].skip(28) =~= "Print version"@);
    assert(t[12] =~= BOLD@ + p[12].take(28) + RESET@ + p[12].skip(28));
}

} // verus!
