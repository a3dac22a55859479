use vstd::prelude::*;

use owo_colors::OwoColorize;

use crate::commands::list::Marker;

verus! {

/// `s` in green, as `owo_colors` writes it: the ANSI code for a green foreground, `s`,
/// and the code that resets the foreground.
#[verifier::external_body]
pub(crate) fn green(s: &str) -> (r: String)
    ensures
        r@ == "\x1b[32m"@ + s@ + "\x1b[39m"@,
{
    s.green().to_string()
}

/// `s` in yellow, as `owo_colors` writes it.
#[verifier::external_body]
pub(crate) fn yellow(s: &str) -> (r: String)
    ensures
        r@ == "\x1b[33m"@ + s@ + "\x1b[39m"@,
{
    s.yellow().to_string()
}

/// `s` in red, as `owo_colors` writes it.
#[verifier::external_body]
pub(crate) fn red(s: &str) -> (r: String)
    ensures
        r@ == "\x1b[31m"@ + s@ + "\x1b[39m"@,
{
    s.red().to_string()
}

/// `s` in bold, as `owo_colors` writes it: the ANSI bold code, `s`, and the code that
/// resets all attributes.
#[verifier::external_body]
pub(crate) fn bold(s: &str) -> (r: String)
    ensures
        r@ == "\x1b[1m"@ + s@ + "\x1b[0m"@,
{
    s.bold().to_string()
}

/// `s` in bold when color is on, else as it is.
pub fn emphasis(s: &str, color: bool) -> (r: String)
    ensures
        r@ == (if color {
            "\x1b[1m"@ + s@ + "\x1b[0m"@
        } else {
            s@
        }),
{
    if color {
        bold(s)
    } else {
        String::from_str(s)
    }
}

/// `s` in yellow when color is on, else as it is: how a not-yet message shows.
pub fn caution(s: &str, color: bool) -> (r: String)
    ensures
        r@ == (if color {
            "\x1b[33m"@ + s@ + "\x1b[39m"@
        } else {
            s@
        }),
{
    if color {
        yellow(s)
    } else {
        String::from_str(s)
    }
}

/// The banner of a solved puzzle: `Solved!`, green and bold when color is on.
pub fn solved_banner(color: bool) -> (r: String)
    ensures
        r@ == (if color {
            "\x1b[1m"@ + ("\x1b[32m"@ + "Solved!"@ + "\x1b[39m"@) + "\x1b[0m"@
        } else {
            "Solved!"@
        }),
{
    if color {
        let g = green("Solved!");
        bold(g.as_str())
    } else {
        String::from_str("Solved!")
    }
}

/// The label of a self-test result: `PASS` in green or `FAIL` in red when color is on.
pub fn verdict_label(ok: bool, color: bool) -> (r: String)
    ensures
        r@ == (if ok {
            if color {
                "\x1b[32m"@ + "PASS"@ + "\x1b[39m"@
            } else {
                "PASS"@
            }
        } else {
            if color {
                "\x1b[31m"@ + "FAIL"@ + "\x1b[39m"@
            } else {
                "FAIL"@
            }
        }),
{
    if ok {
        if color {
            green("PASS")
        } else {
            String::from_str("PASS")
        }
    } else {
        if color {
            red("FAIL")
        } else {
            String::from_str("FAIL")
        }
    }
}

/// How a listing marker shows: a green check, a yellow dot or a lock with color, and
/// `[x]`, `[ ]` or `[L]` without.
pub fn marker_label(marker: Marker, color: bool) -> (r: String)
    ensures
        r@ == (match marker {
            Marker::Solved => if color {
                "\x1b[32m"@ + "✓"@ + "\x1b[39m"@
            } else {
                "[x]"@
            },
            Marker::Open => if color {
                "\x1b[33m"@ + "·"@ + "\x1b[39m"@
            } else {
                "[ ]"@
            },
            Marker::Locked => if color {
                "🔒"@
            } else {
                "[L]"@
            },
        }),
{
    match marker {
        Marker::Solved => if color {
            green("✓")
        } else {
            String::from_str("[x]")
        },
        Marker::Open => if color {
            yellow("·")
        } else {
            String::from_str("[ ]")
        },
        Marker::Locked => if color {
            String::from_str("🔒")
        } else {
            String::from_str("[L]")
        },
    }
}

} // verus!
