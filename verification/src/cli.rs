//! What the command line means once its words have been read.

use crate::text::{texts, trim, trimmed};
use crate::utils::Proto;
use vstd::prelude::*;
use vstd::string::*;

verus! {

/// The protocol that the flags of `connect` ask for: UDP where only the
/// UDP flag is set, TCP in every other case.
pub fn resolve_proto(udp: bool, tcp: bool) -> (r: Proto)
    ensures
        r == if udp && !tcp {
            Proto::UDP
        } else {
            Proto::TCP
        },
{
    if udp && tcp {
        Proto::TCP
    } else if udp {
        Proto::UDP
    } else {
        Proto::TCP
    }
}

/// What to do once the arguments have been through the parser.
#[derive(Clone, Copy, Debug, PartialEq, Eq)]
pub enum ParseStep {
    /// The arguments were understood: act on them.
    Accept,
    /// They were not, and someone sits at the terminal: report the
    /// parser's complaint and stop.
    Report,
    /// They were not, and input is piped in: read it, add it to the
    /// arguments as one more, and parse again.
    ReadStdin,
}

/// Decides what follows the first attempt to parse the arguments.
pub fn parse(understood: bool, stdin_is_terminal: bool) -> (r: ParseStep)
    ensures
        r == if understood {
            ParseStep::Accept
        } else if stdin_is_terminal {
            ParseStep::Report
        } else {
            ParseStep::ReadStdin
        },
{
    if understood {
        ParseStep::Accept
    } else if stdin_is_terminal {
        ParseStep::Report
    } else {
        ParseStep::ReadStdin
    }
}

/// The first `n` lines, each followed by a line feed, one after another.
pub open spec fn joined_lines(lines: Seq<Seq<char>>, n: int) -> Seq<char>
    decreases n,
{
    if n <= 0 {
        Seq::empty()
    } else {
        joined_lines(lines, n - 1) + lines[n - 1] + "\n"@
    }
}

/// The arguments to parse on the second attempt: those given, and one
/// more made of everything that was piped in, its lines joined by line
/// feeds and the white space at both ends taken off.
pub fn parse_stdin(args: Vec<String>, lines: &Vec<String>) -> (r: Vec<String>)
    ensures
        texts(r@) == texts(args@).push(trimmed(joined_lines(texts(lines@), lines.len() as int))),
{
    let mut input = String::new();
    let mut i: usize = 0;
    assert(input@ =~= joined_lines(texts(lines@), 0));
    while i < lines.len()
        invariant
            i <= lines.len(),
            input@ == joined_lines(texts(lines@), i as int),
        decreases lines.len() - i,
    {
        input.append(lines[i].as_str());
        input.append("\n");
        assert(texts(lines@)[i as int] == lines@[i as int]@);
        assert(input@ =~= joined_lines(texts(lines@), i + 1));
        i = i + 1;
    }
    let extra = trim(input.as_str());
    let mut args = args;
    let ghost before = args@;
    args.push(extra);
    assert(texts(args@) =~= texts(before).push(extra@));
    args
}

} // verus!
