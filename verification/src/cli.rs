//! A request as the command line states it, and the rules it must meet.

use vstd::prelude::*;
use vstd::string::*;
use crate::error::{ErrorKind, WerError};
use crate::text::{decimal, decimal_digits};

verus! {

/// The options of one invocation.
pub struct Cli {
    /// The file or directory asked about; the current directory where
    /// none is given.
    pub path: Option<String>,
    /// Attribute each line of the file.
    pub blame: bool,
    /// Show dates only.
    pub date_only: bool,
    /// Show commit messages on lines of their own.
    pub commit_message: bool,
    /// Show the last contributors, this many at most.
    pub last: Option<usize>,
    /// Leave out colours and syntax highlighting.
    pub no_color: bool,
}

/// The failure of a request whose options exclude each other, if they do:
/// dates only together with commit messages, or the last contributors
/// together with line attribution.
pub open spec fn request_error(cli: Cli) -> Option<Seq<char>> {
    if cli.date_only && cli.commit_message {
        Some("Cannot use both --date-only and --commit-message flags together. Choose one."@)
    } else if cli.last is Some && cli.blame {
        Some("--last flag only works in normal mode, not with --blame"@)
    } else {
        None
    }
}

/// Checks that the options of a request go together.
pub fn validate_request(cli: &Cli) -> (checked: Result<(), WerError>)
    ensures
        match checked {
            Ok(_) => request_error(*cli) is None,
            Err(failure) => failure.kind == ErrorKind::InvalidRequest && request_error(*cli)
                == Some(failure.message@),
        },
{
    if cli.date_only && cli.commit_message {
        return Err(
            WerError {
                kind: ErrorKind::InvalidRequest,
                message: String::from_str(
                    "Cannot use both --date-only and --commit-message flags together. Choose one.",
                ),
            },
        );
    }
    if cli.last.is_some() && cli.blame {
        return Err(
            WerError {
                kind: ErrorKind::InvalidRequest,
                message: String::from_str(
                    "--last flag only works in normal mode, not with --blame",
                ),
            },
        );
    }
    Ok(())
}

/// The numbered list of the first `count` candidates, one on each line.
pub open spec fn numbered(candidates: Seq<Seq<char>>, count: nat) -> Seq<char>
    decreases count,
{
    if count == 0 || count > candidates.len() {
        Seq::empty()
    } else {
        numbered(candidates, (count - 1) as nat) + "  "@ + decimal_digits(count) + ". "@
            + candidates[count - 1] + "\n"@
    }
}

/// The message that a name stands for several paths where one file is
/// needed.
pub open spec fn ambiguous_text(input: Seq<char>, candidates: Seq<Seq<char>>) -> Seq<char> {
    "Multiple files/directories named '"@ + input + "' found:\n"@ + numbered(
        candidates,
        candidates.len(),
    )
        + "\nBlame mode only works with a single file. Please specify the full path to the desired file."@
}

/// Checks the paths that a name stands for against the mode of the
/// request: line attribution takes one file only.
pub fn check_targets(input: &str, candidates: &Vec<String>, blame: bool) -> (checked: Result<
    (),
    WerError,
>)
    ensures
        match checked {
            Ok(_) => !(blame && candidates.len() > 1),
            Err(failure) => blame && candidates.len() > 1 && failure.kind
                == ErrorKind::InvalidRequest && failure.message@ == ambiguous_text(
                input@,
                candidates.deep_view(),
            ),
        },
{
    if !(blame && candidates.len() > 1) {
        return Ok(());
    }
    let mut message = String::from_str("Multiple files/directories named '");
    message.append(input);
    message.append("' found:\n");
    let ghost head = message@;
    let mut k: usize = 0;
    proof {
        assert(message@ =~= head + numbered(candidates.deep_view(), 0));
    }
    while k < candidates.len()
        invariant
            k <= candidates.len(),
            message@ == head + numbered(candidates.deep_view(), k as nat),
        decreases candidates.len() - k,
    {
        message.append("  ");
        message.append(decimal(k + 1).as_str());
        message.append(". ");
        message.append(candidates[k].as_str());
        message.append("\n");
        k += 1;
        proof {
            assert(message@ =~= head + numbered(candidates.deep_view(), k as nat));
        }
    }
    message.append(
        "\nBlame mode only works with a single file. Please specify the full path to the desired file.",
    );
    Err(WerError { kind: ErrorKind::InvalidRequest, message })
}

/// What is printed for one path: the answer or the failure, under the name
/// of the path where the request has several.
pub open spec fn outcome_text(target: Seq<char>, outcome: Result<String, WerError>, many: bool) -> Seq<
    char,
> {
    (if many {
        target + ":\n"@
    } else {
        Seq::empty()
    }) + (match outcome {
        Ok(text) => text@,
        Err(failure) => "Error: "@ + failure.message@,
    })
}

/// Writes what is printed for one path of a request. A failure takes the
/// place of the answer of its path and of no other.
pub fn label_outcome(target: &str, outcome: &Result<String, WerError>, many: bool) -> (text: String)
    ensures
        text@ == outcome_text(target@, *outcome, many),
{
    let mut text = String::new();
    if many {
        text.append(target);
        text.append(":\n");
    }
    match outcome {
        Ok(answer) => {
            text.append(answer.as_str());
        },
        Err(failure) => {
            text.append("Error: ");
            text.append(failure.message.as_str());
        },
    }
    proof {
        assert(text@ =~= outcome_text(target@, *outcome, many));
    }
    text
}

} // verus!
