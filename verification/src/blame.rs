//! The table that attributes each line of a file to a commit.

use vstd::prelude::*;
use vstd::string::*;
use crate::commit::{
    scheme_text, unknown_text, ColorScheme, ColorText, CommitInfo, CommitText, AUTHOR_WIDTH,
    DATE_WIDTH, HASH_WIDTH, LINE_WIDTH,
};
use crate::error::{ErrorKind, WerError};
use crate::locate::{not_a_repository_text, target_error, validate_git_path, PathProbe};
use crate::store::{attributed_lines, blame_file, blame_line, error_text, is_not_found};
use crate::syntax::SyntaxHighlighter;
use crate::text::{chars_of, pad_end, padded_end, repeat_char, repeated, text_of};

verus! {

/// A line without the carriage return that may end it.
pub open spec fn without_return(line: Seq<char>) -> Seq<char> {
    if line.len() > 0 && line.last() == '\r' {
        line.drop_last()
    } else {
        line
    }
}

/// The lines that `text` has completed, and what follows its last line
/// feed.
pub open spec fn scanned_lines(text: Seq<char>) -> (Seq<Seq<char>>, Seq<char>)
    decreases text.len(),
{
    if text.len() == 0 {
        (Seq::empty(), Seq::empty())
    } else {
        let (lines, rest) = scanned_lines(text.drop_last());
        if text.last() == '\n' {
            (lines.push(without_return(rest)), Seq::empty())
        } else {
            (lines, rest.push(text.last()))
        }
    }
}

/// The lines of `text`. A line ends at a line feed, which is no part of it,
/// nor is a carriage return in front of the line feed. What follows the
/// last line feed is a line unless it is empty.
pub open spec fn lines_of(text: Seq<char>) -> Seq<Seq<char>> {
    let (lines, rest) = scanned_lines(text);
    if rest.len() > 0 {
        lines.push(rest)
    } else {
        lines
    }
}

/// Splits a text into its lines.
pub fn split_lines(text: &str) -> (lines: Vec<String>)
    ensures
        lines.deep_view() == lines_of(text@),
{
    let chars = chars_of(text);
    let mut lines: Vec<String> = Vec::new();
    let mut start: usize = 0;
    let mut i: usize = 0;
    proof {
        assert(chars@.take(0) =~= Seq::<char>::empty());
        assert(lines.deep_view() =~= Seq::<Seq<char>>::empty());
        assert(chars@.subrange(0, 0) =~= Seq::<char>::empty());
    }
    while i < chars.len()
        invariant
            start <= i <= chars.len(),
            chars@ == text@,
            lines.deep_view() == scanned_lines(chars@.take(i as int)).0,
            chars@.subrange(start as int, i as int) == scanned_lines(chars@.take(i as int)).1,
        decreases chars.len() - i,
    {
        let ghost before = lines.deep_view();
        let ghost rest = chars@.subrange(start as int, i as int);
        proof {
            let now = chars@.take(i + 1);
            assert(now.drop_last() =~= chars@.take(i as int));
            assert(now.last() == chars@[i as int]);
        }
        if chars[i] == '\n' {
            let end = if start < i && chars[i - 1] == '\r' {
                i - 1
            } else {
                i
            };
            let line = text_of(&chars, start, end);
            proof {
                assert(line@ =~= without_return(rest));
            }
            lines.push(line);
            start = i + 1;
            proof {
                assert(lines.deep_view() =~= before.push(line@));
                assert(chars@.subrange(start as int, i + 1) =~= Seq::<char>::empty());
            }
        } else {
            proof {
                assert(chars@.subrange(start as int, i + 1) =~= rest.push(chars@[i as int]));
            }
        }
        i += 1;
    }
    proof {
        assert(chars@.take(i as int) =~= text@);
    }
    if start < i {
        let ghost before = lines.deep_view();
        let line = text_of(&chars, start, i);
        lines.push(line);
        proof {
            assert(lines.deep_view() =~= before.push(line@));
        }
    }
    lines
}

/// One line of a file with the commit it comes from.
pub struct LineAttribution {
    /// The position of the line in the file, counted from 1.
    pub line_num: usize,
    /// The line as it stands in the file.
    pub text: String,
    /// The line as it is shown: coloured, or as it stands in the file.
    pub display: String,
    /// The commit that last changed the line; none for a line that the
    /// history does not account for.
    pub info: Option<CommitInfo>,
}

impl LineAttribution {
    /// What is shown of the commit of this line: the commit's fields, or
    /// the placeholders of an unknown commit.
    pub open spec fn shown(self) -> CommitText {
        match self.info {
            Some(info) => info@,
            None => unknown_text(),
        }
    }

    /// The row of the table for this line.
    pub open spec fn row_text(self, colors: ColorText, date_only: bool, separate: bool) -> Seq<
        char,
    > {
        if date_only {
            self.shown().date_only_text(colors, self.line_num as nat, self.display@)
        } else {
            self.shown().blame_text(colors, self.line_num as nat, self.display@, separate)
        }
    }
}

/// Whether `rows` attribute the lines of `content`: one row for each line,
/// in order, numbered from 1 without gaps.
pub open spec fn rows_cover(rows: Seq<LineAttribution>, content: Seq<char>) -> bool {
    &&& rows.len() == lines_of(content).len()
    &&& forall|k: int|
        0 <= k < rows.len() ==> (#[trigger] rows[k]).line_num == k + 1 && rows[k].text@ == lines_of(
            content,
        )[k]
}

/// A horizontal rule over the columns of the date-only table or of the
/// full table, between the corner and joint characters given.
pub open spec fn rule_text(left: Seq<char>, joint: Seq<char>, right: Seq<char>, date_only: bool) -> Seq<
    char,
> {
    (if date_only {
        left
    } else {
        left + repeated('─', (HASH_WIDTH + 2) as nat) + joint + repeated(
            '─',
            (AUTHOR_WIDTH + 2) as nat,
        ) + joint
    }) + repeated('─', (DATE_WIDTH + 2) as nat) + joint + repeated('─', (LINE_WIDTH + 2) as nat)
        + joint + repeated('─', CODE_RULE as nat) + right + "\n"@
}

/// Length of the rule over the content column.
pub const CODE_RULE: usize = 100;

/// The line that names the columns.
pub open spec fn heading_text(date_only: bool) -> Seq<char> {
    (if date_only {
        "│ "@
    } else {
        "│ "@ + padded_end("Commit"@, HASH_WIDTH as nat) + " │ "@ + padded_end(
            "Name"@,
            AUTHOR_WIDTH as nat,
        ) + " │ "@
    }) + padded_end("Date"@, DATE_WIDTH as nat) + " │ "@ + padded_end("Line"@, LINE_WIDTH as nat)
        + " │ "@ + "Code"@ + "\n"@
}

/// The rows of the table, one after the other.
pub open spec fn rows_text(
    rows: Seq<LineAttribution>,
    colors: ColorText,
    date_only: bool,
    separate: bool,
) -> Seq<char>
    decreases rows.len(),
{
    if rows.len() == 0 {
        Seq::empty()
    } else {
        rows_text(rows.drop_last(), colors, date_only, separate) + rows.last().row_text(
            colors,
            date_only,
            separate,
        )
    }
}

/// The whole table: top rule, heading, rule, rows, bottom rule.
pub open spec fn table_text(
    rows: Seq<LineAttribution>,
    colors: ColorText,
    date_only: bool,
    separate: bool,
) -> Seq<char> {
    rule_text("┌"@, "┬"@, "┐"@, date_only) + heading_text(date_only) + rule_text(
        "├"@,
        "┼"@,
        "┤"@,
        date_only,
    ) + rows_text(rows, colors, date_only, separate) + rule_text("└"@, "┴"@, "┘"@, date_only)
}

fn rule(left: &str, joint: &str, right: &str, date_only: bool) -> (text: String)
    ensures
        text@ == rule_text(left@, joint@, right@, date_only),
{
    let mut text = String::from_str(left);
    if !date_only {
        text.append(repeat_char('─', HASH_WIDTH + 2).as_str());
        text.append(joint);
        text.append(repeat_char('─', AUTHOR_WIDTH + 2).as_str());
        text.append(joint);
    }
    text.append(repeat_char('─', DATE_WIDTH + 2).as_str());
    text.append(joint);
    text.append(repeat_char('─', LINE_WIDTH + 2).as_str());
    text.append(joint);
    text.append(repeat_char('─', CODE_RULE).as_str());
    text.append(right);
    text.append("\n");
    text
}

fn heading(date_only: bool) -> (text: String)
    ensures
        text@ == heading_text(date_only),
{
    let mut text = String::from_str("│ ");
    if !date_only {
        text.append(pad_end("Commit", HASH_WIDTH).as_str());
        text.append(" │ ");
        text.append(pad_end("Name", AUTHOR_WIDTH).as_str());
        text.append(" │ ");
    }
    text.append(pad_end("Date", DATE_WIDTH).as_str());
    text.append(" │ ");
    text.append(pad_end("Line", LINE_WIDTH).as_str());
    text.append(" │ ");
    text.append("Code");
    text.append("\n");
    text
}

/// Formats the row of one line.
pub fn format_row(row: &LineAttribution, colors: &ColorScheme, date_only: bool, commit_message: bool) -> (text:
    String)
    ensures
        text@ == row.row_text(colors@, date_only, commit_message),
{
    let unknown = CommitInfo::unknown(false);
    let info = match &row.info {
        Some(info) => info,
        None => &unknown,
    };
    if date_only {
        info.format_date_only(colors, row.line_num, row.display.as_str())
    } else {
        info.format_blame(colors, row.line_num, row.display.as_str(), commit_message)
    }
}

/// Formats the table for the attributed lines `rows`.
pub fn render_blame(
    rows: &Vec<LineAttribution>,
    colors: &ColorScheme,
    date_only: bool,
    commit_message: bool,
) -> (text: String)
    ensures
        text@ == table_text(rows@, colors@, date_only, commit_message),
{
    let mut text = rule("┌", "┬", "┐", date_only);
    text.append(heading(date_only).as_str());
    text.append(rule("├", "┼", "┤", date_only).as_str());
    let ghost head = text@;
    let mut k: usize = 0;
    proof {
        assert(rows@.take(0) =~= Seq::<LineAttribution>::empty());
        assert(text@ =~= head + rows_text(rows@.take(0), colors@, date_only, commit_message));
    }
    while k < rows.len()
        invariant
            k <= rows.len(),
            text@ == head + rows_text(rows@.take(k as int), colors@, date_only, commit_message),
        decreases rows.len() - k,
    {
        text.append(format_row(&rows[k], colors, date_only, commit_message).as_str());
        proof {
            let now = rows@.take(k + 1);
            assert(now.drop_last() =~= rows@.take(k as int));
            assert(now.last() == rows@[k as int]);
            assert(text@ =~= head + rows_text(now, colors@, date_only, commit_message));
        }
        k += 1;
    }
    proof {
        assert(rows@.take(k as int) =~= rows@);
    }
    text.append(rule("└", "┴", "┘", date_only).as_str());
    text
}

/// The failure of a file that the history does not know.
pub open spec fn not_tracked_text(path: Seq<char>) -> Seq<char> {
    "File '"@ + path + "' exists but is not tracked by git. Use 'git add "@ + path
        + "' to track it first."@
}

/// Sorts a failure of the line attribution: a file that the history does
/// not know is not tracked; anything else is a failure of the object store.
pub fn blame_failure(path: &str, missing: bool, detail: &str) -> (failure: WerError)
    ensures
        missing ==> failure.kind == ErrorKind::FileNotTracked && failure.message@
            == not_tracked_text(path@),
        !missing ==> failure.kind == ErrorKind::ObjectStoreError && failure.message@
            == "Failed to get blame for file '"@ + path@ + "': "@ + detail@,
{
    if missing {
        let mut message = String::from_str("File '");
        message.append(path);
        message.append("' exists but is not tracked by git. Use 'git add ");
        message.append(path);
        message.append("' to track it first.");
        WerError { kind: ErrorKind::FileNotTracked, message }
    } else {
        let mut message = String::from_str("Failed to get blame for file '");
        message.append(path);
        message.append("': ");
        message.append(detail);
        WerError { kind: ErrorKind::ObjectStoreError, message }
    }
}

/// Whether `rows` pair the lines `lines` with what was found for them:
/// one row for each line, in order and numbered from 1; a line is shown
/// coloured where `coloured` has a text for it and as it stands otherwise;
/// its commit is the one that `answers` has for it, and none where
/// `answers` has none.
pub open spec fn pairs_lines(
    rows: Seq<LineAttribution>,
    lines: Seq<Seq<char>>,
    coloured: Seq<Option<String>>,
    answers: Seq<Option<CommitInfo>>,
) -> bool {
    &&& rows.len() == lines.len()
    &&& forall|k: int|
        0 <= k < rows.len() ==> {
            &&& (#[trigger] rows[k]).line_num == k + 1
            &&& rows[k].text@ == lines[k]
            &&& rows[k].display@ == (if k < coloured.len() && coloured[k] is Some {
                coloured[k]->0@
            } else {
                lines[k]
            })
            &&& rows[k].info == (if k < answers.len() {
                answers[k]
            } else {
                None
            })
        }
}

/// Pairs each line with its coloured form and with the commit found for
/// it.
pub fn pair_lines(
    lines: &Vec<String>,
    coloured: &Vec<Option<String>>,
    answers: &Vec<Option<CommitInfo>>,
) -> (rows: Vec<LineAttribution>)
    ensures
        pairs_lines(rows@, lines.deep_view(), coloured@, answers@),
{
    let mut rows: Vec<LineAttribution> = Vec::new();
    let mut k: usize = 0;
    while k < lines.len()
        invariant
            k <= lines.len(),
            pairs_lines(rows@, lines.deep_view().take(k as int), coloured@, answers@),
        decreases lines.len() - k,
    {
        let text = lines[k].clone();
        let shown = if k < coloured.len() {
            match &coloured[k] {
                Some(shown) => Some(shown.clone()),
                None => None,
            }
        } else {
            None
        };
        let display = match shown {
            Some(display) => display,
            None => text.clone(),
        };
        let info = if k < answers.len() {
            match &answers[k] {
                Some(info) => Some(info.duplicate()),
                None => None,
            }
        } else {
            None
        };
        let ghost before = rows@;
        rows.push(LineAttribution { line_num: k + 1, text, display, info });
        proof {
            assert(lines.deep_view().take(k + 1)[k as int] == lines@[k as int]@);
            assert forall|j: int| 0 <= j < k implies rows@[j] == before[j] && lines.deep_view().take(
                k + 1,
            )[j] == lines.deep_view().take(k as int)[j] by {}
        }
        k += 1;
    }
    proof {
        assert(lines.deep_view().take(k as int) =~= lines.deep_view());
    }
    rows
}

/// Whether what was found for a line is nothing, or what is shown of some
/// commit, the date without its year, fitting the columns.
pub open spec fn shows_a_commit_or_none(found: Option<CommitInfo>) -> bool {
    found matches Some(info) ==> info@.hash.len() <= HASH_WIDTH && info@.author.len()
        <= AUTHOR_WIDTH && exists|commit: git2::Commit| #[trigger] info@.shows_commit(commit, false)
}

/// Attributes each line of `content` to the commit that `blame` names for
/// it, and colours it where a highlighter is given. For each line git2 is
/// asked for its hunk and the hunk's commit; the rows are what
/// `pair_lines` makes of the answers.
pub fn attribute_lines(
    repo: &git2::Repository,
    blame: &git2::Blame,
    content: &str,
    full_path: &str,
    highlighter: &Option<SyntaxHighlighter>,
) -> (rows: Result<Vec<LineAttribution>, WerError>)
    ensures
        match rows {
            Ok(rows) => rows_cover(rows@, content@) && (highlighter is None ==> forall|k: int|
                0 <= k < rows.len() ==> (#[trigger] rows[k]).display@ == rows[k].text@)
                && forall|k: int|
                0 <= k < rows.len() ==> ((#[trigger] rows[k]).info is Some <==> attributed_lines(
                    *blame,
                ).contains((k + 1) as nat)) && shows_a_commit_or_none(rows[k].info),
            Err(failure) => failure.kind == ErrorKind::ObjectStoreError,
        },
{
    let lines = split_lines(content);
    let mut coloured: Vec<Option<String>> = Vec::new();
    let mut answers: Vec<Option<CommitInfo>> = Vec::new();
    let mut k: usize = 0;
    while k < lines.len()
        invariant
            k <= lines.len(),
            coloured.len() == k,
            answers.len() == k,
            highlighter is None ==> forall|j: int| 0 <= j < k ==> (#[trigger] coloured@[j]) is None,
            forall|j: int|
                0 <= j < k ==> ((#[trigger] answers@[j]) is Some <==> attributed_lines(
                    *blame,
                ).contains((j + 1) as nat)) && shows_a_commit_or_none(answers@[j]),
        decreases lines.len() - k,
    {
        let line_num = k + 1;
        let shown = match highlighter {
            Some(highlighter) => highlighter.highlight_line(lines[k].as_str(), full_path, line_num),
            None => None,
        };
        let info = match blame_line(blame, line_num) {
            Some(hunk) => match CommitInfo::from_hunk(repo, &hunk, false) {
                Ok(info) => Some(info),
                Err(failure) => {
                    return Err(failure);
                },
            },
            None => None,
        };
        coloured.push(shown);
        answers.push(info);
        k += 1;
    }
    let rows = pair_lines(&lines, &coloured, &answers);
    proof {
        assert(rows_cover(rows@, content@));
    }
    Ok(rows)
}

/// Whether `text` is the table of `rows`, and `rows` attribute the lines
/// of `content`, each shown as it stands in the file where colours are
/// switched off.
pub open spec fn shows_table(
    text: Seq<char>,
    rows: Seq<LineAttribution>,
    content: Seq<char>,
    no_color: bool,
    date_only: bool,
    separate: bool,
) -> bool {
    &&& rows_cover(rows, content)
    &&& no_color ==> forall|k: int|
        0 <= k < rows.len() ==> (#[trigger] rows[k]).display@ == rows[k].text@
    &&& forall|k: int| 0 <= k < rows.len() ==> shows_a_commit_or_none((#[trigger] rows[k]).info)
    &&& text == table_text(rows, scheme_text(no_color), date_only, separate)
}

/// Writes the blame table of the file of a request. `content` is what the
/// file holds in the working tree, or the reason why it could not be read.
pub fn get_blame(
    path: &str,
    probe: &PathProbe,
    content: &Result<String, String>,
    no_color: bool,
    date_only: bool,
    commit_message: bool,
) -> (answer: Result<String, WerError>)
    ensures
        target_error(path@, *probe, true) matches Some(decided) ==> answer matches Err(failure)
            && decided == (failure.kind, failure.message@),
        target_error(path@, *probe, true) is None ==> (answer matches Err(failure)
            ==> failure.kind == ErrorKind::NotARepository || failure.kind
            == ErrorKind::PathOutsideRepository || failure.kind == ErrorKind::FileNotTracked
            || failure.kind == ErrorKind::ObjectStoreError || failure.kind
            == ErrorKind::FileUnreadable),
        answer matches Err(failure) ==> (failure.kind == ErrorKind::NotARepository
            ==> failure.message@ == not_a_repository_text(path@)) && (failure.kind
            == ErrorKind::FileNotTracked ==> failure.message@ == not_tracked_text(path@)),
        answer is Err && answer->Err_0.kind == ErrorKind::FileUnreadable ==> content is Err
            && answer->Err_0.message@ == "Failed to read file: "@ + content->Err_0@,
        answer matches Ok(text) ==> content matches Ok(held) && exists|rows: Seq<LineAttribution>| #[trigger]
            shows_table(text@, rows, held@, no_color, date_only, commit_message),
{
    let located = match validate_git_path(path, probe, true) {
        Ok(located) => located,
        Err(failure) => {
            return Err(failure);
        },
    };
    let blame = match blame_file(&located.repo, located.relative.to_text().as_str()) {
        Ok(blame) => blame,
        Err(error) => {
            return Err(blame_failure(path, is_not_found(&error), error_text(&error).as_str()));
        },
    };
    let held = match content {
        Ok(held) => held,
        Err(reason) => {
            return Err(
                WerError::with(ErrorKind::FileUnreadable, "Failed to read file: ", reason.as_str()),
            );
        },
    };
    let highlighter = if !no_color {
        Some(SyntaxHighlighter::new())
    } else {
        None
    };
    let colors = ColorScheme::new(no_color);
    let rows = match attribute_lines(
        &located.repo,
        &blame,
        held.as_str(),
        located.full_path.as_str(),
        &highlighter,
    ) {
        Ok(rows) => rows,
        Err(failure) => {
            return Err(failure);
        },
    };
    let answer = Ok(render_blame(&rows, &colors, date_only, commit_message));
    proof {
        assert(shows_table(
            answer->Ok_0@,
            rows@,
            held@,
            no_color,
            date_only,
            commit_message,
        ));
    }
    answer
}

} // verus!
