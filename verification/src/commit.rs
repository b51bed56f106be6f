//! What is shown of a commit, and the lines it is shown in.

use vstd::prelude::*;
use vstd::string::*;
use crate::error::{ErrorKind, WerError};
use crate::store::{
    author_name, commit_author_name, commit_author_seconds, commit_id_hex, commit_id_text,
    commit_seconds, commit_summary, commit_summary_line, find_commit, hunk_commit_id, name_read,
    summary_read,
};
use crate::text::{
    decimal, decimal_digits, first_chars, pad_end, pad_start, padded_end, padded_start, repeat_char,
    repeated, take_chars,
};
use crate::utils::{
    day_month_pattern, day_month_year_pattern, format_timestamp_day_month,
    format_timestamp_day_month_year, utc_text,
};

verus! {

/// Number of characters of a commit identifier that are shown.
pub const HASH_WIDTH: usize = 7;

/// Number of characters of an author's name that are shown.
pub const AUTHOR_WIDTH: usize = 15;

/// Width of the date column of a table.
pub const DATE_WIDTH: usize = 6;

/// Least width of the line-number column of a table.
pub const LINE_WIDTH: usize = 4;

/// Terminal escape sequences placed around identifiers and dates.
pub struct ColorScheme {
    pub commit: &'static str,
    pub date: &'static str,
    pub reset: &'static str,
}

/// The escape sequences of a colour scheme as plain text.
pub struct ColorText {
    pub commit: Seq<char>,
    pub date: Seq<char>,
    pub reset: Seq<char>,
}

impl View for ColorScheme {
    type V = ColorText;

    open spec fn view(&self) -> ColorText {
        ColorText { commit: self.commit@, date: self.date@, reset: self.reset@ }
    }
}

/// The scheme in use: yellow identifiers and cyan dates, or no escape
/// sequences at all where colours are switched off.
pub open spec fn scheme_text(no_color: bool) -> ColorText {
    if no_color {
        ColorText { commit: Seq::empty(), date: Seq::empty(), reset: Seq::empty() }
    } else {
        ColorText { commit: "\x1b[33m"@, date: "\x1b[36m"@, reset: "\x1b[0m"@ }
    }
}

impl ColorScheme {
    /// Yellow identifiers and cyan dates, or no escape sequences at all when
    /// `no_color` is set.
    pub fn new(no_color: bool) -> (colors: ColorScheme)
        ensures
            colors@ == scheme_text(no_color),
    {
        proof {
            reveal_strlit("");
            assert(""@ =~= Seq::<char>::empty());
        }
        if no_color {
            ColorScheme { commit: "", date: "", reset: "" }
        } else {
            ColorScheme { commit: "\x1b[33m", date: "\x1b[36m", reset: "\x1b[0m" }
        }
    }
}

/// The display fields of one commit: the shortened identifier, the shortened
/// author name, the date as text and the first line of the message.
pub struct CommitInfo {
    pub hash: String,
    pub author: String,
    pub date: String,
    pub message: String,
}

/// The display fields of a commit as plain text.
pub struct CommitText {
    pub hash: Seq<char>,
    pub author: Seq<char>,
    pub date: Seq<char>,
    pub message: Seq<char>,
}

impl View for CommitInfo {
    type V = CommitText;

    open spec fn view(&self) -> CommitText {
        CommitText {
            hash: self.hash@,
            author: self.author@,
            date: self.date@,
            message: self.message@,
        }
    }
}

/// The fields shown for a line without attribution.
pub open spec fn unknown_text() -> CommitText {
    CommitText { hash: "~~~~~~~"@, author: "Unknown"@, date: "Unknown"@, message: "Unknown"@ }
}

impl CommitText {
    /// The one-line form: identifier, author and date, then the message either
    /// behind a colon or on a line of its own.
    pub open spec fn regular_text(self, colors: ColorText, separate: bool) -> Seq<char> {
        colors.commit + self.hash + colors.reset + " "@ + self.author + " - "@ + colors.date
            + self.date + colors.reset + (if separate {
            "\n└─ "@
        } else {
            ": "@
        }) + self.message
    }

    /// The date, line number and content cells of a table row, up to the end
    /// of the line.
    pub open spec fn date_cells(self, colors: ColorText, line_num: nat, line: Seq<char>) -> Seq<
        char,
    > {
        colors.date + padded_end(self.date, DATE_WIDTH as nat) + colors.reset + " │ "@
            + padded_start(decimal_digits(line_num), LINE_WIDTH as nat) + " │ "@ + line + "\n"@
    }

    /// A row of the date-only table.
    pub open spec fn date_only_text(self, colors: ColorText, line_num: nat, line: Seq<char>) -> Seq<
        char,
    > {
        "│ "@ + self.date_cells(colors, line_num, line)
    }

    /// The row under a table row that carries the commit message, its other
    /// cells left blank.
    pub open spec fn message_row(self) -> Seq<char> {
        "│ "@ + repeated(' ', HASH_WIDTH as nat) + " │ "@ + repeated(' ', AUTHOR_WIDTH as nat)
            + " │ "@ + repeated(' ', DATE_WIDTH as nat) + " │ "@ + repeated(' ', LINE_WIDTH as nat)
            + " │ └─ "@ + self.message + "\n"@
    }

    /// A row of the full table, followed by the message row where `separate`
    /// is set.
    pub open spec fn blame_text(
        self,
        colors: ColorText,
        line_num: nat,
        line: Seq<char>,
        separate: bool,
    ) -> Seq<char> {
        "│ "@ + colors.commit + padded_end(self.hash, HASH_WIDTH as nat) + colors.reset + " │ "@
            + padded_end(self.author, AUTHOR_WIDTH as nat) + " │ "@ + self.date_cells(
            colors,
            line_num,
            line,
        ) + (if separate {
            self.message_row()
        } else {
            Seq::empty()
        })
    }

    /// Whether these are the fields shown for a commit with the identifier
    /// `id`, the author name `author`, the date text `date` and the summary
    /// `summary`: names and summaries that are missing get a placeholder,
    /// identifier and name are cut to their column widths.
    pub open spec fn describes(
        self,
        id: Seq<char>,
        author: Option<Seq<char>>,
        date: Seq<char>,
        summary: Option<Seq<char>>,
    ) -> bool {
        &&& self.hash == first_chars(id, HASH_WIDTH as nat)
        &&& self.author == first_chars(
            match author {
                Some(name) => name,
                None => "Unknown"@,
            },
            AUTHOR_WIDTH as nat,
        )
        &&& self.date == date
        &&& self.message == match summary {
            Some(line) => line,
            None => "No message"@,
        }
    }

    /// Whether these are the fields shown for a commit with the identifier
    /// `id`, the author name `author`, the commit time `seconds` and the
    /// summary `summary`: identifier, name and summary as `describes` has
    /// them, and the date of that time, written with the year where
    /// `use_year` is set. A time beyond the range of dates leaves the date
    /// open.
    pub open spec fn shows(
        self,
        id: Seq<char>,
        author: Option<Seq<char>>,
        seconds: i64,
        summary: Option<Seq<char>>,
        use_year: bool,
    ) -> bool {
        &&& self.describes(id, author, self.date, summary)
        &&& utc_text(seconds, date_pattern(use_year)) matches Some(text) ==> self.date == text
    }

    /// Whether these are the fields shown for `commit`: for the identifier,
    /// the author's name, the author's time and the summary that it holds.
    pub open spec fn shows_commit(self, commit: git2::Commit, use_year: bool) -> bool {
        self.shows(
            commit_id_hex(commit),
            commit_author_name(commit),
            commit_author_seconds(commit),
            commit_summary_line(commit),
            use_year,
        )
    }
}

/// The pattern under which the date of a commit is written.
pub open spec fn date_pattern(use_year: bool) -> Seq<char> {
    if use_year {
        day_month_year_pattern()
    } else {
        day_month_pattern()
    }
}

impl CommitInfo {
    /// Builds the display fields from what a commit holds.
    pub fn from_parts(id: &str, author: Option<&str>, date: String, summary: Option<&str>) -> (info:
        CommitInfo)
        ensures
            info@.describes(
                id@,
                match author {
                    Some(name) => Some(name@),
                    None => None,
                },
                date@,
                match summary {
                    Some(line) => Some(line@),
                    None => None,
                },
            ),
    {
        let name = match author {
            Some(name) => name,
            None => "Unknown",
        };
        let line = match summary {
            Some(line) => line,
            None => "No message",
        };
        CommitInfo {
            hash: take_chars(id, HASH_WIDTH),
            author: take_chars(name, AUTHOR_WIDTH),
            date,
            message: String::from_str(line),
        }
    }

    /// Builds the display fields from what git2 answered about a commit:
    /// its identifier, its author's name, its time and its summary. An
    /// answer that is an error counts as missing. The date is written with
    /// the year where `use_year` is set.
    pub fn from_fields(
        id: &str,
        author: &Result<String, git2::Error>,
        seconds: i64,
        summary: &Result<Option<String>, git2::Error>,
        use_year: bool,
    ) -> (info: CommitInfo)
        ensures
            info@.shows(id@, name_read(*author), seconds, summary_read(*summary), use_year),
    {
        let date = if use_year {
            format_timestamp_day_month_year(seconds)
        } else {
            format_timestamp_day_month(seconds)
        };
        CommitInfo::from_parts(
            id,
            match author {
                Ok(name) => Some(name.as_str()),
                Err(_) => None,
            },
            date,
            match summary {
                Ok(Some(line)) => Some(line.as_str()),
                _ => None,
            },
        )
    }

    /// Reads the display fields of a commit: the first characters of its
    /// identifier, its author's name cut to the column, the date of the
    /// author's time and its summary. A name or a summary that is no UTF-8
    /// counts as missing.
    pub fn from_commit(commit: &git2::Commit, use_year: bool) -> (info: CommitInfo)
        ensures
            info@.shows_commit(*commit, use_year),
            info@.hash.len() <= HASH_WIDTH,
            info@.author.len() <= AUTHOR_WIDTH,
    {
        let id = commit_id_text(commit);
        let author = author_name(commit);
        let seconds = commit_seconds(commit);
        let summary = commit_summary(commit);
        CommitInfo::from_fields(id.as_str(), &author, seconds, &summary, use_year)
    }

    /// Reads the display fields of the commit that a blame hunk names: what
    /// `from_commit` gives for the commit that git2 finds for the hunk, or
    /// the failure to find it.
    pub fn from_hunk(repo: &git2::Repository, hunk: &git2::BlameHunk, use_year: bool) -> (info:
        Result<CommitInfo, WerError>)
        ensures
            match info {
                Ok(found) => found@.hash.len() <= HASH_WIDTH && found@.author.len() <= AUTHOR_WIDTH
                    && exists|commit: git2::Commit| #[trigger] found@.shows_commit(commit, use_year),
                Err(failure) => failure.kind == ErrorKind::ObjectStoreError,
            },
    {
        match find_commit(repo, hunk_commit_id(hunk)) {
            Ok(commit) => {
                let found = CommitInfo::from_commit(&commit, use_year);
                proof {
                    assert(found@.shows_commit(commit, use_year));
                }
                Ok(found)
            },
            Err(error) => Err(WerError::from_store(&error)),
        }
    }

    /// A copy of these fields.
    pub fn duplicate(&self) -> (copy: CommitInfo)
        ensures
            copy == *self,
    {
        CommitInfo {
            hash: self.hash.clone(),
            author: self.author.clone(),
            date: self.date.clone(),
            message: self.message.clone(),
        }
    }

    /// The record that stands for a line without attribution.
    pub fn unknown(_use_year: bool) -> (info: CommitInfo)
        ensures
            info@ == unknown_text(),
    {
        CommitInfo {
            hash: String::from_str("~~~~~~~"),
            author: String::from_str("Unknown"),
            date: String::from_str("Unknown"),
            message: String::from_str("Unknown"),
        }
    }

    /// Formats the commit for the last-touch output.
    pub fn format_regular(&self, colors: &ColorScheme, commit_message_separate: bool) -> (text:
        String)
        ensures
            text@ == self@.regular_text(colors@, commit_message_separate),
    {
        let mut text = String::from_str(colors.commit);
        text.append(self.hash.as_str());
        text.append(colors.reset);
        text.append(" ");
        text.append(self.author.as_str());
        text.append(" - ");
        text.append(colors.date);
        text.append(self.date.as_str());
        text.append(colors.reset);
        if commit_message_separate {
            text.append("\n└─ ");
        } else {
            text.append(": ");
        }
        text.append(self.message.as_str());
        text
    }

    fn date_cells_text(&self, colors: &ColorScheme, line_num: usize, line: &str) -> (text: String)
        ensures
            text@ == self@.date_cells(colors@, line_num as nat, line@),
    {
        let mut text = String::from_str(colors.date);
        text.append(pad_end(self.date.as_str(), DATE_WIDTH).as_str());
        text.append(colors.reset);
        text.append(" │ ");
        text.append(pad_start(decimal(line_num).as_str(), LINE_WIDTH).as_str());
        text.append(" │ ");
        text.append(line);
        text.append("\n");
        text
    }

    /// Formats one row of the full blame table.
    pub fn format_blame(
        &self,
        colors: &ColorScheme,
        line_num: usize,
        highlighted_line: &str,
        commit_message_separate: bool,
    ) -> (text: String)
        ensures
            text@ == self@.blame_text(
                colors@,
                line_num as nat,
                highlighted_line@,
                commit_message_separate,
            ),
    {
        let mut text = String::from_str("│ ");
        text.append(colors.commit);
        text.append(pad_end(self.hash.as_str(), HASH_WIDTH).as_str());
        text.append(colors.reset);
        text.append(" │ ");
        text.append(pad_end(self.author.as_str(), AUTHOR_WIDTH).as_str());
        text.append(" │ ");
        text.append(self.date_cells_text(colors, line_num, highlighted_line).as_str());
        if commit_message_separate {
            let mut row = String::from_str("│ ");
            row.append(repeat_char(' ', HASH_WIDTH).as_str());
            row.append(" │ ");
            row.append(repeat_char(' ', AUTHOR_WIDTH).as_str());
            row.append(" │ ");
            row.append(repeat_char(' ', DATE_WIDTH).as_str());
            row.append(" │ ");
            row.append(repeat_char(' ', LINE_WIDTH).as_str());
            row.append(" │ └─ ");
            row.append(self.message.as_str());
            row.append("\n");
            text.append(row.as_str());
        } else {
            proof {
                assert(text@ + Seq::<char>::empty() =~= text@);
            }
        }
        text
    }

    /// Formats one row of the date-only blame table.
    pub fn format_date_only(&self, colors: &ColorScheme, line_num: usize, highlighted_line: &str) -> (text:
        String)
        ensures
            text@ == self@.date_only_text(colors@, line_num as nat, highlighted_line@),
    {
        let mut text = String::from_str("│ ");
        text.append(self.date_cells_text(colors, line_num, highlighted_line).as_str());
        text
    }
}

} // verus!
