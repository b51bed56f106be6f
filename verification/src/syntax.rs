//! Colouring of source lines for the terminal.

use vstd::prelude::*;
use vstd::string::*;
use crate::text::{chars_of, same_text, text_of};

verus! {

#[verifier::external_type_specification]
#[verifier::external_body]
pub struct ExSyntaxSet(syntect::parsing::SyntaxSet);

#[verifier::external_type_specification]
#[verifier::external_body]
pub struct ExThemeSet(syntect::highlighting::ThemeSet);

/// `SyntaxSet::load_defaults_newlines`: the syntaxes that syntect ships.
#[verifier::external_body]
fn load_syntaxes() -> (set: syntect::parsing::SyntaxSet) {
    syntect::parsing::SyntaxSet::load_defaults_newlines()
}

/// `ThemeSet::load_defaults`: the themes that syntect ships.
#[verifier::external_body]
fn load_themes() -> (set: syntect::highlighting::ThemeSet) {
    syntect::highlighting::ThemeSet::load_defaults()
}

/// `SyntaxSet::find_syntax_for_file`: the name of the syntax that syntect
/// picks for the file by its name, its extension or its first line; none
/// where it knows none or cannot read the file.
#[verifier::external_body]
fn syntax_for_file(set: &syntect::parsing::SyntaxSet, path: &str) -> (syntax: Option<String>) {
    set.find_syntax_for_file(path).ok().flatten().map(|syntax| syntax.name.clone())
}

/// `SyntaxSet::find_syntax_by_extension`: the name of the syntax for files
/// with the extension `extension`, if the set has one.
#[verifier::external_body]
fn syntax_by_extension(set: &syntect::parsing::SyntaxSet, extension: &str) -> (syntax: Option<
    String,
>) {
    set.find_syntax_by_extension(extension).map(|syntax| syntax.name.clone())
}

/// `SyntaxSet::find_syntax_by_name`, `HighlightLines::new`,
/// `HighlightLines::highlight_line` and `as_24_bit_terminal_escaped`
/// without background: the line with the escape sequences that the theme
/// `theme` gives it under the syntax with the name `syntax`. The syntax is
/// looked up in the set that the line is then parsed with, so the two
/// always belong together. Nothing comes back where the set has no such
/// syntax, the themes hold no such theme, or syntect fails on the line.
#[verifier::external_body]
fn colour_line(
    syntaxes: &syntect::parsing::SyntaxSet,
    themes: &syntect::highlighting::ThemeSet,
    theme: &str,
    syntax: &str,
    line: &str,
) -> (coloured: Option<String>) {
    let syntax = syntaxes.find_syntax_by_name(syntax)?;
    let theme = themes.themes.get(theme)?;
    let mut lines = syntect::easy::HighlightLines::new(syntax, theme);
    let ranges = lines.highlight_line(line, syntaxes).ok()?;
    Some(syntect::util::as_24_bit_terminal_escaped(&ranges[..], false))
}

/// Whether the extension of the file name that ends the path starts
/// behind position `i`: at the last dot of the name, unless the name begins
/// with that dot.
pub open spec fn extension_dot(path: Seq<char>, i: int) -> bool {
    &&& 0 < i < path.len()
    &&& path[i] == '.'
    &&& path[i - 1] != '/'
    &&& forall|j: int| i < j < path.len() ==> path[j] != '.' && path[j] != '/'
}

/// Whether `extension` is the extension of the file name that ends the
/// path: what follows the last dot of the name, and nothing for a name
/// without a dot or with its only dot in front.
pub open spec fn extension_of(path: Seq<char>, extension: Option<Seq<char>>) -> bool {
    match extension {
        Some(text) => exists|i: int| extension_dot(path, i) && text == path.skip(i + 1),
        None => forall|i: int| !extension_dot(path, i),
    }
}

/// The lower-case form of an ASCII letter; any other character unchanged.
pub open spec fn lowered(c: char) -> char {
    if 'A' <= c <= 'Z' {
        ((c as u8) + 32) as char
    } else {
        c
    }
}

/// `text` with its ASCII letters in lower case.
pub open spec fn lowered_text(text: Seq<char>) -> Seq<char> {
    Seq::new(text.len(), |i: int| lowered(text[i]))
}

/// The extension whose syntax stands in for files with the extension
/// `extension`, where the syntaxes at hand may not know it: JavaScript for
/// TypeScript and JSX, Markdown for MDX. Case is ignored.
pub open spec fn stand_in(extension: Seq<char>) -> Option<Seq<char>> {
    let low = lowered_text(extension);
    if low == "ts"@ || low == "tsx"@ || low == "jsx"@ {
        Some("js"@)
    } else if low == "mdx"@ {
        Some("md"@)
    } else {
        None
    }
}

/// Finds the extension of the file at `path`.
pub fn file_extension(path: &str) -> (extension: Option<String>)
    ensures
        extension_of(
            path@,
            match extension {
                Some(text) => Some(text@),
                None => None,
            },
        ),
{
    let chars = chars_of(path);
    let mut i: usize = chars.len();
    while i > 0
        invariant
            i <= chars.len(),
            chars@ == path@,
            forall|j: int| i <= j < chars.len() ==> chars@[j] != '.' && chars@[j] != '/',
        decreases i,
    {
        i -= 1;
        if chars[i] == '/' {
            return None;
        }
        if chars[i] == '.' {
            if i == 0 || chars[i - 1] == '/' {
                return None;
            }
            let text = text_of(&chars, i + 1, chars.len());
            proof {
                assert(extension_dot(path@, i as int));
                assert(text@ =~= path@.skip(i + 1));
            }
            return Some(text);
        }
    }
    None
}

/// `text` with its ASCII letters in lower case.
pub fn to_lower(text: &str) -> (low: String)
    ensures
        low@ == lowered_text(text@),
{
    let chars = chars_of(text);
    let mut low = String::new();
    let mut i: usize = 0;
    while i < chars.len()
        invariant
            i <= chars.len(),
            chars@ == text@,
            low@ == lowered_text(chars@.take(i as int)),
        decreases chars.len() - i,
    {
        let c = chars[i];
        let lower = if 'A' <= c && c <= 'Z' {
            ((c as u8) + 32) as char
        } else {
            c
        };
        low.push(lower);
        i += 1;
        proof {
            assert(low@ =~= lowered_text(chars@.take(i as int)));
        }
    }
    proof {
        assert(chars@.take(i as int) =~= text@);
    }
    low
}

/// Picks the extension whose syntax stands in for `extension`.
pub fn stand_in_extension(extension: &str) -> (other: Option<&'static str>)
    ensures
        match other {
            Some(text) => stand_in(extension@) == Some(text@),
            None => stand_in(extension@) is None,
        },
{
    let low = to_lower(extension);
    if same_text(low.as_str(), "ts") || same_text(low.as_str(), "tsx") || same_text(
        low.as_str(),
        "jsx",
    ) {
        Some("js")
    } else if same_text(low.as_str(), "mdx") {
        Some("md")
    } else {
        None
    }
}

/// The syntaxes and themes that lines are coloured with.
pub struct SyntaxHighlighter {
    syntax_set: syntect::parsing::SyntaxSet,
    theme_set: syntect::highlighting::ThemeSet,
}

impl SyntaxHighlighter {
    /// Loads the syntaxes and themes that syntect ships.
    pub fn new() -> (highlighter: SyntaxHighlighter) {
        SyntaxHighlighter { syntax_set: load_syntaxes(), theme_set: load_themes() }
    }

    /// Colours one line of the file at `file_path` for the terminal;
    /// nothing where the syntax chosen cannot be had or syntect fails on
    /// the line.
    pub fn highlight_line(&self, line: &str, file_path: &str, _line_num: usize) -> (coloured:
        Option<String>) {
        let syntax = self.get_syntax_for_file(file_path);
        colour_line(
            &self.syntax_set,
            &self.theme_set,
            "base16-eighties.dark",
            syntax.as_str(),
            line,
        )
    }

    /// The name of the syntax for the file: what syntect picks for it, else
    /// the syntax of the stand-in for its extension, else plain text.
    fn get_syntax_for_file(&self, file_path: &str) -> (syntax: String) {
        match syntax_for_file(&self.syntax_set, file_path) {
            Some(syntax) => {
                return syntax;
            },
            None => {},
        }
        match file_extension(file_path) {
            Some(extension) => match stand_in_extension(extension.as_str()) {
                Some(other) => match syntax_by_extension(&self.syntax_set, other) {
                    Some(syntax) => {
                        return syntax;
                    },
                    None => {},
                },
                None => {},
            },
            None => {},
        }
        String::from_str("Plain Text")
    }
}

} // verus!
