use wer::syntax::{file_extension, stand_in_extension, to_lower, SyntaxHighlighter};

#[test]
fn extension_follows_the_last_dot_of_the_name() {
    assert_eq!(file_extension("main.rs").as_deref(), Some("rs"));
    assert_eq!(file_extension("/a/b/archive.tar.gz").as_deref(), Some("gz"));
    assert_eq!(file_extension("dir.d/file.TXT").as_deref(), Some("TXT"));
    assert_eq!(file_extension("trailing.").as_deref(), Some(""));
}

#[test]
fn names_without_a_dot_inside_have_no_extension() {
    assert_eq!(file_extension("Makefile"), None);
    assert_eq!(file_extension(".gitignore"), None);
    assert_eq!(file_extension("dir.d/Makefile"), None);
    assert_eq!(file_extension("dir/.hidden"), None);
    assert_eq!(file_extension(""), None);
    assert_eq!(file_extension("dir.d/"), None);
}

#[test]
fn hidden_file_with_an_extension() {
    assert_eq!(file_extension(".config.json").as_deref(), Some("json"));
    assert_eq!(file_extension("a/.config.json").as_deref(), Some("json"));
}

#[test]
fn lower_case_changes_ascii_letters_only() {
    assert_eq!(to_lower("TsX"), "tsx");
    assert_eq!(to_lower("already"), "already");
    assert_eq!(to_lower("A1-Z_[@`{"), "a1-z_[@`{");
    assert_eq!(to_lower("ÄÖ"), "ÄÖ");
    assert_eq!(to_lower(""), "");
}

#[test]
fn typescript_and_jsx_stand_on_javascript() {
    assert_eq!(stand_in_extension("ts"), Some("js"));
    assert_eq!(stand_in_extension("tsx"), Some("js"));
    assert_eq!(stand_in_extension("jsx"), Some("js"));
    assert_eq!(stand_in_extension("TS"), Some("js"));
    assert_eq!(stand_in_extension("Jsx"), Some("js"));
}

#[test]
fn mdx_stands_on_markdown() {
    assert_eq!(stand_in_extension("mdx"), Some("md"));
    assert_eq!(stand_in_extension("MDX"), Some("md"));
}

#[test]
fn other_extensions_have_no_stand_in() {
    assert_eq!(stand_in_extension("rs"), None);
    assert_eq!(stand_in_extension("js"), None);
    assert_eq!(stand_in_extension("md"), None);
    assert_eq!(stand_in_extension(""), None);
    assert_eq!(stand_in_extension("tsxx"), None);
    assert_eq!(stand_in_extension("t"), None);
}

fn without_escapes(text: &str) -> String {
    let mut plain = String::new();
    let mut chars = text.chars();
    while let Some(c) = chars.next() {
        if c == '\x1b' {
            for d in chars.by_ref() {
                if d == 'm' {
                    break;
                }
            }
        } else {
            plain.push(c);
        }
    }
    plain
}

#[test]
fn highlighting_adds_colours_and_keeps_the_text() {
    let highlighter = SyntaxHighlighter::new();
    let line = "fn main() { let x = 1; }";
    let coloured = highlighter.highlight_line(line, "/nowhere/main.rs", 1).unwrap();
    assert!(coloured.contains("\x1b[38;2;"));
    assert_ne!(coloured, line);
    assert_eq!(without_escapes(&coloured), line);
}

#[test]
fn typescript_is_coloured_like_javascript() {
    let highlighter = SyntaxHighlighter::new();
    let line = "const x = function () { return 1; };";
    let as_ts = highlighter.highlight_line(line, "/nowhere/app.ts", 1).unwrap();
    let as_js = highlighter.highlight_line(line, "/nowhere/app.js", 1).unwrap();
    assert_eq!(as_ts, as_js);
    let as_text = highlighter.highlight_line(line, "/nowhere/app.unknown-kind", 1).unwrap();
    assert_ne!(as_ts, as_text);
    assert_eq!(without_escapes(&as_text), line);
}

#[test]
fn every_syntax_is_found_again_by_its_name() {
    let set = syntect::parsing::SyntaxSet::load_defaults_newlines();
    assert!(set.find_syntax_by_name("Plain Text").is_some());
    for syntax in set.syntaxes() {
        let again = set.find_syntax_by_name(&syntax.name).unwrap();
        assert!(std::ptr::eq(again, syntax), "two syntaxes are named {}", syntax.name);
    }
}

#[test]
fn colouring_is_what_syntect_gives_for_the_syntax_of_the_file() {
    let set = syntect::parsing::SyntaxSet::load_defaults_newlines();
    let themes = syntect::highlighting::ThemeSet::load_defaults();
    let line = "fn main() { let x = 1; }";
    let syntax = set.find_syntax_by_extension("rs").unwrap();
    let mut lines =
        syntect::easy::HighlightLines::new(syntax, &themes.themes["base16-eighties.dark"]);
    let ranges = lines.highlight_line(line, &set).unwrap();
    let expected = syntect::util::as_24_bit_terminal_escaped(&ranges[..], false);
    let highlighter = SyntaxHighlighter::new();
    assert_eq!(highlighter.highlight_line(line, "/nowhere/main.rs", 1).unwrap(), expected);
}
