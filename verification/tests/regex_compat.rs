//! The dialect is a subset of the common regular-expression notation, so
//! every rule that the library compiles can also be handed to the regex
//! crate.  These tests check that both give the same replacement on a
//! range of inputs.

fn regex_apply(pattern: &str, multi_line: bool, template: &str, input: &str) -> String {
    let re = regex::RegexBuilder::new(pattern).multi_line(multi_line).build().unwrap();
    re.replace_all(input, template).into_owned()
}

fn dialect_apply(pattern: &str, multi_line: bool, template: &str, input: &str) -> String {
    let f = markup::Formatter::new(pattern, multi_line, template).unwrap();
    markup::format(input, f)
}

fn check_agreement(pattern: &str, multi_line: bool, template: &str, inputs: &[&str]) {
    for input in inputs {
        assert_eq!(
            regex_apply(pattern, multi_line, template, input),
            dialect_apply(pattern, multi_line, template, input),
            "pattern {:?} on input {:?}",
            pattern,
            input
        );
    }
}

const INPUTS: &[&str] = &[
    "",
    "plain text",
    "# Heading",
    "## Heading",
    "#Heading",
    "# ",
    "# x",
    "Text # Heading",
    "# A simple page\n\n## With minimal content",
    "\n# first\n# second\n",
    "## Paragraph # 2",
    "# trailing newline\n",
    "# with\r\ncarriage returns\r\n## too",
    "_a_",
    "a _one_ and _two_ b",
    "snake_case",
    "__",
    "_ _",
    "start _one\ntwo_ end",
    "Paragraph with _something italicized_ inside it. And with a snake_case variable",
    "_unclosed",
    "closing_ only",
];

#[test]
fn agrees_with_regex_on_heading_one() {
    check_agreement(r"^# (?P<title>.+)$", true, "<h1>${title}</h1>", INPUTS);
}

#[test]
fn agrees_with_regex_on_heading_two() {
    check_agreement(r"^## (?P<title>.+)$", true, "<h2>${title}</h2>", INPUTS);
}

#[test]
fn agrees_with_regex_on_italics() {
    check_agreement(r"\b_(?P<contents>.+)_\b", false, "<i>${contents}</i>", INPUTS);
}

#[test]
fn agrees_with_regex_on_whole_line_capture() {
    check_agreement(r"^(?P<line>.+)$", true, "[${line}]", INPUTS);
}

#[test]
fn agrees_with_regex_on_word_spans() {
    check_agreement(r"\b(?P<word>.+)\b", false, "(${word})", INPUTS);
}

#[test]
fn agrees_with_regex_on_unanchored_literals() {
    check_agreement(r"x(?P<v>.+)y", false, "${v}", &["xay", "xy", "x123y x456y", "no match"]);
}

#[test]
fn agrees_with_regex_on_unknown_placeholder() {
    check_agreement(r"^# (?P<title>.+)$", true, "<h1>${other}</h1>", INPUTS);
}

#[test]
fn compiled_rules_agree_with_the_presets() {
    for input in INPUTS {
        assert_eq!(
            dialect_apply(r"^# (?P<title>.+)$", true, "<h1>${title}</h1>", input),
            markup::format(input, markup::H1Formatter::new())
        );
        assert_eq!(
            dialect_apply(r"^## (?P<title>.+)$", true, "<h2>${title}</h2>", input),
            markup::format(input, markup::H2Formatter::new())
        );
        assert_eq!(
            dialect_apply(r"\b_(?P<contents>.+)_\b", false, "<i>${contents}</i>", input),
            markup::format(input, markup::ItalicsFormatter::new())
        );
    }
}

#[test]
fn presets_agree_with_their_regex_counterparts() {
    for input in INPUTS {
        assert_eq!(
            regex_apply(r"^# (?P<title>.+)$", true, "<h1>${title}</h1>", input),
            markup::format(input, markup::H1Formatter::new())
        );
        assert_eq!(
            regex_apply(r"^## (?P<title>.+)$", true, "<h2>${title}</h2>", input),
            markup::format(input, markup::H2Formatter::new())
        );
        assert_eq!(
            regex_apply(r"\b_(?P<contents>.+)_\b", false, "<i>${contents}</i>", input),
            markup::format(input, markup::ItalicsFormatter::new())
        );
    }
}
