use markup::Formatter;
use markup::H1Formatter;
use markup::H2Formatter;
use markup::ItalicsFormatter;

#[test]
fn heading_marker_mid_line_is_not_converted() {
    let out = markup::format("Text # Heading", H1Formatter::new());
    assert_eq!("Text # Heading", out);
}

#[test]
fn heading_marker_at_line_start_is_converted() {
    let out = markup::format("# Heading", H1Formatter::new());
    assert_eq!("<h1>Heading</h1>", out);
}

#[test]
fn snake_case_is_left_alone_by_italics() {
    let out = markup::format("snake_case", ItalicsFormatter::new());
    assert_eq!("snake_case", out);
}

#[test]
fn two_spans_on_one_line_collapse_into_one() {
    let out = markup::format("a _one_ and _two_ b", ItalicsFormatter::new());
    assert_eq!("a <i>one_ and _two</i> b", out);
}

#[test]
fn heading_one_leaves_heading_two_lines_alone() {
    let input = "# A simple page\n\n## With minimal content";
    let expected = "<h1>A simple page</h1>\n\n## With minimal content";
    assert_eq!(expected, markup::format(input, H1Formatter::new()));
}

#[test]
fn heading_two_title_keeps_an_embedded_marker() {
    let out = markup::format("## Paragraph # 2", H2Formatter::new());
    assert_eq!("<h2>Paragraph # 2</h2>", out);
}

#[test]
fn heading_rules_applied_in_either_order_agree() {
    let input = "# Title\n\n## Subtitle\n\nPlain text\n\n## Another";
    let first_h1 = markup::format(&markup::format(input, H1Formatter::new()), H2Formatter::new());
    let first_h2 = markup::format(&markup::format(input, H2Formatter::new()), H1Formatter::new());
    assert_eq!(first_h1, first_h2);
}

#[test]
fn chaining_all_three_rules_composes() {
    let input = "# One\n\n## Two\n\na _b_ c";
    let step1 = markup::format(input, H1Formatter::new());
    let step2 = markup::format(&step1, H2Formatter::new());
    let step3 = markup::format(&step2, ItalicsFormatter::new());
    assert_eq!("<h1>One</h1>\n\n<h2>Two</h2>\n\na <i>b</i> c", step3);
}

#[test]
fn no_match_returns_the_input_unchanged() {
    let inputs = ["", "plain text", "#", "# ", "##", "nothing _here", "a\nb\nc"];
    for input in inputs {
        assert_eq!(input, markup::format(input, H1Formatter::new()));
    }
    assert_eq!("# only h1 here", markup::format("# only h1 here", H2Formatter::new()));
}

#[test]
fn custom_rule_compiles_and_applies() {
    let f = Formatter::new("^# (?P<title>.+)$", true, "<h1>${title}</h1>").unwrap();
    assert_eq!("<h1>Hello</h1>", markup::format("# Hello", f));
}

#[test]
fn custom_rule_without_line_anchoring_spans_the_whole_input() {
    let f = Formatter::new("\\b_(?P<contents>.+)_\\b", false, "<i>${contents}</i>").unwrap();
    assert_eq!("a <i>word</i> b", markup::format("a _word_ b", f));
}

#[test]
fn invalid_patterns_are_construction_errors() {
    assert!(Formatter::new("", true, "x").is_err());
    assert!(Formatter::new("no group", true, "x").is_err());
    assert!(Formatter::new("(?P<>.+)", true, "x").is_err());
    assert!(Formatter::new("(?P<name>a+)", true, "x").is_err());
    assert!(Formatter::new("(?P<name>.+", true, "x").is_err());
    assert!(Formatter::new("a.b(?P<name>.+)", true, "x").is_err());
    assert!(Formatter::new("(?P<a>.+)(?P<b>.+)", true, "x").is_err());
    assert!(Formatter::new("\\w(?P<a>.+)", true, "x").is_err());
    assert!(Formatter::new("a*(?P<a>.+)", true, "x").is_err());
    assert!(Formatter::new("[ab](?P<a>.+)", true, "x").is_err());
    assert!(Formatter::new("(?P<a>.+)|b", true, "x").is_err());
    assert!(Formatter::new("(?P<a b>.+)", true, "x").is_err());
}

#[test]
fn unknown_placeholder_expands_to_nothing() {
    let f = Formatter::new("^# (?P<title>.+)$", true, "<h1>${other}</h1>").unwrap();
    assert_eq!("<h1></h1>", markup::format("# Hello", f));
}

#[test]
fn dollar_without_braced_name_is_literal() {
    let f = Formatter::new("^# (?P<title>.+)$", true, "$5 and ${title}").unwrap();
    assert_eq!("$5 and Hello", markup::format("# Hello", f));
}

#[test]
fn rules_are_reusable_across_calls() {
    let f = H1Formatter::new();
    assert_eq!("<h1>a</h1>", markup::format("# a", f));
    let f = H1Formatter::new();
    assert_eq!("<h1>b</h1>", markup::format("# b", f));
}

#[test]
fn empty_title_lines_do_not_match() {
    assert_eq!("# \n## ", markup::format(&markup::format("# \n## ", H1Formatter::new()), H2Formatter::new()));
}

#[test]
fn italics_does_not_cross_line_breaks() {
    let out = markup::format("start _one\ntwo_ end", ItalicsFormatter::new());
    assert_eq!("start _one\ntwo_ end", out);
}
