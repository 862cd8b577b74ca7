use markup::Formatter;
use markup::H1Formatter;
use markup::H2Formatter;
use markup::ItalicsFormatter;

#[test]
fn it_converts_h1s() {
    let formatter: Formatter = H1Formatter::new();
    let input: &str = "
# A simple page

## With minimal content

Including a list below

- Item #1
- Item #2

# And two h1 elements";
    let expected: &str = "
<h1>A simple page</h1>

## With minimal content

Including a list below

- Item #1
- Item #2

<h1>And two h1 elements</h1>";
    assert_eq!(expected, markup::format(input, formatter));
}

#[test]
fn it_converts_h2s() {
    let formatter: Formatter = H2Formatter::new();
    let input: &str = "
# Title

## Subtitle

Paragraph one

## Paragraph # 2

- List item that is _important_";
    let expected: &str = "
# Title

<h2>Subtitle</h2>

Paragraph one

<h2>Paragraph # 2</h2>

- List item that is _important_";
    assert_eq!(expected, markup::format(input, formatter));
}

#[test]
fn it_converts_italics() {
    let formatter: Formatter = ItalicsFormatter::new();
    let input: &str = "
# Title

## Subtitle

Paragraph with _something italicized_ inside it. And with a snake_case variable

# And a title with an _italics_ word";
    let expected: &str = "
# Title

## Subtitle

Paragraph with <i>something italicized</i> inside it. And with a snake_case variable

# And a title with an <i>italics</i> word";
    assert_eq!(expected, markup::format(input, formatter));
}

#[test]
fn it_converts_multiple_styles() {
    let mut formatter: Formatter = H1Formatter::new();
    let input: &str = "
# Title

## Subtitle

Paragraph with _something italicized_ inside it. And with a snake_case variable

# And a title with an _italics_ word";
    let expected: &str = "
<h1>Title</h1>

## Subtitle

Paragraph with _something italicized_ inside it. And with a snake_case variable

<h1>And a title with an _italics_ word</h1>";
    let h1_replaced: String = markup::format(input, formatter);
    assert_eq!(expected, h1_replaced);
    let expected_h2: &str = "
<h1>Title</h1>

<h2>Subtitle</h2>

Paragraph with _something italicized_ inside it. And with a snake_case variable

<h1>And a title with an _italics_ word</h1>";
    formatter = H2Formatter::new();
    let h2_replaced = markup::format(&h1_replaced, formatter);
    assert_eq!(expected_h2, h2_replaced);
    let expected_italics: &str = "
<h1>Title</h1>

<h2>Subtitle</h2>

Paragraph with <i>something italicized</i> inside it. And with a snake_case variable

<h1>And a title with an <i>italics</i> word</h1>";
    formatter = ItalicsFormatter::new();
    let italics_replaced = markup::format(&h2_replaced, formatter);
    assert_eq!(expected_italics, italics_replaced);
}
