use asciidoc::{
    bold, heading_block, horizontal_ruled_line_block, inline_code, italic, line_break, list_item,
    marker, monospace, named_atteributes, ordered_list_block, paragraph_block, parse,
    position_attributes, unordered_list_block, value, Attributes, Block, HeadingLevel, Inline,
    ListItem, ParseError,
};

fn text(s: &str) -> Inline {
    Inline::Text(s.to_string())
}

fn boxed(i: Inline) -> Box<Inline> {
    Box::new(i)
}

fn heading(level: HeadingLevel, s: &str) -> Block {
    Block::Heading { level, children: vec![text(s)], id: None }
}

fn normal(level: u32, s: &str) -> ListItem {
    ListItem::Normal { children: vec![text(s)], level }
}

fn first<T>(r: Result<(T, usize), ParseError>) -> Result<T, ParseError> {
    r.map(|(x, _)| x)
}

#[test]
fn test_parse_function() {
    let asciidoc = "
== This is a Heading

This is a Paragraph

== Foobar

This is a *bold* text

This is a _italic_ text

This is a `monospace` text

This is a #marker# text

This is a ```inline code``` text

wrap break *
a

* foo
* bar


. foo
. bar
<<<

";

    let result = parse(asciidoc).unwrap();
    assert_eq!(
        result,
        vec![
            heading(HeadingLevel::Level1, "This is a Heading"),
            Block::BlankSeparator,
            Block::Paragraph { children: vec![text("This is a Paragraph")] },
            Block::BlankSeparator,
            heading(HeadingLevel::Level1, "Foobar"),
            Block::BlankSeparator,
            Block::Paragraph {
                children: vec![
                    text("This is a "),
                    Inline::Bold { child: boxed(text("bold")) },
                    text(" text"),
                ],
            },
            Block::BlankSeparator,
            Block::Paragraph {
                children: vec![
                    text("This is a "),
                    Inline::Italic { child: boxed(text("italic")) },
                    text(" text"),
                ],
            },
            Block::BlankSeparator,
            Block::Paragraph {
                children: vec![
                    text("This is a "),
                    Inline::Monospace { child: boxed(text("monospace")) },
                    text(" text"),
                ],
            },
            Block::BlankSeparator,
            Block::Paragraph {
                children: vec![
                    text("This is a "),
                    Inline::Marker { child: boxed(text("marker")) },
                    text(" text"),
                ],
            },
            Block::BlankSeparator,
            Block::Paragraph {
                children: vec![
                    text("This is a "),
                    Inline::InlineCode { child: boxed(text("inline code")) },
                    text(" text"),
                ],
            },
            Block::BlankSeparator,
            Block::Paragraph {
                children: vec![text("wrap break "), text("*"), Inline::SoftBreak, text("a")],
            },
            Block::BlankSeparator,
            Block::UnorderedList { items: vec![normal(1, "foo"), normal(1, "bar")] },
            Block::BlankSeparator,
            Block::OrderedList { items: vec![normal(1, "foo"), normal(1, "bar")] },
            Block::HorizontalRule,
            Block::BlankSeparator,
        ]
    );
}

#[test]
fn test_inline() {
    let actual = first(asciidoc::inline(" aadf"));
    assert_eq!(actual, Ok(text(" aadf")));
}

#[test]
fn test_block() {
    let actual = first(asciidoc::block("=== Head\n\nHelloWorld"));
    assert_eq!(actual, Ok(heading(HeadingLevel::Level2, "Head")));
}

#[test]
fn test_parse_heading() {
    let (actual, _) = heading_block("= Heading").unwrap();
    assert_eq!(actual, heading(HeadingLevel::Title, "Heading"));

    let (actual, _) = heading_block("== Heading").unwrap();
    assert_eq!(actual, heading(HeadingLevel::Level1, "Heading"));

    let (actual, _) = heading_block("=== Heading").unwrap();
    assert_eq!(actual, heading(HeadingLevel::Level2, "Heading"));

    let (actual, _) = heading_block("==== Heading").unwrap();
    assert_eq!(actual, heading(HeadingLevel::Level3, "Heading"));

    let (actual, _) = heading_block("===== Heading").unwrap();
    assert_eq!(actual, heading(HeadingLevel::Level4, "Heading"));

    let (actual, _) = heading_block("====== Heading").unwrap();
    assert_eq!(actual, Block::Paragraph { children: vec![text("====== "), text("Heading")] });
}

#[test]
fn test_bold() {
    let actual = first(bold("*人間*"));
    assert_eq!(actual, Ok(Inline::Bold { child: boxed(text("人間")) }));
}

#[test]
fn test_italic() {
    let actual = first(italic("_人間_"));
    assert_eq!(actual, Ok(Inline::Italic { child: boxed(text("人間")) }));
}

#[test]
fn test_marker() {
    let actual = first(marker("#人間#"));
    assert_eq!(actual, Ok(Inline::Marker { child: boxed(text("人間")) }));
}

#[test]
fn test_inline_code() {
    let actual = first(inline_code("```npm```"));
    assert_eq!(actual, Ok(Inline::InlineCode { child: boxed(text("npm")) }));

    let actual = first(inline_code("`npm`"));
    assert_eq!(actual, Err(ParseError::StructuralMismatch { position: 1 }));
}

#[test]
fn test_monospace() {
    let actual = first(monospace("`人間`"));
    assert_eq!(actual, Ok(Inline::Monospace { child: boxed(text("人間")) }));
}

#[test]
fn test_value() {
    let actual = first(value("人間"));
    assert_eq!(actual, Ok(text("人間")));
}

#[test]
fn test_line_break() {
    let actual = first(line_break("\n"));
    assert_eq!(actual, Ok(Inline::SoftBreak));

    let actual = line_break("\n\n").is_err();
    assert_eq!(actual, true);

    let actual = first(line_break(" +\n"));
    assert_eq!(actual, Ok(Inline::HardBreak));
}

#[test]
fn test_paragraph() {
    let actual = first(paragraph_block("人間 *a* 人間"));
    assert_eq!(
        actual,
        Ok(Block::Paragraph {
            children: vec![text("人間 "), Inline::Bold { child: boxed(text("a")) }, text(" 人間")],
        })
    );

    let actual = first(paragraph_block("人間 "));
    assert_eq!(actual, Ok(Block::Paragraph { children: vec![text("人間 ")] }));

    let actual = first(paragraph_block("人間"));
    assert_eq!(actual, Ok(Block::Paragraph { children: vec![text("人間")] }));

    let actual = first(paragraph_block("人間\n"));
    assert_eq!(actual, Ok(Block::Paragraph { children: vec![text("人間"), Inline::SoftBreak] }));
}

#[test]
fn test_horizontal_ruled_line_block() {
    let actual = first(horizontal_ruled_line_block("<<<"));
    assert_eq!(actual, Ok(Block::HorizontalRule));

    let actual = first(horizontal_ruled_line_block("<<"));
    assert_eq!(actual, Err(ParseError::UnexpectedEndOfInput));
}

#[test]
fn test_unordered_list() {
    let blocks = "* abc
* def";

    let actual = first(unordered_list_block(blocks));
    assert_eq!(
        actual,
        Ok(Block::UnorderedList { items: vec![normal(1, "abc"), normal(1, "def")] })
    );

    let blocks = "* [x] abc";

    let actual = first(unordered_list_block(blocks));
    assert_eq!(
        actual,
        Ok(Block::UnorderedList {
            items: vec![ListItem::Check { level: 1, children: vec![text("abc")], checked: true }],
        })
    );
}

#[test]
fn test_ordered_list() {
    let blocks = ". abc
. def";

    let actual = first(ordered_list_block(blocks));
    assert_eq!(actual, Ok(Block::OrderedList { items: vec![normal(1, "abc"), normal(1, "def")] }));
}

#[test]
fn test_ordered_list_item() {
    let actual = first(list_item(". foobar *foo* bar _foo_", '.'));
    assert_eq!(
        actual,
        Ok(ListItem::Normal {
            level: 1,
            children: vec![
                text("foobar "),
                Inline::Bold { child: boxed(text("foo")) },
                text(" bar "),
                Inline::Italic { child: boxed(text("foo")) },
            ],
        })
    );

    let actual = first(list_item(". foobar\na", '.'));
    assert_eq!(actual, Ok(normal(1, "foobar")));

    let actual = first(list_item(".. foobar\na", '.'));
    assert_eq!(actual, Ok(normal(2, "foobar")));
}

#[test]
fn test_position_atteributes() {
    let expect_atteributes = vec!["foo".to_string()];

    let actual = first(position_attributes("[foo]"));
    assert_eq!(actual, Ok(Attributes::Positional(expect_atteributes)))
}

#[test]
fn test_position_atteributes_when_multiple() {
    let expect_atteributes = vec!["foo".to_string(), "bar".to_string()];

    let actual = first(position_attributes("[foo,bar]"));
    assert_eq!(actual, Ok(Attributes::Positional(expect_atteributes)))
}

#[test]
fn test_named_atteributes() {
    let expect_atteributes = vec![("foo".to_string(), "bar".to_string())];

    let actual = first(named_atteributes("[foo=bar]"));
    assert_eq!(actual, Ok(Attributes::Named(expect_atteributes)))
}

#[test]
fn test_named_atteributes_when_multiple() {
    let expect_atteributes = vec![
        ("foo".to_string(), "bar".to_string()),
        ("poe".to_string(), "fuga".to_string()),
    ];

    let actual = first(named_atteributes("[foo=bar, poe=fuga]"));
    assert_eq!(actual, Ok(Attributes::Named(expect_atteributes)))
}
