use asciidoc::{
    attribute_list, blank_block, bold, named_atteributes, parse, position_attributes, Attributes,
    Block, HeadingLevel, Inline, ListItem, ParseError,
};

fn text(s: &str) -> Inline {
    Inline::Text(s.to_string())
}

fn pairs(v: &[(&str, &str)]) -> Attributes {
    Attributes::Named(v.iter().map(|(k, x)| (k.to_string(), x.to_string())).collect())
}

fn tokens(v: &[&str]) -> Attributes {
    Attributes::Positional(v.iter().map(|t| t.to_string()).collect())
}

#[test]
fn heading_levels_follow_marker_count() {
    let levels = [
        HeadingLevel::Title,
        HeadingLevel::Level1,
        HeadingLevel::Level2,
        HeadingLevel::Level3,
        HeadingLevel::Level4,
    ];
    for (n, level) in levels.iter().enumerate() {
        let input = format!("{} Section title", "=".repeat(n + 1));
        assert_eq!(
            parse(&input).unwrap(),
            vec![Block::Heading { level: *level, children: vec![text("Section title")], id: None }]
        );
    }
}

#[test]
fn six_markers_make_a_paragraph() {
    assert_eq!(
        parse("====== Heading").unwrap(),
        vec![Block::Paragraph { children: vec![text("====== "), text("Heading")] }]
    );
    assert_eq!(
        parse("=======  Deep").unwrap(),
        vec![Block::Paragraph { children: vec![text("=======  "), text("Deep")] }]
    );
}

#[test]
fn two_newlines_are_one_blank_separator() {
    assert_eq!(asciidoc::block("\n\n"), Ok((Block::BlankSeparator, 2)));
    assert_eq!(blank_block("\n\n"), Ok((Block::BlankSeparator, 2)));
    assert_eq!(blank_block("\nx"), Err(ParseError::StructuralMismatch { position: 1 }));
}

#[test]
fn leading_blank_lines_are_skipped() {
    assert_eq!(parse("\n\n").unwrap(), vec![]);
    assert_eq!(parse("").unwrap(), vec![]);
    assert_eq!(parse("  \n a").unwrap(), vec![Block::Paragraph { children: vec![text("a")] }]);
}

#[test]
fn nested_emphasis() {
    assert_eq!(
        asciidoc::inline("*_a_*"),
        Ok((Inline::Bold { child: Box::new(Inline::Italic { child: Box::new(text("a")) }) }, 5))
    );
}

#[test]
fn tight_unordered_list() {
    assert_eq!(
        parse("* abc\n* def").unwrap(),
        vec![Block::UnorderedList {
            items: vec![
                ListItem::Normal { children: vec![text("abc")], level: 1 },
                ListItem::Normal { children: vec![text("def")], level: 1 },
            ],
        }]
    );
}

#[test]
fn check_boxes() {
    assert_eq!(
        parse("* [x] abc").unwrap(),
        vec![Block::UnorderedList {
            items: vec![ListItem::Check { children: vec![text("abc")], level: 1, checked: true }],
        }]
    );
    assert_eq!(
        parse("** [ ] todo").unwrap(),
        vec![Block::UnorderedList {
            items: vec![ListItem::Check { children: vec![text("todo")], level: 2, checked: false }],
        }]
    );
}

#[test]
fn soft_hard_and_blank_breaks() {
    assert_eq!(
        parse("a\nb").unwrap(),
        vec![Block::Paragraph { children: vec![text("a"), Inline::SoftBreak, text("b")] }]
    );
    assert_eq!(
        parse("a +\nb").unwrap(),
        vec![Block::Paragraph { children: vec![text("a"), Inline::HardBreak, text("b")] }]
    );
    assert_eq!(
        parse("a\n\nb").unwrap(),
        vec![
            Block::Paragraph { children: vec![text("a")] },
            Block::BlankSeparator,
            Block::Paragraph { children: vec![text("b")] },
        ]
    );
}

#[test]
fn attribute_forms() {
    assert_eq!(
        attribute_list("[foo=bar,poe=fuga]"),
        Ok((pairs(&[("foo", "bar"), ("poe", "fuga")]), 18))
    );
    assert_eq!(attribute_list("[foo,bar]"), Ok((tokens(&["foo", "bar"]), 9)));
    assert_eq!(attribute_list("[a=b,c]"), Ok((tokens(&["a=b", "c"]), 7)));
}

#[test]
fn repeated_key_keeps_last_value() {
    assert_eq!(named_atteributes("[a=1,b=2,a=3]"), Ok((pairs(&[("a", "3"), ("b", "2")]), 13)));
}

#[test]
fn unclosed_attributes_fail() {
    assert_eq!(named_atteributes("[foo=bar"), Err(ParseError::UnexpectedEndOfInput));
    assert_eq!(position_attributes("[foo,]"), Err(ParseError::StructuralMismatch { position: 5 }));
    assert_eq!(position_attributes("foo"), Err(ParseError::StructuralMismatch { position: 0 }));
}

#[test]
fn parsing_twice_gives_equal_trees() {
    let input = "== Title\n\nSome *bold* and `code`\n* item\n. other\n<<<\n";
    assert_eq!(parse(input), parse(input));
}

#[test]
fn multibyte_text_stays_whole() {
    assert_eq!(
        parse("日本語のテキスト、ασδφ").unwrap(),
        vec![Block::Paragraph { children: vec![text("日本語のテキスト、ασδφ")] }]
    );
    assert_eq!(
        parse("= 見出し").unwrap(),
        vec![Block::Heading {
            level: HeadingLevel::Title,
            children: vec![text("見出し")],
            id: None
        }]
    );
}

#[test]
fn unterminated_span_errors() {
    assert_eq!(bold("*abc"), Err(ParseError::UnexpectedEndOfInput));
    assert_eq!(bold("*abc\n\n*"), Err(ParseError::StructuralMismatch { position: 4 }));
    assert_eq!(
        parse("*abc").unwrap(),
        vec![Block::UnorderedList {
            items: vec![ListItem::Normal { children: vec![text("abc")], level: 1 }],
        }]
    );
    assert_eq!(
        parse("x *abc").unwrap(),
        vec![Block::Paragraph { children: vec![text("x "), text("*"), text("abc")] }]
    );
}

#[test]
fn list_item_ignores_marker_span_and_breaks() {
    assert_eq!(
        asciidoc::list_item(". #a# +", '.'),
        Ok((
            ListItem::Normal { children: vec![text("#"), text("a"), text("#"), text(" +")], level: 1 },
            7
        ))
    );
}

#[test]
fn inline_code_before_monospace() {
    assert_eq!(
        asciidoc::inline("```x```"),
        Ok((Inline::InlineCode { child: Box::new(text("x")) }, 7))
    );
    assert_eq!(asciidoc::inline("`x`"), Ok((Inline::Monospace { child: Box::new(text("x")) }, 3)));
}

#[test]
fn lists_then_rule() {
    assert_eq!(
        parse(". a\n\n<<<").unwrap(),
        vec![
            Block::OrderedList { items: vec![ListItem::Normal { children: vec![text("a")], level: 1 }] },
            Block::Paragraph { children: vec![Inline::SoftBreak, text("<<<")] },
        ]
    );
    assert_eq!(
        parse(". a
<<<").unwrap(),
        vec![
            Block::OrderedList { items: vec![ListItem::Normal { children: vec![text("a")], level: 1 }] },
            Block::HorizontalRule,
        ]
    );
}
