use multiplexer::article::{parse_article, parse_inlines, ArticleBlock, InlineSpan};

#[test]
fn parse_headings_lists_and_fence() {
    let blocks = parse_article(
        "# Report\n\nHello **world** and `src/lib.rs`.\n\n- New file\n- Modified\n\n1. First\n2. Second\n\n```rs\nfn x() {}\n```\n\n> quoted\n",
    );
    assert!(matches!(&blocks[0], ArticleBlock::Heading { level: 1, text } if text == "Report"));
    assert!(matches!(&blocks[1], ArticleBlock::Paragraph(p) if p.contains("Hello")));
    assert!(matches!(&blocks[2], ArticleBlock::Bullet(t) if t == "New file"));
    assert!(matches!(&blocks[3], ArticleBlock::Bullet(t) if t == "Modified"));
    assert!(matches!(&blocks[4], ArticleBlock::Numbered { n: 1, .. }));
    assert!(matches!(&blocks[5], ArticleBlock::Numbered { n: 2, .. }));
    assert!(
        matches!(&blocks[6], ArticleBlock::Fence { lang, body } if lang == "rs" && body.contains("fn x"))
    );
    assert!(matches!(&blocks[7], ArticleBlock::Quote(t) if t == "quoted"));
}

#[test]
fn inlines_split_code_and_strong() {
    let spans = parse_inlines("see `alpha.rs` and **bold** text");
    assert_eq!(
        spans,
        vec![
            InlineSpan::Text("see ".into()),
            InlineSpan::Code("alpha.rs".into()),
            InlineSpan::Text(" and ".into()),
            InlineSpan::Strong("bold".into()),
            InlineSpan::Text(" text".into()),
        ]
    );
    assert_eq!(
        parse_inlines("plain"),
        vec![InlineSpan::Text("plain".into())]
    );
    assert!(parse_article("").is_empty());
    assert_eq!(
        parse_article("just a line"),
        vec![ArticleBlock::Paragraph("just a line".into())]
    );
}
