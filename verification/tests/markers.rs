use review_annotation::labels::default_types;
use review_annotation::marker::{
    closes_early, marker_label, parse_annotation_line, render_marker, split_type_and_span,
    ParsedAnnotation,
};
use review_annotation::scope::{
    has_comment_syntax, strip_comment_leader, BlockComment, LanguageScope, Leader,
};

fn types() -> Vec<String> {
    default_types()
}

fn scope(prefixes: &[&str], block: Option<(&str, &str)>) -> LanguageScope {
    LanguageScope {
        line_comment_prefixes: prefixes.iter().map(|prefix| prefix.to_string()).collect(),
        block_comment: block.map(|(start, end)| BlockComment {
            start: start.to_string(),
            end: end.to_string(),
        }),
    }
}

fn rust() -> LanguageScope {
    scope(&["// ", "/// ", "//! "], Some(("/*", "*/")))
}

fn css() -> LanguageScope {
    scope(&[], Some(("/*", "*/")))
}

fn parse(line: &str, scope: &LanguageScope) -> Option<(String, u32, String, String)> {
    let found: Option<ParsedAnnotation> = parse_annotation_line(line, Some(scope), &types());
    found.map(|a| (a.type_label, a.span_rows, a.text, a.leader))
}

fn marker(label: &str, span: u32, text: &str, leader: &str) -> Option<(String, u32, String, String)> {
    Some((label.to_string(), span, text.to_string(), leader.to_string()))
}

#[test]
fn does_not_parse_a_line_with_no_comment_leader() {
    assert!(parse_annotation_line("[ISSUE] this can panic", None, &types()).is_none());
    assert!(
        parse_annotation_line("see the [ISSUE] tracker for context", None, &types()).is_none()
    );
}

#[test]
fn renders_a_span_only_for_multi_row_comments() {
    assert_eq!(marker_label("ISSUE", 0), "[ISSUE]");
    assert_eq!(marker_label("ISSUE", 3), "[ISSUE:+3]");
}

#[test]
fn splits_a_span_suffix_from_the_type() {
    assert_eq!(split_type_and_span("ISSUE"), Some(("ISSUE", 0)));
    assert_eq!(split_type_and_span("ISSUE:+3"), Some(("ISSUE", 3)));
}

#[test]
fn rejects_a_malformed_span() {
    assert_eq!(split_type_and_span("ISSUE:+x"), None);
    assert_eq!(split_type_and_span("ISSUE:+"), None);
}

#[test]
fn reads_a_span_up_to_its_limit() {
    assert_eq!(split_type_and_span("A:+4294967295"), Some(("A", 4294967295)));
    assert_eq!(split_type_and_span("A:+4294967296"), None);
    assert_eq!(split_type_and_span("A:+0"), Some(("A", 0)));
    assert_eq!(split_type_and_span("A:++2"), None);
    assert_eq!(split_type_and_span("ISSUE:++3"), None);
    assert_eq!(split_type_and_span("A:+-0"), None);
    assert_eq!(split_type_and_span("A:+ 1"), None);
    assert_eq!(split_type_and_span("A:+007"), Some(("A", 7)));
    assert_eq!(split_type_and_span("A:+1:+2"), None);
    assert_eq!(split_type_and_span("A:1"), Some(("A:1", 0)));
}

#[test]
fn reads_a_line_marker() {
    let rust = rust();
    assert_eq!(
        parse("    // [ISSUE] this can panic", &rust),
        marker("ISSUE", 0, "this can panic", "// ")
    );
    assert_eq!(
        parse("// [NOTE:+4]   spaced   out  ", &rust),
        marker("NOTE", 4, "spaced   out", "// ")
    );
    assert_eq!(parse("//   [PRAISE] x", &rust), marker("PRAISE", 0, "x", "// "));
    assert_eq!(parse("// [ISSUE] a */", &rust), marker("ISSUE", 0, "a */", "// "));
    assert_eq!(parse("// [ISSUE] ", &rust), marker("ISSUE", 0, "", "// "));
}

#[test]
fn takes_the_longest_leader() {
    let slashes = scope(&["//", "///"], None);
    assert_eq!(parse("/// [ISSUE] doc", &slashes), marker("ISSUE", 0, "doc", "///"));
    let reversed = scope(&["///", "//"], None);
    assert_eq!(parse("/// [ISSUE] doc", &reversed), marker("ISSUE", 0, "doc", "///"));
    assert_eq!(parse("// [ISSUE] plain", &reversed), marker("ISSUE", 0, "plain", "//"));
}

#[test]
fn prose_is_no_marker() {
    let rust = rust();
    assert_eq!(parse("[ISSUE] bare", &rust), None);
    assert_eq!(parse("// see the [ISSUE] tracker", &rust), None);
    assert_eq!(parse("// [NOTE]worthy behavior", &rust), None);
    assert_eq!(parse("// [NOTE]", &rust), None);
    assert_eq!(parse("// [OTHER] x", &rust), None);
    assert_eq!(parse("// [note] x", &rust), None);
    assert_eq!(parse("// [NOTE x", &rust), None);
    assert_eq!(parse("// [NOTE:+x] x", &rust), None);
    assert_eq!(parse("// [NOTE:++3] x", &rust), None);
    assert_eq!(parse("", &rust), None);
}

#[test]
fn a_block_marker_is_the_whole_row() {
    let css = css();
    assert_eq!(parse("  /* [ISSUE] x */", &css), marker("ISSUE", 0, "x", "/*"));
    assert_eq!(parse("/*[ISSUE:+2] x*/  ", &css), marker("ISSUE", 2, "x", "/*"));
    assert_eq!(parse("/* [ISSUE] x */ call();", &css), None);
    assert_eq!(parse("/* [ISSUE] x */ call(); /* t */", &css), None);
    assert_eq!(parse("/* [ISSUE] x", &css), None);
    // Without a terminator no block comment can be told to close.
    let open = scope(&[], Some(("#", "")));
    assert_eq!(parse("# [ISSUE] x", &open), None);
}

#[test]
fn strips_the_leader_that_opens_the_row() {
    let rust = rust();
    let (rest, kind, leader) = strip_comment_leader("  //!  hi", Some(&rust)).unwrap();
    assert_eq!((rest, kind, leader), ("hi", Leader::Line, "//! "));
    let (rest, kind, leader) = strip_comment_leader("/* hi */", Some(&rust)).unwrap();
    assert_eq!((rest, kind, leader), ("hi */", Leader::Block, "/*"));
    assert!(strip_comment_leader("hi", Some(&rust)).is_none());
    assert!(strip_comment_leader("// hi", None).is_none());
}

#[test]
fn knows_where_comments_exist() {
    assert!(has_comment_syntax(Some(&rust())));
    assert!(has_comment_syntax(Some(&css())));
    assert!(has_comment_syntax(Some(&scope(&["# "], None))));
    assert!(!has_comment_syntax(Some(&scope(&[], None))));
    assert!(!has_comment_syntax(None));
}

#[test]
fn writes_what_it_reads() {
    let rust = rust();
    let row = render_marker("  ", Some(&rust), &None, "[ISSUE:+2]", "look here").unwrap();
    assert_eq!(row, "  // [ISSUE:+2] look here");
    assert_eq!(parse(&row, &rust), marker("ISSUE", 2, "look here", "// "));
    let css = css();
    let row = render_marker("\t", Some(&css), &None, "[NOTE]", "look here").unwrap();
    assert_eq!(row, "\t/* [NOTE] look here */");
    assert_eq!(parse(&row, &css), marker("NOTE", 0, "look here", "/*"));
    assert_eq!(render_marker("", None, &None, "[NOTE]", "x"), None);
    assert_eq!(render_marker("", Some(&scope(&[], None)), &None, "[NOTE]", "x"), None);
}

#[test]
fn rewriting_keeps_the_comment_style() {
    let rust = rust();
    let doc = parse_annotation_line("/// [ISSUE] doc", Some(&rust), &types());
    assert_eq!(
        render_marker("", Some(&rust), &doc, "[NOTE]", "new").unwrap(),
        "/// [NOTE] new"
    );
    let block = parse_annotation_line("/* [ISSUE] doc */", Some(&rust), &types());
    assert!(block.is_some());
    assert_eq!(
        render_marker("  ", Some(&rust), &block, "[NOTE]", "new").unwrap(),
        "  /* [NOTE] new */"
    );
    // A leader that the language does not have gives way to its first one.
    let hash = parse_annotation_line("# [ISSUE] x", Some(&scope(&["# "], None)), &types());
    assert!(hash.is_some());
    assert_eq!(
        render_marker("", Some(&rust), &hash, "[NOTE]", "new").unwrap(),
        "// [NOTE] new"
    );
}

#[test]
fn rewriting_unchanged_gives_the_same_row() {
    for (scope, row) in [(rust(), "  /// [NOTE:+7] as it is"), (css(), "  /* [NOTE:+7] as it is */")] {
        let read = parse_annotation_line(row, Some(&scope), &types());
        let (label, text) = match &read {
            Some(a) => (marker_label(&a.type_label, a.span_rows), a.text.clone()),
            None => panic!("the row is a marker"),
        };
        assert_eq!(render_marker("  ", Some(&scope), &read, &label, &text).unwrap(), row);
    }
}

#[test]
fn only_a_block_comment_closes_early() {
    assert_eq!(closes_early(Some(&css()), &None, "a */ b"), Some("*/"));
    assert_eq!(closes_early(Some(&css()), &None, "a * / b"), None);
    assert_eq!(closes_early(Some(&rust()), &None, "a */ b"), None);
    assert_eq!(closes_early(None, &None, "a */ b"), None);
    let block = parse_annotation_line("/* [ISSUE] doc */", Some(&rust()), &types());
    assert_eq!(closes_early(Some(&rust()), &block, "a */ b"), Some("*/"));
    assert_eq!(closes_early(Some(&rust()), &block, "a b"), None);
    let line = parse_annotation_line("/// [ISSUE] doc", Some(&rust()), &types());
    assert_eq!(closes_early(Some(&rust()), &line, "a */ b"), None);
}
