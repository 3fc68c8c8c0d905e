use editor_core::highlight::{HighlightType, LanguageHighlightTypeMapping, PythonMapping};
use editor_core::merge::{highlight_lines, normalize_spans, Span};
use editor_core::parser::parser_input;
use editor_core::syntax::{extract_tokens, SyntaxNode};
use editor_core::text_buffer::{Cursor, Language, LineTextBuffer};

fn at(row: usize, column: usize) -> Cursor {
    Cursor { row, column }
}

fn joined(line: &[(HighlightType, String)]) -> String {
    line.iter().map(|f| f.1.as_str()).collect()
}

#[test]
fn specific_rule_wins_over_general_one() {
    let mapping = PythonMapping::new();
    let specific = mapping.get_highlight_type("root.module.function_definition.identifier");
    let general = mapping.get_highlight_type("root.module.expression_statement.identifier");
    assert_eq!(specific, HighlightType::Blue);
    assert_eq!(general, HighlightType::White);
    assert_ne!(specific, general);
    assert_eq!(mapping.get_highlight_type("root.module.nothing_known"), HighlightType::Uncategorized);
}

#[test]
fn merge_fills_gaps_and_keeps_runs_maximal() {
    let lines = vec!["let x = 1".to_string(), "".to_string(), "ab".to_string()];
    let spans = vec![
        Span { start: at(0, 0), end: at(0, 3), category: HighlightType::Purple },
        Span { start: at(0, 4), end: at(0, 5), category: HighlightType::White },
        Span { start: at(0, 5), end: at(0, 6), category: HighlightType::White },
        Span { start: at(0, 8), end: at(2, 1), category: HighlightType::Green },
    ];
    let text = highlight_lines(&lines, &spans).text;
    assert_eq!(text.len(), 3);
    assert_eq!(
        text[0],
        vec![
            (HighlightType::Purple, "let".to_string()),
            (HighlightType::Uncategorized, " ".to_string()),
            (HighlightType::White, "x ".to_string()),
            (HighlightType::Uncategorized, "= ".to_string()),
            (HighlightType::Green, "1".to_string()),
        ]
    );
    assert_eq!(text[1], vec![(HighlightType::Uncategorized, String::new())]);
    assert_eq!(
        text[2],
        vec![(HighlightType::Green, "a".to_string()), (HighlightType::Uncategorized, "b".to_string())]
    );
    for (line, frags) in lines.iter().zip(text.iter()) {
        assert_eq!(&joined(frags), line);
    }
}

#[test]
fn normalize_drops_unfit_spans() {
    let lines = vec!["abcd".to_string()];
    let spans = vec![
        Span { start: at(0, 1), end: at(0, 3), category: HighlightType::Red },
        Span { start: at(0, 2), end: at(0, 4), category: HighlightType::Blue },
        Span { start: at(0, 3), end: at(0, 3), category: HighlightType::Blue },
        Span { start: at(0, 3), end: at(1, 0), category: HighlightType::Blue },
        Span { start: at(0, 3), end: at(0, 4), category: HighlightType::Gray },
    ];
    let kept = normalize_spans(&lines, &spans);
    let clipped = Span { start: at(0, 3), end: at(0, 4), category: HighlightType::Blue };
    assert_eq!(kept, vec![spans[0], clipped]);
}

#[test]
fn span_past_the_text_is_clipped() {
    let lines = vec!["ab".to_string(), "s = \"\"\"open".to_string()];
    let spans = vec![
        Span { start: at(1, 4), end: at(2, 0), category: HighlightType::Green },
        Span { start: at(0, 0), end: at(0, 9), category: HighlightType::Red },
    ];
    assert_eq!(
        normalize_spans(&lines, &spans),
        vec![Span { start: at(1, 4), end: at(1, 11), category: HighlightType::Green }]
    );
    let head = vec![Span { start: at(0, 0), end: at(0, 9), category: HighlightType::Red }];
    assert_eq!(
        normalize_spans(&lines, &head),
        vec![Span { start: at(0, 0), end: at(0, 2), category: HighlightType::Red }]
    );
}

#[test]
fn tokens_carry_dotted_paths() {
    let node = |depth: usize, kind: &str, child_count: usize, s: usize, e: usize| SyntaxNode {
        depth,
        kind: kind.to_string(),
        child_count,
        start: at(0, s),
        end: at(0, e),
    };
    let nodes = vec![
        node(0, "module", 1, 0, 9),
        node(1, "function_definition", 2, 0, 9),
        node(2, "def", 0, 0, 3),
        node(2, "identifier", 0, 4, 7),
    ];
    let tokens = extract_tokens(&nodes);
    let paths: Vec<&str> = tokens.iter().map(|t| t.path.as_str()).collect();
    assert_eq!(paths, vec!["root.module.function_definition.def", "root.module.function_definition.identifier"]);
    assert_eq!(tokens[1].start, at(0, 4));
    assert_eq!(tokens[1].end, at(0, 7));
}

#[test]
fn parser_reads_rest_of_line_then_newline() {
    let lines = vec!["abc".to_string(), "d".to_string()];
    assert_eq!(parser_input(&lines, 0, 1), b"bc");
    assert_eq!(parser_input(&lines, 0, 3), b"\n");
    assert_eq!(parser_input(&lines, 1, 0), b"d");
    assert_eq!(parser_input(&lines, 2, 0), b"");
}

#[test]
fn python_highlight_covers_every_line() {
    let source = "def foo(a):\n    return a + 1\n\nprint(\"hi\")\n";
    let mut buffer = LineTextBuffer::new(source.to_string());
    buffer.language = Language::Python;
    let text = buffer.highlight_complete_text().text;
    assert_eq!(text.len(), buffer.lines.len());
    for (line, frags) in buffer.lines.iter().zip(text.iter()) {
        assert_eq!(&joined(frags), line);
        if line.is_empty() {
            assert_eq!(frags, &vec![(HighlightType::Uncategorized, String::new())]);
        } else {
            assert!(frags.iter().all(|f| !f.1.is_empty()));
        }
        assert!(frags.windows(2).all(|w| w[0].0 != w[1].0));
    }
    assert_eq!(text[0][0], (HighlightType::Purple, "def".to_string()));
    assert!(text[0].contains(&(HighlightType::Blue, "foo".to_string())));
    assert!(text[1].contains(&(HighlightType::Purple, "return".to_string())));
}

#[test]
fn plain_text_is_one_fragment_per_line() {
    let mut buffer = LineTextBuffer::new("a b\n\nc".to_string());
    let text = buffer.highlight_complete_text().text;
    assert_eq!(
        text,
        vec![
            vec![(HighlightType::Uncategorized, "a b".to_string())],
            vec![(HighlightType::Uncategorized, String::new())],
            vec![(HighlightType::Uncategorized, "c".to_string())],
        ]
    );
    assert_eq!(buffer.get_highlighted_text().text, text);
}
