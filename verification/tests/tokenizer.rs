use cmd_lib::quote::{advance, start, Quotes};
use cmd_lib::text::{is_blank, is_whitespace, trim};
use cmd_lib::token::{
    parse_args, parse_argv, parse_cmds, parse_pipes, parse_seps, split_segments, tokenize,
};

fn strings(items: &[&str]) -> Vec<String> {
    items.iter().map(|s| s.to_string()).collect()
}

#[test]
fn tokenize_splits_on_white_space() {
    assert_eq!(tokenize("a b c"), strings(&["a", "b", "c"]));
}

#[test]
fn tokenize_keeps_double_quoted_span_together() {
    assert_eq!(tokenize("a \"b c\" d"), strings(&["a", "b c", "d"]));
}

#[test]
fn tokenize_keeps_single_quoted_span_together() {
    assert_eq!(tokenize("a 'x y' z"), strings(&["a", "x y", "z"]));
}

#[test]
fn tokenize_of_blank_text_is_empty() {
    assert_eq!(tokenize("   "), Vec::<String>::new());
    assert_eq!(tokenize(""), Vec::<String>::new());
}

#[test]
fn tokenize_drops_quoted_empty_string() {
    assert_eq!(tokenize("a \"\" b"), strings(&["a", "b"]));
    assert_eq!(tokenize("''"), Vec::<String>::new());
}

#[test]
fn tokenize_keeps_other_quote_kind_inside_span() {
    assert_eq!(tokenize("echo \"it's\""), strings(&["echo", "it's"]));
    assert_eq!(tokenize("echo 'say \"hi\"'"), strings(&["echo", "say \"hi\""]));
}

#[test]
fn tokenize_quote_inside_word_is_a_boundary() {
    assert_eq!(tokenize("ab\"cd\"ef"), strings(&["ab", "cd", "ef"]));
}

#[test]
fn tokenize_unterminated_quote_runs_to_the_end() {
    assert_eq!(tokenize("echo 'a  b"), strings(&["echo", "a  b"]));
    assert_eq!(tokenize("echo \"a b  "), strings(&["echo", "a b  "]));
}

#[test]
fn tokenize_cuts_at_line_feed_inside_quotes() {
    assert_eq!(tokenize("a 'b\nc' d"), strings(&["a", "b", "c", "d"]));
}

#[test]
fn tokenize_takes_tabs_and_wide_spaces_as_boundaries() {
    assert_eq!(tokenize("a\tb\u{3000}c\r\nd"), strings(&["a", "b", "c", "d"]));
}

#[test]
fn tokenize_handles_text_outside_ascii() {
    assert_eq!(tokenize("écho 'ñ ü' 日本"), strings(&["écho", "ñ ü", "日本"]));
}

#[test]
fn split_segments_on_semicolon() {
    assert_eq!(split_segments("a;b;c", ';'), strings(&["a", "b", "c"]));
}

#[test]
fn split_segments_separator_inside_quotes_is_no_boundary() {
    assert_eq!(split_segments("a;\"b;c\"", ';'), strings(&["a", "\"b;c\""]));
    assert_eq!(split_segments("a|'b|c'|d", '|'), strings(&["a", "'b|c'", "d"]));
}

#[test]
fn split_segments_drops_blank_segments_and_keeps_white_space() {
    assert_eq!(split_segments("ls -l ; ; echo hi ;", ';'), strings(&["ls -l ", " echo hi "]));
    assert_eq!(split_segments(" ; ;; ", ';'), Vec::<String>::new());
}

#[test]
fn split_segments_cuts_at_line_feeds_too() {
    assert_eq!(split_segments("ls\necho", ';'), strings(&["ls", "echo"]));
}

#[test]
fn split_segments_checks_the_flags_behind_the_separator() {
    // With a quote character as the separator, the opening quote stays and
    // the closing one is cut.
    assert_eq!(split_segments("a\"b\"c", '"'), strings(&["a\"b", "c"]));
}

#[test]
fn parse_args_marks_boundaries() {
    assert_eq!(parse_args("a \"b c\" d"), "a\n\nb c\n\nd");
    assert_eq!(parse_args("a 'x\"y' z"), "a\n\nx\"y\n\nz");
    assert_eq!(parse_args(""), "");
}

#[test]
fn parse_seps_marks_separators_outside_quotes() {
    assert_eq!(parse_seps("a;\"b;c\";'d;e';f", ';'), "a\n\"b;c\"\n'd;e'\nf");
    assert_eq!(parse_seps("a;b", '|'), "a;b");
}

#[test]
fn parse_cmds_and_parse_pipes_mark_their_separator() {
    assert_eq!(parse_cmds("a;b|c"), "a\nb|c");
    assert_eq!(parse_pipes("a;b|c"), "a;b\nc");
}

#[test]
fn parse_argv_drops_blank_pieces() {
    assert_eq!(parse_argv("a\n\n b \n \t\nc"), strings(&["a", " b ", "c"]));
    assert_eq!(parse_argv(""), Vec::<String>::new());
    assert_eq!(parse_argv("\n\n"), Vec::<String>::new());
    assert_eq!(parse_argv("x"), strings(&["x"]));
}

#[test]
fn quote_flags_toggle_as_stated() {
    let q = start();
    assert_eq!(q, Quotes { single: false, double: false });
    let q = advance(q, '"');
    assert_eq!(q, Quotes { single: false, double: true });
    let q = advance(q, '\'');
    assert_eq!(q, Quotes { single: false, double: true });
    let q = advance(q, 'x');
    assert_eq!(q, Quotes { single: false, double: true });
    let q = advance(q, '"');
    assert_eq!(q, Quotes { single: false, double: false });
    let q = advance(q, '\'');
    assert_eq!(q, Quotes { single: true, double: false });
    let q = advance(q, '"');
    assert_eq!(q, Quotes { single: true, double: false });
    let q = advance(q, '\'');
    assert_eq!(q, Quotes { single: false, double: false });
}

#[test]
fn quote_flags_are_never_both_set() {
    let text = "a\"b'c\"d'e\"f'g'\"h\"'\"'";
    let mut q = start();
    for c in text.chars() {
        q = advance(q, c);
        assert!(!(q.single && q.double));
    }
}

#[test]
fn is_whitespace_agrees_with_std_on_every_char() {
    let mut code: u32 = 0;
    while code <= 0x10FFFF {
        if let Some(c) = char::from_u32(code) {
            assert_eq!(is_whitespace(c), c.is_whitespace(), "U+{:04X}", code);
        }
        code += 1;
    }
}

#[test]
fn trim_agrees_with_std() {
    for s in ["", " ", "a", "  a b  ", "\t\na\u{3000}", "\u{2003}x y\u{85}", "   \n  ", "é "] {
        assert_eq!(trim(s), s.trim());
    }
    assert_eq!(trim("  ls -l | wc  "), "ls -l | wc");
}

#[test]
fn is_blank_tells_blank_text() {
    assert!(is_blank(""));
    assert!(is_blank(" \t\r\n\u{a0}"));
    assert!(!is_blank("  x "));
}

#[test]
fn no_piece_is_blank_or_holds_a_line_feed() {
    let texts = [
        "a b c",
        "  \"\" '' x \n y \t",
        "echo 'a\nb' \"c  d\" e",
        "ls;;\n; 'x;y' ;",
        "\u{3000}wide\u{2003}space ",
    ];
    for text in texts {
        let mut all = tokenize(text);
        all.extend(split_segments(text, ';'));
        all.extend(split_segments(text, '|'));
        all.extend(parse_argv(text));
        for piece in all {
            assert!(!piece.trim().is_empty(), "{:?} in {:?}", piece, text);
            assert!(!piece.contains('\n'), "{:?} in {:?}", piece, text);
        }
    }
}

#[test]
fn marking_keeps_the_length_and_every_other_character() {
    let text = "a; 'b;c' \"d e\";f  g";
    let args: Vec<char> = parse_args(text).chars().collect();
    let seps: Vec<char> = parse_seps(text, ';').chars().collect();
    let plain: Vec<char> = text.chars().collect();
    assert_eq!(args.len(), plain.len());
    assert_eq!(seps.len(), plain.len());
    for i in 0..plain.len() {
        assert!(args[i] == plain[i] || args[i] == '\n');
        assert!(seps[i] == plain[i] || (seps[i] == '\n' && plain[i] == ';'));
    }
    // The separator at 5 stands inside quotes, those at 1 and 14 outside.
    assert_eq!(seps[5], ';');
    assert_eq!(seps[1], '\n');
    assert_eq!(seps[14], '\n');
}
