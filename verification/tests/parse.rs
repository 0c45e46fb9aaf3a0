use cowsay::{extract_body, parse, tokenize, Expected, ParseError, Token};

fn text(s: &str) -> Token {
    Token::Text(s.to_string())
}

fn comment(s: &str) -> Token {
    Token::Comment(s.to_string())
}

fn body_tokens(body: &str) -> Vec<Token> {
    tokenize(body).unwrap()
}

fn error(offset: usize, expected: Expected, found: Option<char>) -> ParseError {
    ParseError { offset, expected, found }
}

const COW: &str = "##\n## The default cow\n##\n\n$the_cow = <<\"EOC\";\n        $thoughts   ^__^\n         $thoughts  ($eyes)\\\\_______\n            (__)\\\\       )\\\\/\\\\\n             $tongue ||----w |\n                ||     ||\nEOC\n";

#[test]
fn default_cow() {
    assert_eq!(
        parse(COW).unwrap(),
        vec![
            text("        "),
            Token::Thoughts,
            text("   ^__^\n         "),
            Token::Thoughts,
            text("  ("),
            Token::Eye(2),
            text(")"),
            text("\\"),
            text("_______\n            (__)"),
            text("\\"),
            text("       )"),
            text("\\"),
            text("/"),
            text("\\"),
            text("\n             "),
            Token::Tongue,
            text(" ||----w |\n                ||     ||\n"),
        ]
    );
}

#[test]
fn empty_body() {
    assert_eq!(body_tokens(""), vec![]);
    assert_eq!(parse("$the_cow = <<EOC;\nEOC\n"), Ok(vec![]));
}

#[test]
fn eyes_and_tongue_alone() {
    assert_eq!(tokenize("$eyes$tongue"), Ok(vec![Token::Eye(2), Token::Tongue]));
}

#[test]
fn bare_markers() {
    assert_eq!(
        body_tokens("$thoughts$tongue$eye$eyes"),
        vec![Token::Thoughts, Token::Tongue, Token::Eye(1), Token::Eye(2)]
    );
}

#[test]
fn braced_markers() {
    assert_eq!(
        body_tokens("${thoughts}${tongue}${eye}${eyes}"),
        vec![Token::Thoughts, Token::Tongue, Token::Eye(1), Token::Eye(2)]
    );
}

#[test]
fn plural_eyes_before_singular() {
    assert_eq!(body_tokens("$eyes"), vec![Token::Eye(2)]);
    assert_eq!(body_tokens("$eyess"), vec![Token::Eye(2), text("s")]);
    assert_eq!(body_tokens("$eyeball"), vec![Token::Eye(1), text("ball")]);
}

#[test]
fn marker_cut_short_is_text() {
    assert_eq!(body_tokens("$thought"), vec![text("$"), text("thought")]);
    assert_eq!(body_tokens("$ey"), vec![text("$"), text("ey")]);
    assert_eq!(body_tokens("$tong ue"), vec![text("$"), text("tong ue")]);
}

#[test]
fn open_brace_without_marker_is_text() {
    assert_eq!(body_tokens("${eye"), vec![text("$"), text("{eye")]);
    assert_eq!(body_tokens("${eyes"), vec![text("$"), text("{eyes")]);
    assert_eq!(body_tokens("${eyess}"), vec![text("$"), text("{eyess}")]);
    assert_eq!(body_tokens("${thoughts"), vec![text("$"), text("{thoughts")]);
    assert_eq!(body_tokens("${}"), vec![text("$"), text("{}")]);
}

#[test]
fn lone_dollar_is_text() {
    assert_eq!(body_tokens("$"), vec![text("$")]);
    assert_eq!(body_tokens("a$b"), vec![text("a"), text("$"), text("b")]);
    assert_eq!(body_tokens("$$"), vec![text("$"), text("$")]);
}

#[test]
fn lone_backslash_is_text() {
    assert_eq!(body_tokens("\\"), vec![text("\\")]);
    assert_eq!(body_tokens("a\\b"), vec![text("a"), text("\\"), text("b")]);
    assert_eq!(body_tokens("\\E"), vec![text("\\"), text("E")]);
}

#[test]
fn escapes_lose_their_backslash() {
    assert_eq!(body_tokens("\\\\"), vec![text("\\")]);
    assert_eq!(body_tokens("\\@"), vec![text("@")]);
    assert_eq!(body_tokens("\\$"), vec![text("$")]);
    assert_eq!(
        body_tokens("\\\\\\@\\$"),
        vec![text("\\"), text("@"), text("$")]
    );
}

#[test]
fn escaped_dollar_starts_no_marker() {
    assert_eq!(body_tokens("\\$eyes"), vec![text("$"), text("eyes")]);
    assert_eq!(body_tokens("\\\\$eyes"), vec![text("\\"), Token::Eye(2)]);
}

#[test]
fn text_runs_are_whole() {
    assert_eq!(
        body_tokens("  ^__^ (oo) # not a comment\n"),
        vec![text("  ^__^ (oo) # not a comment\n")]
    );
    assert_eq!(body_tokens("caf\u{e9} \u{1F42E}"), vec![text("caf\u{e9} \u{1F42E}")]);
    assert_eq!(body_tokens("one\ntwo\r\nthree\n"), vec![text("one\ntwo\r\nthree\n")]);
}

#[test]
fn letters_of_the_keyword_are_plain_text() {
    assert_eq!(body_tokens("aEb\n"), vec![text("aEb\n")]);
    assert_eq!(body_tokens("Ex"), vec![text("Ex")]);
    assert_eq!(body_tokens("EOx E EO EOC."), vec![text("EOx E EO EOC.")]);
    assert_eq!(
        parse("$the_cow = <<EOC\naEb\nEOC\n"),
        Ok(vec![text("aEb\n")])
    );
}

#[test]
fn keyword_inside_a_line_is_text() {
    assert_eq!(
        parse("$the_cow = <<EOC\nxEOC\ny\nEOC\n"),
        Ok(vec![text("xEOC\ny\n")])
    );
    assert_eq!(
        parse("$the_cow = <<EOC;\nEOC is no end\n EOC\nEOC\n"),
        Ok(vec![text("EOC is no end\n EOC\n")])
    );
    assert_eq!(body_tokens("EOC"), vec![text("EOC")]);
    assert_eq!(body_tokens("moo\nEOC"), vec![text("moo\nEOC")]);
    assert_eq!(body_tokens("moo\nEOC;\n"), vec![text("moo\nEOC;\n")]);
}

#[test]
fn keyword_at_the_end_of_a_line_does_not_close() {
    assert_eq!(
        parse("$the_cow = <<EOC;\nthe end: EOC\n"),
        Err(error(31, Expected::Terminator, None))
    );
}

#[test]
fn any_line_break_closes_the_terminator_line() {
    for line_break in ["\n", "\r\n", "\r", "\u{b}", "\u{c}", "\u{85}", "\u{2028}", "\u{2029}"] {
        let mut template = String::from("$the_cow = <<EOC;\nmoo");
        template.push_str(line_break);
        template.push_str("EOC");
        template.push_str(line_break);
        let mut body = String::from("moo");
        body.push_str(line_break);
        assert_eq!(parse(&template), Ok(vec![text(&body)]), "{:?}", line_break);
    }
}

#[test]
fn body_ends_at_first_terminator_line() {
    assert_eq!(
        parse("$the_cow = <<EOC;\none\nEOC\ntwo\nEOC\n"),
        Err(error(26, Expected::EndOfInput, Some('t')))
    );
    assert_eq!(
        parse("$the_cow = <<EOC;\nEOC\r\nEOC\n"),
        Err(error(23, Expected::EndOfInput, Some('E')))
    );
}

#[test]
fn body_alone_holds_no_terminator_line() {
    assert_eq!(tokenize("EOC\n"), Err(error(0, Expected::EndOfInput, Some('E'))));
    assert_eq!(tokenize("moo\nEOC\nmoo"), Err(error(4, Expected::EndOfInput, Some('E'))));
    assert_eq!(tokenize("$eyes\r\nEOC\r\n"), Err(error(7, Expected::EndOfInput, Some('E'))));
}

#[test]
fn comment_lines_of_the_body_are_comments() {
    assert_eq!(
        parse("$the_cow = <<EOC\n# hi\nx\nEOC\n"),
        Ok(vec![comment(" hi"), text("x\n")])
    );
    assert_eq!(
        body_tokens("#one\nmoo\n#\n##two\r\n$eyes\n# three"),
        vec![
            comment("one"),
            text("moo\n"),
            comment(""),
            comment("#two"),
            Token::Eye(2),
            text("\n"),
            comment(" three"),
        ]
    );
}

#[test]
fn comment_holds_no_line_break() {
    for line_break in ["\n", "\r\n", "\r", "\u{b}", "\u{c}", "\u{85}", "\u{2028}", "\u{2029}"] {
        let mut body = String::from("# $eyes \\@ EOC");
        body.push_str(line_break);
        body.push_str("moo");
        assert_eq!(
            body_tokens(&body),
            vec![comment(" $eyes \\@ EOC"), text("moo")],
            "{:?}",
            line_break
        );
    }
}

#[test]
fn hash_inside_a_line_is_text() {
    assert_eq!(body_tokens(" # moo\n"), vec![text(" # moo\n")]);
    assert_eq!(body_tokens("$eyes# moo\n"), vec![Token::Eye(2), text("# moo\n")]);
    assert_eq!(body_tokens("\\@#\n#\n"), vec![text("@"), text("#\n"), comment("")]);
}

#[test]
fn comments_of_a_cowfile() {
    let tokens = parse("# a\n$the_cow = <<EOC;\n# b\n$eyes\nEOC\n# c\n").unwrap();
    assert_eq!(tokens, vec![comment(" b"), Token::Eye(2), text("\n")]);
}

#[test]
fn prelude_forms() {
    let forms = [
        "$the_cow = <<\"EOC\";\n",
        "$the_cow = <<EOC;\n",
        "$the_cow = <<EOC\n",
        "$the_cow=<<EOC\n",
        "$the_cow << EOC\n",
        "$the_cow <<\"EOC\n",
        "$the_cow <<EOC\";\n",
        "  $the_cow  =  <<  \"EOC\" ;\n",
        "$the_cow = <<\"EOC\"\t;\n",
        "$the_cow = <<EOC;\r\n",
        "$the_cow = <<EOC;\r",
        "$the_cow\n=\n<<\nEOC;\n",
        "\u{a0}$the_cow\u{2003}=\u{3000}<<EOC\u{2028}",
    ];
    for prelude in forms {
        let mut template = String::from(prelude);
        template.push_str("moo\nEOC\n");
        assert_eq!(parse(&template), Ok(vec![text("moo\n")]), "{:?}", prelude);
    }
}

#[test]
fn ignored_lines_before_and_after() {
    let template = "\n# one\n\r\n#two\r\n\n$the_cow = <<EOC;\nmoo\nEOC\n\n# three\n#\n\n";
    assert_eq!(parse(template), Ok(vec![text("moo\n")]));
}

#[test]
fn comment_after_spaces_is_not_ignored() {
    assert_eq!(
        parse("\n  # one\n$the_cow = <<EOC;\nEOC\n"),
        Err(error(3, Expected::Declaration, Some('#')))
    );
}

#[test]
fn missing_declaration() {
    assert_eq!(parse(""), Err(error(0, Expected::Declaration, None)));
    assert_eq!(parse("moo"), Err(error(0, Expected::Declaration, Some('m'))));
    assert_eq!(
        parse("$the_cat = <<EOC;\nEOC\n"),
        Err(error(6, Expected::Declaration, Some('a')))
    );
    assert_eq!(parse("# only\n$the_c"), Err(error(13, Expected::Declaration, None)));
}

#[test]
fn missing_heredoc_opener() {
    assert_eq!(
        parse("$the_cow = EOC;\nEOC\n"),
        Err(error(11, Expected::HeredocOpener, Some('E')))
    );
    assert_eq!(
        parse("$the_cow = <EOC;\nEOC\n"),
        Err(error(12, Expected::HeredocOpener, Some('E')))
    );
    assert_eq!(
        parse("$the_cow = = <<EOC;\nEOC\n"),
        Err(error(11, Expected::HeredocOpener, Some('=')))
    );
}

#[test]
fn missing_terminator_keyword_in_prelude() {
    assert_eq!(
        parse("$the_cow = <<END;\nEND\n"),
        Err(error(14, Expected::Terminator, Some('N')))
    );
    assert_eq!(
        parse("$the_cow = <<\"\"EOC;\nEOC\n"),
        Err(error(14, Expected::Terminator, Some('"')))
    );
}

#[test]
fn missing_line_break_after_prelude() {
    assert_eq!(
        parse("$the_cow = <<EOC; moo\nEOC\n"),
        Err(error(17, Expected::LineBreak, Some(' ')))
    );
    assert_eq!(
        parse("$the_cow = <<EOC  ;\nEOC\n"),
        Err(error(17, Expected::LineBreak, Some(' ')))
    );
    assert_eq!(
        parse("$the_cow = <<EOC;;\nEOC\n"),
        Err(error(17, Expected::LineBreak, Some(';')))
    );
    assert_eq!(parse("$the_cow = <<EOC"), Err(error(16, Expected::LineBreak, None)));
}

#[test]
fn missing_terminator_fails() {
    assert_eq!(
        parse("$the_cow = <<EOC;\nmoo\n"),
        Err(error(22, Expected::Terminator, None))
    );
    assert_eq!(
        parse("$the_cow = <<EOC;\nmoo\nE"),
        Err(error(23, Expected::Terminator, None))
    );
    assert_eq!(
        parse("$the_cow = <<EOC;\n$eyes$tongueEOC\n"),
        Err(error(34, Expected::Terminator, None))
    );
}

#[test]
fn terminator_without_line_break_fails() {
    assert_eq!(
        parse("$the_cow = <<EOC;\nmoo\nEOC"),
        Err(error(25, Expected::Terminator, None))
    );
    assert_eq!(
        parse("$the_cow = <<EOC;\nmoo\nEOC \n"),
        Err(error(27, Expected::Terminator, None))
    );
}

#[test]
fn trailing_content_fails() {
    assert_eq!(
        parse("$the_cow = <<EOC;\nEOC\nmoo\n"),
        Err(error(22, Expected::EndOfInput, Some('m')))
    );
    assert_eq!(
        parse("$the_cow = <<EOC;\nEOC\n \n"),
        Err(error(22, Expected::EndOfInput, Some(' ')))
    );
}

#[test]
fn unfinished_trailing_comment_fails() {
    assert_eq!(
        parse("$the_cow = <<EOC;\nEOC\n# the end"),
        Err(error(22, Expected::EndOfInput, Some('#')))
    );
}

#[test]
fn offsets_count_characters() {
    assert_eq!(
        parse("# caf\u{e9} \u{1F42E}\n$the_cow = <<EOC;\nm\u{f6}\u{f6}\nEOC\nx"),
        Err(error(35, Expected::EndOfInput, Some('x')))
    );
}

fn texts(tokens: &[Token]) -> String {
    let mut out = String::new();
    for token in tokens {
        match token {
            Token::Text(text) => out.push_str(text),
            other => panic!("no text: {:?}", other),
        }
    }
    out
}

#[test]
fn plain_body_comes_back_from_its_tokens() {
    for body in ["", "moo", "  ^__^\n  (oo)\n", "a $ b \\e E EO EOC.", "$ $$ \\", "EEE", "caf\u{e9}$"] {
        assert_eq!(texts(&body_tokens(body)), body, "{:?}", body);
    }
}

#[test]
fn eyes_are_one_or_two() {
    let tokens = body_tokens("$eye$eyes${eye}${eyes}$eyess$eyeeye");
    let counts: Vec<u8> = tokens
        .iter()
        .filter_map(|token| match token {
            Token::Eye(count) => Some(*count),
            _ => None,
        })
        .collect();
    assert_eq!(counts, vec![1, 2, 1, 2, 2, 1]);
}

#[test]
fn body_is_taken_out_as_it_stands() {
    let template = "# moo\n\n$the_cow = <<\"EOC\";\n  $thoughts ^__^\n   ($eyes)\\\\_\n# a comment\nEOC\n\n# end\n";
    assert_eq!(
        extract_body(template),
        Ok("  $thoughts ^__^\n   ($eyes)\\\\_\n# a comment\n".to_string())
    );
    assert_eq!(extract_body("$the_cow = <<EOC;\nEOC\n"), Ok(String::new()));
    assert_eq!(
        extract_body("$the_cow = <<EOC;\n$eyes$tongue\nEOC\n"),
        Ok("$eyes$tongue\n".to_string())
    );
    assert_eq!(
        extract_body("$the_cow = <<EOC;\nEOC is no end\nxEOC\nEOC\n"),
        Ok("EOC is no end\nxEOC\n".to_string())
    );
}

#[test]
fn body_ends_where_the_tokens_end() {
    assert_eq!(
        extract_body("$the_cow = <<EOC;\none\nEOC\n# two EOC\n"),
        Ok("one\n".to_string())
    );
    assert_eq!(
        parse("$the_cow = <<EOC;\none\nEOC\n# two EOC\n"),
        Ok(vec![text("one\n")])
    );
}

#[test]
fn tokens_of_the_body_are_those_of_the_cowfile() {
    for template in [
        COW,
        "$the_cow = <<EOC;\nEOC\n",
        "$the_cow = <<EOC;\n# b\n$eyes\\\\\r\nxEOC\n#\nEOC\r\n# end\n",
        "$the_cow = <<EOC\nE\nEO\nEOC \n$\n\\\nEOC\n",
    ] {
        let body = extract_body(template).unwrap();
        assert_eq!(tokenize(&body), parse(template), "{:?}", template);
    }
}

#[test]
fn no_body_without_a_cowfile() {
    for template in [
        "",
        "moo",
        "$the_cow = EOC;\nEOC\n",
        "$the_cow = <<END;\nEND\n",
        "$the_cow = <<EOC; moo\nEOC\n",
        "$the_cow = <<EOC;\nmoo\n",
        "$the_cow = <<EOC;\nmoo\nEOC",
        "$the_cow = <<EOC;\nEOC\nmoo\n",
    ] {
        let error = parse(template).unwrap_err();
        assert_eq!(extract_body(template), Err(error), "{:?}", template);
    }
}

#[test]
fn messages_say_what_was_wanted_and_found() {
    assert_eq!(parse("moo").unwrap_err().message(), "expected `$the_cow` / found 'm'");
    assert_eq!(
        parse("$the_cow = EOC;\nEOC\n").unwrap_err().message(),
        "expected `<<` / found 'E'"
    );
    assert_eq!(
        parse("$the_cow = <<END;\nEND\n").unwrap_err().message(),
        "expected `EOC` / found 'N'"
    );
    assert_eq!(
        parse("$the_cow = <<EOC;\nmoo\n").unwrap_err().message(),
        "expected `EOC` / found the end of the cowfile"
    );
    assert_eq!(
        parse("$the_cow = <<EOC;\tmoo\nEOC\n").unwrap_err().message(),
        "expected a line break / found '\\t'"
    );
    assert_eq!(
        parse("$the_cow = <<EOC\t\r\nEOC\nmoo").unwrap_err().message(),
        "expected the end of the cowfile / found 'm'"
    );
}

#[test]
fn messages_escape_line_breaks() {
    assert_eq!(
        error(0, Expected::EndOfInput, Some('\n')).message(),
        "expected the end of the cowfile / found '\\n'"
    );
    assert_eq!(
        error(0, Expected::LineBreak, Some('\r')).message(),
        "expected a line break / found '\\r'"
    );
    assert_eq!(
        error(0, Expected::LineBreak, Some('\u{e9}')).message(),
        "expected a line break / found '\u{e9}'"
    );
}

#[test]
fn each_expectation_has_its_words() {
    assert_eq!(Expected::Declaration.describe(), "`$the_cow`");
    assert_eq!(Expected::HeredocOpener.describe(), "`<<`");
    assert_eq!(Expected::Terminator.describe(), "`EOC`");
    assert_eq!(Expected::LineBreak.describe(), "a line break");
    assert_eq!(Expected::EndOfInput.describe(), "the end of the cowfile");
}
