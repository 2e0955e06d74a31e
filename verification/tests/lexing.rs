use lexkit::lex;
use lexkit::Error;
use lexkit::Lexeme;
use lexkit::SrcLoc;
use lexkit::SrcRange;
use lexkit::Token;

#[test]
fn lex_idents() {
    assert_eq!(
        lex("test"),
        Ok(vec![Token(
            Lexeme::Ident("test".to_string(), 0),
            SrcRange::new(SrcLoc::new(1, 1), 4)
        ),]),
    );

    assert_eq!(
        lex("foobar@@@"),
        Ok(vec![Token(
            Lexeme::Ident("foobar".to_string(), 3),
            SrcRange::new(SrcLoc::new(1, 1), 9)
        ),]),
    );

    assert_eq!(
        lex("test f00@@@bleugh"),
        Ok(vec![
            Token(
                Lexeme::Ident("test".to_string(), 0),
                SrcRange::new(SrcLoc::new(1, 1), 4)
            ),
            Token(
                Lexeme::Ident("f00".to_string(), 3),
                SrcRange::new(SrcLoc::new(1, 6), 6)
            ),
            Token(
                Lexeme::Ident("bleugh".to_string(), 0),
                SrcRange::new(SrcLoc::new(1, 12), 6)
            ),
        ]),
    );
}

#[test]
fn lex_singular() {
    assert_eq!(
        lex("[,];|(){}["),
        Ok(vec![
            Token(
                Lexeme::Ident("[".to_string(), 0),
                SrcRange::new(SrcLoc::new(1, 1), 1)
            ),
            Token(
                Lexeme::Ident(",".to_string(), 0),
                SrcRange::new(SrcLoc::new(1, 2), 1)
            ),
            Token(
                Lexeme::Ident("]".to_string(), 0),
                SrcRange::new(SrcLoc::new(1, 3), 1)
            ),
            Token(
                Lexeme::Ident(";".to_string(), 0),
                SrcRange::new(SrcLoc::new(1, 4), 1)
            ),
            Token(Lexeme::Pipe, SrcRange::new(SrcLoc::new(1, 5), 1)),
            Token(
                Lexeme::Ident("(".to_string(), 0),
                SrcRange::new(SrcLoc::new(1, 6), 1)
            ),
            Token(
                Lexeme::Ident(")".to_string(), 0),
                SrcRange::new(SrcLoc::new(1, 7), 1)
            ),
            Token(
                Lexeme::Ident("{".to_string(), 0),
                SrcRange::new(SrcLoc::new(1, 8), 1)
            ),
            Token(
                Lexeme::Ident("}".to_string(), 0),
                SrcRange::new(SrcLoc::new(1, 9), 1)
            ),
            Token(
                Lexeme::Ident("[".to_string(), 0),
                SrcRange::new(SrcLoc::new(1, 10), 1)
            ),
        ]),
    );
}

#[test]
fn lex_eof() {
    assert_eq!(
        lex("\"testing this!"),
        Err(vec![
            Error::expected_delimiter('"').at(SrcRange::new(SrcLoc::new(1, 1), 14))
        ]),
    );
}

#[test]
fn whitespace_only_is_empty_success() {
    assert_eq!(lex(""), Ok(vec![]));
    assert_eq!(lex(" \t\r\n  \n"), Ok(vec![]));
    assert_eq!(lex("\u{a0}\u{2028}\u{3000}"), Ok(vec![]));
}

#[test]
fn keywords_lex_to_atomic_lexemes() {
    assert_eq!(
        lex("def"),
        Ok(vec![Token(Lexeme::Def, SrcRange::new(SrcLoc::new(1, 1), 3))]),
    );
    assert_eq!(
        lex("let"),
        Ok(vec![Token(Lexeme::Let, SrcRange::new(SrcLoc::new(1, 1), 3))]),
    );
    assert_eq!(
        lex("true"),
        Ok(vec![Token(Lexeme::True, SrcRange::new(SrcLoc::new(1, 1), 4))]),
    );
    assert_eq!(
        lex("false"),
        Ok(vec![Token(
            Lexeme::False,
            SrcRange::new(SrcLoc::new(1, 1), 5)
        )]),
    );
    assert_eq!(
        lex("null"),
        Ok(vec![Token(Lexeme::Null, SrcRange::new(SrcLoc::new(1, 1), 4))]),
    );
}

#[test]
fn keywords_are_case_sensitive() {
    assert_eq!(
        lex("Def"),
        Ok(vec![Token(
            Lexeme::Ident("Def".to_string(), 0),
            SrcRange::new(SrcLoc::new(1, 1), 3)
        )]),
    );
    assert_eq!(
        lex("TRUE"),
        Ok(vec![Token(
            Lexeme::Ident("TRUE".to_string(), 0),
            SrcRange::new(SrcLoc::new(1, 1), 4)
        )]),
    );
}

#[test]
fn keyword_lookup_goes_by_text_alone() {
    // Arity markers do not shield a keyword from the table lookup.
    assert_eq!(
        lex("def@@"),
        Ok(vec![Token(Lexeme::Def, SrcRange::new(SrcLoc::new(1, 1), 5))]),
    );
}

#[test]
fn string_literal_keeps_content_and_covers_quotes() {
    assert_eq!(
        lex("\"ab\""),
        Ok(vec![Token(
            Lexeme::Str("ab".to_string()),
            SrcRange::new(SrcLoc::new(1, 1), 4)
        )]),
    );
    assert_eq!(
        lex("\"\""),
        Ok(vec![Token(
            Lexeme::Str("".to_string()),
            SrcRange::new(SrcLoc::new(1, 1), 2)
        )]),
    );
}

#[test]
fn string_literal_has_no_escapes() {
    assert_eq!(
        lex(r#""a\nb""#),
        Ok(vec![Token(
            Lexeme::Str(r"a\nb".to_string()),
            SrcRange::new(SrcLoc::new(1, 1), 6)
        )]),
    );
}

#[test]
fn numbers_capture_raw_alphanumeric_runs() {
    assert_eq!(
        lex("12ab"),
        Ok(vec![Token(
            Lexeme::Num("12ab".to_string()),
            SrcRange::new(SrcLoc::new(1, 1), 4)
        )]),
    );
    assert_eq!(
        lex("0 9"),
        Ok(vec![
            Token(
                Lexeme::Num("0".to_string()),
                SrcRange::new(SrcLoc::new(1, 1), 1)
            ),
            Token(
                Lexeme::Num("9".to_string()),
                SrcRange::new(SrcLoc::new(1, 3), 1)
            ),
        ]),
    );
}

#[test]
fn newlines_advance_the_line_cursor() {
    assert_eq!(
        lex("a\n  b"),
        Ok(vec![
            Token(
                Lexeme::Ident("a".to_string(), 0),
                SrcRange::new(SrcLoc::new(1, 1), 1)
            ),
            Token(
                Lexeme::Ident("b".to_string(), 0),
                SrcRange::new(SrcLoc::new(2, 3), 1)
            ),
        ]),
    );
}

#[test]
fn symbolic_operators_reuse_the_ident_lexeme() {
    assert_eq!(
        lex("+-"),
        Ok(vec![Token(
            Lexeme::Ident("+-".to_string(), 0),
            SrcRange::new(SrcLoc::new(1, 1), 2)
        )]),
    );
    assert_eq!(
        lex("+@+"),
        Ok(vec![
            Token(
                Lexeme::Ident("+".to_string(), 1),
                SrcRange::new(SrcLoc::new(1, 1), 2)
            ),
            Token(
                Lexeme::Ident("+".to_string(), 0),
                SrcRange::new(SrcLoc::new(1, 3), 1)
            ),
        ]),
    );
}

#[test]
fn marker_characters_lex_alone() {
    assert_eq!(
        lex("@"),
        Ok(vec![Token(Lexeme::At, SrcRange::new(SrcLoc::new(1, 1), 1))]),
    );
    assert_eq!(
        lex("$|"),
        Ok(vec![
            Token(Lexeme::Dollar, SrcRange::new(SrcLoc::new(1, 1), 1)),
            Token(Lexeme::Pipe, SrcRange::new(SrcLoc::new(1, 2), 1)),
        ]),
    );
}

#[test]
fn unexpected_character_is_reported_and_skipped() {
    assert_eq!(
        lex("\u{1}"),
        Err(vec![
            Error::unexpected_char('\u{1}').at(SrcRange::new(SrcLoc::new(1, 1), 1))
        ]),
    );
    // Recovery: scanning resumes, and every later fault is reported too.
    assert_eq!(
        lex("\u{1}a\u{2}"),
        Err(vec![
            Error::unexpected_char('\u{1}').at(SrcRange::new(SrcLoc::new(1, 1), 1)),
            Error::unexpected_char('\u{2}').at(SrcRange::new(SrcLoc::new(1, 3), 1)),
        ]),
    );
}

#[test]
fn unterminated_string_stops_the_scan() {
    assert_eq!(
        lex("\u{1}\"x"),
        Err(vec![
            Error::unexpected_char('\u{1}').at(SrcRange::new(SrcLoc::new(1, 1), 1)),
            Error::expected_delimiter('"').at(SrcRange::new(SrcLoc::new(1, 2), 2)),
        ]),
    );
}

#[test]
fn nul_is_an_unexpected_character() {
    assert_eq!(
        lex("\0"),
        Err(vec![
            Error::unexpected_char('\0').at(SrcRange::new(SrcLoc::new(1, 1), 1))
        ]),
    );
    // The fault is non-fatal: the NUL terminates the pending lexeme, is
    // reported, and scanning resumes on the rest of the input.
    assert_eq!(
        lex("ab\0cd"),
        Err(vec![
            Error::unexpected_char('\0').at(SrcRange::new(SrcLoc::new(1, 3), 1))
        ]),
    );
}

#[test]
fn nul_inside_a_string_is_kept_verbatim() {
    assert_eq!(
        lex("\"a\0b\""),
        Ok(vec![Token(
            Lexeme::Str("a\0b".to_string()),
            SrcRange::new(SrcLoc::new(1, 1), 5)
        )]),
    );
}

#[test]
fn tokens_come_in_source_order_covering_the_text() {
    assert_eq!(
        lex("let x = \"hi\" | 12"),
        Ok(vec![
            Token(Lexeme::Let, SrcRange::new(SrcLoc::new(1, 1), 3)),
            Token(
                Lexeme::Ident("x".to_string(), 0),
                SrcRange::new(SrcLoc::new(1, 5), 1)
            ),
            Token(
                Lexeme::Ident("=".to_string(), 0),
                SrcRange::new(SrcLoc::new(1, 7), 1)
            ),
            Token(
                Lexeme::Str("hi".to_string()),
                SrcRange::new(SrcLoc::new(1, 9), 4)
            ),
            Token(Lexeme::Pipe, SrcRange::new(SrcLoc::new(1, 14), 1)),
            Token(
                Lexeme::Num("12".to_string()),
                SrcRange::new(SrcLoc::new(1, 16), 2)
            ),
        ]),
    );
}

#[test]
fn identifiers_may_start_with_underscore() {
    assert_eq!(
        lex("_a1"),
        Ok(vec![Token(
            Lexeme::Ident("_a1".to_string(), 0),
            SrcRange::new(SrcLoc::new(1, 1), 3)
        )]),
    );
}

#[test]
fn identifiers_may_hold_letters_beyond_ascii() {
    assert_eq!(
        lex("héllo"),
        Ok(vec![Token(
            Lexeme::Ident("héllo".to_string(), 0),
            SrcRange::new(SrcLoc::new(1, 1), 5)
        )]),
    );
}

#[test]
fn repeated_calls_agree() {
    let inputs = ["", "test f00@@@bleugh", "\"open", "let x = 1", "\u{1}?!", "a\0b"];
    for code in inputs {
        assert_eq!(lex(code), lex(code));
    }
}
