use crate::chars::char_is_alphabetic;
use crate::chars::char_is_numeric;
use crate::chars::char_is_whitespace;
use crate::chars::is_ascii_punct;
use crate::chars::is_singular;
use crate::error::Error;
use crate::loc::SrcLoc;
use crate::loc::SrcRange;
use crate::model::lex_result_matches;
use crate::model::lex_spec;
use crate::model::scan;
use crate::model::LexOut;
use crate::model::state_rank;
use crate::model::StateModel;
use crate::token::classify;
use crate::token::Lexeme;
use crate::token::Token;
use vstd::prelude::*;
use vstd::string::StrSliceExecFns;

verus! {

/// Relies on String::push: appends the given character to the end.
#[verifier::external_body]
fn push_char(s: &mut String, c: char)
    ensures
        final(s)@ == old(s)@.push(c),
{
    s.push(c);
}

/// Character-by-character comparison of two strings.
fn str_eq(a: &str, b: &str) -> (r: bool)
    ensures
        r == (a@ == b@),
{
    let na = a.unicode_len();
    let nb = b.unicode_len();
    if na != nb {
        return false;
    }
    let mut j: usize = 0;
    while j < na
        invariant
            na == a@.len(),
            na == b@.len(),
            j <= na,
            forall|k: int| 0 <= k < j ==> a@[k] == b@[k],
        decreases na - j,
    {
        if a.get_char(j) != b.get_char(j) {
            return false;
        }
        j = j + 1;
    }
    proof {
        assert(a@ =~= b@);
    }
    true
}

/// Look a completed word up in the keyword table.
fn classify_word(text: String, arity: usize) -> (r: Lexeme)
    ensures
        r.deep_view() == classify(text@, arity as nat),
{
    if str_eq(text.as_str(), "def") {
        Lexeme::Def
    } else if str_eq(text.as_str(), "let") {
        Lexeme::Let
    } else if str_eq(text.as_str(), "true") {
        Lexeme::True
    } else if str_eq(text.as_str(), "false") {
        Lexeme::False
    } else if str_eq(text.as_str(), "null") {
        Lexeme::Null
    } else {
        Lexeme::Ident(text, arity)
    }
}

/// Append a token, with the sequence view of the growth made explicit.
fn push_token(tokens: &mut Vec<Token>, t: Token)
    ensures
        final(tokens).deep_view() == old(tokens).deep_view().push(t.deep_view()),
{
    let ghost pre = tokens.deep_view();
    tokens.push(t);
    proof {
        assert(tokens.deep_view() =~= pre.push(t.deep_view()));
    }
}

/// Append a fault, with the sequence view of the growth made explicit.
fn push_error(errors: &mut Vec<Error>, e: Error)
    ensures
        final(errors).deep_view() == old(errors).deep_view().push(e.deep_view()),
{
    let ghost pre = errors.deep_view();
    errors.push(e);
    proof {
        assert(errors.deep_view() =~= pre.push(e.deep_view()));
    }
}

/// The scanner's state, with the pending lexeme's accumulated text.
enum ScanState {
    Default,
    Str(String),
    Ident(String, usize),
    Num(String),
    Sym(String, usize),
}

spec fn state_view(st: &ScanState) -> StateModel {
    match st {
        ScanState::Default => StateModel::Default,
        ScanState::Str(text) => StateModel::Str(text@),
        ScanState::Ident(text, arity) => StateModel::Ident(text@, *arity as nat),
        ScanState::Num(text) => StateModel::Num(text@),
        ScanState::Sym(text, arity) => StateModel::Sym(text@, *arity as nat),
    }
}

/// The arity counter never outruns the characters consumed for the pending
/// lexeme.
spec fn arity_bounded(st: &ScanState, rlen: usize) -> bool {
    match st {
        ScanState::Ident(_text, arity) => *arity <= rlen,
        ScanState::Sym(_text, arity) => *arity <= rlen,
        _ => true,
    }
}

/// Convert the source text into a stream of located tokens.
///
/// Succeeds with the tokens in source order exactly when no lexical fault was
/// found; fails with the complete, ordered fault list otherwise. An
/// unrecognised character is recorded and skipped, so several independent
/// faults can accumulate; an unterminated string literal stops the scan.
pub fn lex(code: &str) -> (r: Result<Vec<Token>, Vec<Error>>)
    requires
        code@.len() < usize::MAX,
    ensures
        lex_result_matches(code@, r),
{
    let ghost s = code@;
    let n = code.unicode_len();
    let mut state = ScanState::Default;
    let mut tokens: Vec<Token> = Vec::new();
    let mut errors: Vec<Error> = Vec::new();
    let mut sloc = SrcLoc::new(1, 1);
    let mut cloc = SrcLoc::new(1, 1);
    let mut range_len: usize = 0;
    let mut i: usize = 0;

    proof {
        assert(tokens.deep_view() =~= Seq::<crate::token::TokenModel>::empty());
        assert(errors.deep_view() =~= Seq::<crate::error::ErrorModel>::empty());
    }
    loop
        invariant_except_break
            n == s.len(),
            s == code@,
            s.len() < usize::MAX,
            i <= n,
            range_len <= i,
            cloc.line >= 1,
            cloc.col >= 1,
            cloc.line <= i + 1,
            cloc.col <= i + 1,
            arity_bounded(&state, range_len),
            state_view(&state) is Default ==> sloc == cloc && range_len == 0,
            scan(
                s,
                state_view(&state),
                sloc@,
                range_len as nat,
                cloc@,
                i as nat,
                tokens.deep_view(),
                errors.deep_view(),
            ) == lex_spec(s),
        ensures
            lex_spec(s) == (LexOut { tokens: tokens.deep_view(), errors: errors.deep_view() }),
        decreases n - i, state_rank(state_view(&state)),
    {
        if i >= n {
            // End of the input: finish or fault the pending lexeme.
            state = match state {
                ScanState::Default => { break },
                ScanState::Str(_) => {
                    push_error(&mut errors, 
                        Error::expected_delimiter('"').at(SrcRange::new(sloc, range_len)),
                    );
                    break ;
                },
                ScanState::Ident(text, arity) => {
                    push_token(&mut tokens, Token(classify_word(text, arity), SrcRange::new(sloc, range_len)));
                    ScanState::Default
                },
                ScanState::Num(text) => {
                    push_token(&mut tokens, Token(Lexeme::Num(text), SrcRange::new(sloc, range_len)));
                    ScanState::Default
                },
                ScanState::Sym(text, arity) => {
                    push_token(&mut tokens, Token(Lexeme::Ident(text, arity), SrcRange::new(sloc, range_len)));
                    ScanState::Default
                },
            };
        } else {
            let c: char = code.get_char(i);
            let mut advance = true;
            state = match state {
                ScanState::Default => {
                    if c == '"' {
                        ScanState::Str(String::new())
                    } else if c == '|' {
                        push_token(&mut tokens, 
                            Token(Lexeme::Pipe, SrcRange::new(sloc, range_len).grow_by(1)),
                        );
                        ScanState::Default
                    } else if c == '$' {
                        push_token(&mut tokens, 
                            Token(Lexeme::Dollar, SrcRange::new(sloc, range_len).grow_by(1)),
                        );
                        ScanState::Default
                    } else if c == '@' {
                        push_token(&mut tokens, Token(Lexeme::At, SrcRange::new(sloc, range_len).grow_by(1)));
                        ScanState::Default
                    } else if is_singular(c) {
                        let mut text = String::new();
                        push_char(&mut text, c);
                        push_token(&mut tokens, 
                            Token(
                                Lexeme::Ident(text, 0),
                                SrcRange::new(sloc, range_len).grow_by(1),
                            ),
                        );
                        ScanState::Default
                    } else if char_is_whitespace(c) {
                        ScanState::Default
                    } else if char_is_alphabetic(c) || c == '_' {
                        let mut text = String::new();
                        push_char(&mut text, c);
                        ScanState::Ident(text, 0)
                    } else if char_is_numeric(c) {
                        let mut text = String::new();
                        push_char(&mut text, c);
                        ScanState::Num(text)
                    } else if is_ascii_punct(c) {
                        let mut text = String::new();
                        push_char(&mut text, c);
                        ScanState::Sym(text, 0)
                    } else {
                        push_error(&mut errors, 
                            Error::unexpected_char(c).at(SrcRange::new(sloc, range_len).grow_by(1)),
                        );
                        ScanState::Default
                    }
                },
                ScanState::Str(mut text) => {
                    if c == '"' {
                        push_token(&mut tokens, 
                            Token(Lexeme::Str(text), SrcRange::new(sloc, range_len).grow_by(1)),
                        );
                        ScanState::Default
                    } else {
                        push_char(&mut text, c);
                        ScanState::Str(text)
                    }
                },
                ScanState::Ident(mut text, arity) => {
                    if (char_is_alphabetic(c) || char_is_numeric(c) || c == '_') && arity == 0 {
                        push_char(&mut text, c);
                        ScanState::Ident(text, arity)
                    } else if c == '@' {
                        ScanState::Ident(text, arity + 1)
                    } else {
                        push_token(&mut tokens, 
                            Token(classify_word(text, arity), SrcRange::new(sloc, range_len)),
                        );
                        advance = false;
                        ScanState::Default
                    }
                },
                ScanState::Num(mut text) => {
                    if char_is_alphabetic(c) || char_is_numeric(c) {
                        push_char(&mut text, c);
                        ScanState::Num(text)
                    } else {
                        push_token(&mut tokens, Token(Lexeme::Num(text), SrcRange::new(sloc, range_len)));
                        advance = false;
                        ScanState::Default
                    }
                },
                ScanState::Sym(mut text, arity) => {
                    if c == '@' {
                        ScanState::Sym(text, arity + 1)
                    } else if is_ascii_punct(c) && arity == 0 {
                        push_char(&mut text, c);
                        ScanState::Sym(text, arity)
                    } else {
                        push_token(&mut tokens, 
                            Token(Lexeme::Ident(text, arity), SrcRange::new(sloc, range_len)),
                        );
                        advance = false;
                        ScanState::Default
                    }
                },
            };
            if advance {
                if c == '\n' {
                    cloc = SrcLoc::new(cloc.line + 1, 1);
                } else {
                    cloc = SrcLoc::new(cloc.line, cloc.col + 1);
                }
                range_len = range_len + 1;
                i = i + 1;
            }
        }
        // A completed lexeme left the scanner in `Default`: the next lexeme
        // starts wherever the cursor stands now.
        if let ScanState::Default = state {
            sloc = cloc;
            range_len = 0;
        }
    }
    if errors.len() > 0 {
        Err(errors)
    } else {
        Ok(tokens)
    }
}

} // verus!
