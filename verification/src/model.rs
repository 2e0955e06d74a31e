use crate::chars::alnum_char;
use crate::chars::alphabetic_char;
use crate::chars::ascii_punct_char;
use crate::chars::numeric_char;
use crate::chars::singular_char;
use crate::chars::whitespace_char;
use crate::error::Error;
use crate::error::ErrorKindModel;
use crate::error::ErrorModel;
use crate::loc::LocModel;
use crate::loc::RangeModel;
use crate::token::classify;
use crate::token::LexemeModel;
use crate::token::Token;
use crate::token::TokenModel;
use vstd::prelude::*;

verus! {

/// A character that the scanner has a rule for in every state: one that can
/// never be the subject of an unexpected-character fault.
pub open spec fn supported_char(c: char) -> bool {
    c == '"' || c == '|' || c == '$' || c == '@' || singular_char(c) || whitespace_char(c)
        || alphabetic_char(c) || c == '_' || numeric_char(c) || ascii_punct_char(c)
}

/// The scanner's state between two characters: either no lexeme is in
/// progress, or one of the four kinds of lexeme is being accumulated.
#[verifier::ext_equal]
pub ghost enum StateModel {
    Default,
    Str(Seq<char>),
    Ident(Seq<char>, nat),
    Num(Seq<char>),
    Sym(Seq<char>, nat),
}

/// Emitting a pending lexeme re-dispatches the terminating character from the
/// `Default` state without consuming it, so within one position the scanner
/// steps at most once off a non-`Default` state.
pub open spec fn state_rank(st: StateModel) -> nat {
    if st is Default {
        0
    } else {
        1
    }
}

/// Everything one scan accumulates: the completed tokens and the faults, both
/// in source order.
#[verifier::ext_equal]
pub ghost struct LexOut {
    pub tokens: Seq<TokenModel>,
    pub errors: Seq<ErrorModel>,
}

/// Advance the line/column cursor over one consumed character: a newline
/// starts the next line at column 1, anything else moves one column right.
pub open spec fn loc_step(l: LocModel, c: char) -> LocModel {
    if c == '\n' {
        LocModel { line: l.line + 1, col: 1 }
    } else {
        LocModel { line: l.line, col: l.col + 1 }
    }
}

/// One whole scan from position `i` onward, as a recursive state machine.
///
/// `sloc` is where the pending lexeme started and `rlen` how many characters
/// it has consumed; while no lexeme is pending they equal `cloc` and 0.
/// `cloc` is the running cursor, and `toks` and `errs` are what has been
/// accumulated so far. Only running out of characters ends the scan; a NUL
/// is a character like any other — unsupported outside a string literal,
/// stored verbatim inside one.
pub open spec fn scan(
    s: Seq<char>,
    st: StateModel,
    sloc: LocModel,
    rlen: nat,
    cloc: LocModel,
    i: nat,
    toks: Seq<TokenModel>,
    errs: Seq<ErrorModel>,
) -> LexOut
    decreases s.len() - i, state_rank(st),
{
    let range = RangeModel { start: sloc, len: rlen };
    if i >= s.len() {
        match st {
            StateModel::Default => LexOut { tokens: toks, errors: errs },
            StateModel::Str(_text) => LexOut {
                tokens: toks,
                errors: errs.push(
                    ErrorModel { kind: ErrorKindModel::ExpectedDelimiter('"'), range },
                ),
            },
            StateModel::Ident(text, arity) => scan(
                s,
                StateModel::Default,
                cloc,
                0,
                cloc,
                i,
                toks.push(TokenModel { lexeme: classify(text, arity), range }),
                errs,
            ),
            StateModel::Num(text) => scan(
                s,
                StateModel::Default,
                cloc,
                0,
                cloc,
                i,
                toks.push(TokenModel { lexeme: LexemeModel::Num(text), range }),
                errs,
            ),
            StateModel::Sym(text, arity) => scan(
                s,
                StateModel::Default,
                cloc,
                0,
                cloc,
                i,
                toks.push(TokenModel { lexeme: LexemeModel::Ident(text, arity), range }),
                errs,
            ),
        }
    } else {
        let c = s[i as int];
        let next = loc_step(cloc, c);
        match st {
            StateModel::Default => {
                if c == '"' {
                    scan(s, StateModel::Str(Seq::empty()), sloc, rlen + 1, next, i + 1, toks, errs)
                } else if c == '|' {
                    scan(
                        s,
                        StateModel::Default,
                        next,
                        0,
                        next,
                        i + 1,
                        toks.push(
                            TokenModel {
                                lexeme: LexemeModel::Pipe,
                                range: RangeModel { start: sloc, len: rlen + 1 },
                            },
                        ),
                        errs,
                    )
                } else if c == '$' {
                    scan(
                        s,
                        StateModel::Default,
                        next,
                        0,
                        next,
                        i + 1,
                        toks.push(
                            TokenModel {
                                lexeme: LexemeModel::Dollar,
                                range: RangeModel { start: sloc, len: rlen + 1 },
                            },
                        ),
                        errs,
                    )
                } else if c == '@' {
                    scan(
                        s,
                        StateModel::Default,
                        next,
                        0,
                        next,
                        i + 1,
                        toks.push(
                            TokenModel {
                                lexeme: LexemeModel::At,
                                range: RangeModel { start: sloc, len: rlen + 1 },
                            },
                        ),
                        errs,
                    )
                } else if singular_char(c) {
                    scan(
                        s,
                        StateModel::Default,
                        next,
                        0,
                        next,
                        i + 1,
                        toks.push(
                            TokenModel {
                                lexeme: LexemeModel::Ident(seq![c], 0),
                                range: RangeModel { start: sloc, len: rlen + 1 },
                            },
                        ),
                        errs,
                    )
                } else if whitespace_char(c) {
                    scan(s, StateModel::Default, next, 0, next, i + 1, toks, errs)
                } else if alphabetic_char(c) || c == '_' {
                    scan(
                        s,
                        StateModel::Ident(seq![c], 0),
                        sloc,
                        rlen + 1,
                        next,
                        i + 1,
                        toks,
                        errs,
                    )
                } else if numeric_char(c) {
                    scan(s, StateModel::Num(seq![c]), sloc, rlen + 1, next, i + 1, toks, errs)
                } else if ascii_punct_char(c) {
                    scan(s, StateModel::Sym(seq![c], 0), sloc, rlen + 1, next, i + 1, toks, errs)
                } else {
                    scan(
                        s,
                        StateModel::Default,
                        next,
                        0,
                        next,
                        i + 1,
                        toks,
                        errs.push(
                            ErrorModel {
                                kind: ErrorKindModel::UnexpectedChar(c),
                                range: RangeModel { start: sloc, len: rlen + 1 },
                            },
                        ),
                    )
                }
            },
            StateModel::Str(text) => {
                if c == '"' {
                    scan(
                        s,
                        StateModel::Default,
                        next,
                        0,
                        next,
                        i + 1,
                        toks.push(
                            TokenModel {
                                lexeme: LexemeModel::Str(text),
                                range: RangeModel { start: sloc, len: rlen + 1 },
                            },
                        ),
                        errs,
                    )
                } else {
                    scan(s, StateModel::Str(text.push(c)), sloc, rlen + 1, next, i + 1, toks, errs)
                }
            },
            StateModel::Ident(text, arity) => {
                if (alnum_char(c) || c == '_') && arity == 0 {
                    scan(
                        s,
                        StateModel::Ident(text.push(c), arity),
                        sloc,
                        rlen + 1,
                        next,
                        i + 1,
                        toks,
                        errs,
                    )
                } else if c == '@' {
                    scan(
                        s,
                        StateModel::Ident(text, arity + 1),
                        sloc,
                        rlen + 1,
                        next,
                        i + 1,
                        toks,
                        errs,
                    )
                } else {
                    scan(
                        s,
                        StateModel::Default,
                        cloc,
                        0,
                        cloc,
                        i,
                        toks.push(TokenModel { lexeme: classify(text, arity), range }),
                        errs,
                    )
                }
            },
            StateModel::Num(text) => {
                if alnum_char(c) {
                    scan(
                        s,
                        StateModel::Num(text.push(c)),
                        sloc,
                        rlen + 1,
                        next,
                        i + 1,
                        toks,
                        errs,
                    )
                } else {
                    scan(
                        s,
                        StateModel::Default,
                        cloc,
                        0,
                        cloc,
                        i,
                        toks.push(TokenModel { lexeme: LexemeModel::Num(text), range }),
                        errs,
                    )
                }
            },
            StateModel::Sym(text, arity) => {
                if c == '@' {
                    scan(
                        s,
                        StateModel::Sym(text, arity + 1),
                        sloc,
                        rlen + 1,
                        next,
                        i + 1,
                        toks,
                        errs,
                    )
                } else if ascii_punct_char(c) && arity == 0 {
                    scan(
                        s,
                        StateModel::Sym(text.push(c), arity),
                        sloc,
                        rlen + 1,
                        next,
                        i + 1,
                        toks,
                        errs,
                    )
                } else {
                    scan(
                        s,
                        StateModel::Default,
                        cloc,
                        0,
                        cloc,
                        i,
                        toks.push(TokenModel { lexeme: LexemeModel::Ident(text, arity), range }),
                        errs,
                    )
                }
            },
        }
    }
}

/// The whole lexical analysis of `s`: scan from the first character, in the
/// `Default` state, with the cursor at line 1, column 1.
pub open spec fn lex_spec(s: Seq<char>) -> LexOut {
    scan(
        s,
        StateModel::Default,
        LocModel { line: 1, col: 1 },
        0,
        LocModel { line: 1, col: 1 },
        0,
        Seq::empty(),
        Seq::empty(),
    )
}

/// What `lex` promises of its result: the complete token sequence exactly
/// when the scan found no fault, and the complete fault sequence otherwise.
pub open spec fn lex_result_matches(s: Seq<char>, r: Result<Vec<Token>, Vec<Error>>) -> bool {
    let out = lex_spec(s);
    match r {
        Ok(toks) => out.errors.len() == 0 && toks.deep_view() == out.tokens,
        Err(errs) => out.errors.len() > 0 && errs.deep_view() == out.errors,
    }
}

} // verus!
