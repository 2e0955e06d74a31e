use crate::chars::alnum_char;
use crate::chars::alphabetic_char;
use crate::chars::ascii_punct_char;
use crate::chars::numeric_char;
use crate::chars::singular_char;
use crate::chars::whitespace_char;
use crate::error::Error;
use crate::error::ErrorKindModel;
use crate::error::ErrorModel;
use crate::loc::LocModel;
use crate::loc::RangeModel;
use crate::model::lex_result_matches;
use crate::model::lex_spec;
use crate::model::loc_step;
use crate::model::scan;
use crate::model::state_rank;
use crate::model::LexOut;
use crate::model::supported_char;
use crate::model::StateModel;
use crate::token::classify;
use crate::token::LexemeModel;
use crate::token::Token;
use crate::token::TokenModel;
use vstd::prelude::*;

verus! {

/// Law: the scan's outcome is a function of the input text alone. Any two
/// results that the lexer's contract admits for the same text agree, so
/// repeated calls on identical input yield identical results.
pub proof fn lemma_lex_deterministic(
    s: Seq<char>,
    r1: Result<Vec<Token>, Vec<Error>>,
    r2: Result<Vec<Token>, Vec<Error>>,
)
    requires
        lex_result_matches(s, r1),
        lex_result_matches(s, r2),
    ensures
        r1 is Ok <==> r2 is Ok,
        r1 is Ok ==> r1->Ok_0.deep_view() == r2->Ok_0.deep_view(),
        r1 is Err ==> r1->Err_0.deep_view() == r2->Err_0.deep_view(),
{
}

/// Law: exact, case-sensitive keyword text classifies to its atomic keyword
/// lexeme and never to an identifier, and every other word classifies to an
/// identifier carrying its text and arity unchanged.
pub proof fn lemma_keyword_classification(text: Seq<char>, arity: nat)
    ensures
        classify(text, arity) == LexemeModel::Def <==> text == "def"@,
        classify(text, arity) == LexemeModel::Let <==> text == "let"@,
        classify(text, arity) == LexemeModel::True <==> text == "true"@,
        classify(text, arity) == LexemeModel::False <==> text == "false"@,
        classify(text, arity) == LexemeModel::Null <==> text == "null"@,
        !(text == "def"@ || text == "let"@ || text == "true"@ || text == "false"@ || text
            == "null"@) ==> classify(text, arity) == LexemeModel::Ident(text, arity),
{
    reveal_strlit("def");
    reveal_strlit("let");
    reveal_strlit("true");
    reveal_strlit("false");
    reveal_strlit("null");
    assert("def"@[0] != "let"@[0]);
    assert("true"@[0] != "null"@[0]);
}

proof fn lemma_supported_scan(
    s: Seq<char>,
    st: StateModel,
    sloc: LocModel,
    rlen: nat,
    cloc: LocModel,
    i: nat,
    toks: Seq<TokenModel>,
    errs: Seq<ErrorModel>,
)
    requires
        i <= s.len(),
        forall|k: int| i <= k < s.len() ==> supported_char(#[trigger] s[k]),
        forall|j: int| 0 <= j < errs.len() ==> (#[trigger] errs[j]).kind is ExpectedDelimiter,
    ensures
        forall|j: int|
            0 <= j < scan(s, st, sloc, rlen, cloc, i, toks, errs).errors.len() ==> (#[trigger] scan(
                s,
                st,
                sloc,
                rlen,
                cloc,
                i,
                toks,
                errs,
            ).errors[j]).kind is ExpectedDelimiter,
    decreases s.len() - i, state_rank(st),
{
    let range = RangeModel { start: sloc, len: rlen };
    if i >= s.len() {
        match st {
            StateModel::Default => {},
            StateModel::Str(_text) => {},
            StateModel::Ident(text, arity) => {
                lemma_supported_scan(
                    s,
                    StateModel::Default,
                    cloc,
                    0,
                    cloc,
                    i,
                    toks.push(TokenModel { lexeme: classify(text, arity), range }),
                    errs,
                );
            },
            StateModel::Num(text) => {
                lemma_supported_scan(
                    s,
                    StateModel::Default,
                    cloc,
                    0,
                    cloc,
                    i,
                    toks.push(TokenModel { lexeme: LexemeModel::Num(text), range }),
                    errs,
                );
            },
            StateModel::Sym(text, arity) => {
                lemma_supported_scan(
                    s,
                    StateModel::Default,
                    cloc,
                    0,
                    cloc,
                    i,
                    toks.push(TokenModel { lexeme: LexemeModel::Ident(text, arity), range }),
                    errs,
                );
            },
        }
    } else {
        let c = s[i as int];
        let next = loc_step(cloc, c);
        match st {
            StateModel::Default => {
                if c == '"' {
                    lemma_supported_scan(
                        s,
                        StateModel::Str(Seq::empty()),
                        sloc,
                        rlen + 1,
                        next,
                        i + 1,
                        toks,
                        errs,
                    );
                } else if c == '|' {
                    lemma_supported_scan(
                        s,
                        StateModel::Default,
                        next,
                        0,
                        next,
                        i + 1,
                        toks.push(
                            TokenModel {
                                lexeme: LexemeModel::Pipe,
                                range: RangeModel { start: sloc, len: rlen + 1 },
                            },
                        ),
                        errs,
                    );
                } else if c == '$' {
                    lemma_supported_scan(
                        s,
                        StateModel::Default,
                        next,
                        0,
                        next,
                        i + 1,
                        toks.push(
                            TokenModel {
                                lexeme: LexemeModel::Dollar,
                                range: RangeModel { start: sloc, len: rlen + 1 },
                            },
                        ),
                        errs,
                    );
                } else if c == '@' {
                    lemma_supported_scan(
                        s,
                        StateModel::Default,
                        next,
                        0,
                        next,
                        i + 1,
                        toks.push(
                            TokenModel {
                                lexeme: LexemeModel::At,
                                range: RangeModel { start: sloc, len: rlen + 1 },
                            },
                        ),
                        errs,
                    );
                } else if singular_char(c) {
                    lemma_supported_scan(
                        s,
                        StateModel::Default,
                        next,
                        0,
                        next,
                        i + 1,
                        toks.push(
                            TokenModel {
                                lexeme: LexemeModel::Ident(seq![c], 0),
                                range: RangeModel { start: sloc, len: rlen + 1 },
                            },
                        ),
                        errs,
                    );
                } else if whitespace_char(c) {
                    lemma_supported_scan(s, StateModel::Default, next, 0, next, i + 1, toks, errs);
                } else if alphabetic_char(c) || c == '_' {
                    lemma_supported_scan(
                        s,
                        StateModel::Ident(seq![c], 0),
                        sloc,
                        rlen + 1,
                        next,
                        i + 1,
                        toks,
                        errs,
                    );
                } else if numeric_char(c) {
                    lemma_supported_scan(
                        s,
                        StateModel::Num(seq![c]),
                        sloc,
                        rlen + 1,
                        next,
                        i + 1,
                        toks,
                        errs,
                    );
                } else if ascii_punct_char(c) {
                    lemma_supported_scan(
                        s,
                        StateModel::Sym(seq![c], 0),
                        sloc,
                        rlen + 1,
                        next,
                        i + 1,
                        toks,
                        errs,
                    );
                } else {
                    assert(supported_char(s[i as int]));
                    assert(false);
                }
            },
            StateModel::Str(text) => {
                if c == '"' {
                    lemma_supported_scan(
                        s,
                        StateModel::Default,
                        next,
                        0,
                        next,
                        i + 1,
                        toks.push(
                            TokenModel {
                                lexeme: LexemeModel::Str(text),
                                range: RangeModel { start: sloc, len: rlen + 1 },
                            },
                        ),
                        errs,
                    );
                } else {
                    lemma_supported_scan(
                        s,
                        StateModel::Str(text.push(c)),
                        sloc,
                        rlen + 1,
                        next,
                        i + 1,
                        toks,
                        errs,
                    );
                }
            },
            StateModel::Ident(text, arity) => {
                if (alnum_char(c) || c == '_') && arity == 0 {
                    lemma_supported_scan(
                        s,
                        StateModel::Ident(text.push(c), arity),
                        sloc,
                        rlen + 1,
                        next,
                        i + 1,
                        toks,
                        errs,
                    );
                } else if c == '@' {
                    lemma_supported_scan(
                        s,
                        StateModel::Ident(text, arity + 1),
                        sloc,
                        rlen + 1,
                        next,
                        i + 1,
                        toks,
                        errs,
                    );
                } else {
                    lemma_supported_scan(
                        s,
                        StateModel::Default,
                        cloc,
                        0,
                        cloc,
                        i,
                        toks.push(TokenModel { lexeme: classify(text, arity), range }),
                        errs,
                    );
                }
            },
            StateModel::Num(text) => {
                if alnum_char(c) {
                    lemma_supported_scan(
                        s,
                        StateModel::Num(text.push(c)),
                        sloc,
                        rlen + 1,
                        next,
                        i + 1,
                        toks,
                        errs,
                    );
                } else {
                    lemma_supported_scan(
                        s,
                        StateModel::Default,
                        cloc,
                        0,
                        cloc,
                        i,
                        toks.push(TokenModel { lexeme: LexemeModel::Num(text), range }),
                        errs,
                    );
                }
            },
            StateModel::Sym(text, arity) => {
                if c == '@' {
                    lemma_supported_scan(
                        s,
                        StateModel::Sym(text, arity + 1),
                        sloc,
                        rlen + 1,
                        next,
                        i + 1,
                        toks,
                        errs,
                    );
                } else if ascii_punct_char(c) && arity == 0 {
                    lemma_supported_scan(
                        s,
                        StateModel::Sym(text.push(c), arity),
                        sloc,
                        rlen + 1,
                        next,
                        i + 1,
                        toks,
                        errs,
                    );
                } else {
                    lemma_supported_scan(
                        s,
                        StateModel::Default,
                        cloc,
                        0,
                        cloc,
                        i,
                        toks.push(TokenModel { lexeme: LexemeModel::Ident(text, arity), range }),
                        errs,
                    );
                }
            },
        }
    }
}

/// Law: on input whose every character the scanner has a rule for, the only
/// fault that can remain is a missing string delimiter; if additionally every
/// string literal is terminated — no missing-delimiter fault either — the
/// scan succeeds.
pub proof fn lemma_supported_faults(s: Seq<char>)
    ensures
        (forall|k: int| 0 <= k < s.len() ==> supported_char(#[trigger] s[k])) ==> forall|j: int|
            0 <= j < lex_spec(s).errors.len() ==> (#[trigger] lex_spec(
                s,
            ).errors[j]).kind is ExpectedDelimiter,
        (forall|k: int| 0 <= k < s.len() ==> supported_char(#[trigger] s[k])) && (forall|j: int|
            0 <= j < lex_spec(s).errors.len() ==> !((#[trigger] lex_spec(
                s,
            ).errors[j]).kind is ExpectedDelimiter)) ==> lex_spec(s).errors.len() == 0,
{
    if forall|k: int| 0 <= k < s.len() ==> supported_char(#[trigger] s[k]) {
        lemma_supported_scan(
            s,
            StateModel::Default,
            LocModel { line: 1, col: 1 },
            0,
            LocModel { line: 1, col: 1 },
            0,
            Seq::<TokenModel>::empty(),
            Seq::<ErrorModel>::empty(),
        );
        if lex_spec(s).errors.len() > 0 {
            assert(lex_spec(s).errors[0].kind is ExpectedDelimiter);
        }
    }
}

/// The line/column position of the character at index `k` of `s`: the cursor
/// starts at line 1, column 1 and advances over every earlier character.
pub open spec fn pos_at(s: Seq<char>, k: int) -> LocModel
    decreases k,
{
    if k <= 0 {
        LocModel { line: 1, col: 1 }
    } else {
        loc_step(pos_at(s, k - 1), s[k - 1])
    }
}

/// `spans` places the tokens of `toks` at intervals of character indices:
/// one interval per token, in source order, never overlapping, and each
/// token's range starts at its interval's position and counts exactly its
/// interval's characters.
pub open spec fn spans_place(s: Seq<char>, toks: Seq<TokenModel>, spans: Seq<(int, int)>) -> bool {
    &&& spans.len() == toks.len()
    &&& (forall|j: int|
        0 <= j < spans.len() ==> 0 <= (#[trigger] spans[j]).0 < spans[j].1 <= s.len())
    &&& (forall|j: int| 0 < j < spans.len() ==> (#[trigger] spans[j]).0 >= spans[j - 1].1)
    &&& (forall|j: int|
        0 <= j < spans.len() ==> (#[trigger] toks[j]).range.start == pos_at(s, spans[j].0))
    &&& (forall|j: int|
        0 <= j < spans.len() ==> (#[trigger] toks[j]).range.len == spans[j].1 - spans[j].0)
}

/// Every non-whitespace character of `s` from index `from` on falls inside
/// one of `spans`.
pub open spec fn spans_cover(s: Seq<char>, spans: Seq<(int, int)>, from: int) -> bool {
    forall|k: int|
        from <= k < s.len() && !whitespace_char(#[trigger] s[k]) ==> exists|j: int|
            0 <= j < spans.len() && ((#[trigger] spans[j]).0 <= k < spans[j].1)
}

/// Placing one more token in front of an already placed suffix.
proof fn lemma_place_cons(
    s: Seq<char>,
    t: TokenModel,
    sp: (int, int),
    suffix: Seq<TokenModel>,
    spans: Seq<(int, int)>,
)
    requires
        spans_place(s, suffix, spans),
        spans_cover(s, spans, sp.1),
        forall|j: int| 0 <= j < spans.len() ==> (#[trigger] spans[j]).0 >= sp.1,
        0 <= sp.0 < sp.1 <= s.len(),
        t.range.start == pos_at(s, sp.0),
        t.range.len == sp.1 - sp.0,
    ensures
        spans_place(s, seq![t] + suffix, seq![sp] + spans),
        spans_cover(s, seq![sp] + spans, sp.0),
        forall|j: int|
            0 <= j < (seq![sp] + spans).len() ==> ((#[trigger] (seq![sp] + spans)[j]).0 >= sp.0),
{
    let nspans = seq![sp] + spans;
    let ntoks = seq![t] + suffix;
    assert(nspans[0] == sp);
    assert(ntoks[0] == t);
    assert(forall|j: int| 0 < j < nspans.len() ==> #[trigger] nspans[j] == spans[j - 1]);
    assert(forall|j: int| 0 < j < ntoks.len() ==> #[trigger] ntoks[j] == suffix[j - 1]);
    assert forall|k: int|
        sp.0 <= k < s.len() && !whitespace_char(#[trigger] s[k]) implies exists|j: int|
        0 <= j < nspans.len() && ((#[trigger] nspans[j]).0 <= k < nspans[j].1) by {
        if k < sp.1 {
            assert(nspans[0].0 <= k < nspans[0].1);
        } else {
            let j = choose|j: int|
                0 <= j < spans.len() && ((#[trigger] spans[j]).0 <= k < spans[j].1);
            assert(nspans[j + 1].0 <= k < nspans[j + 1].1);
        }
    }
}

/// A stretch of whitespace in front of a covered tail is covered too.
proof fn lemma_cover_weaken(s: Seq<char>, spans: Seq<(int, int)>, from: int, upto: int)
    requires
        spans_cover(s, spans, upto),
        from <= upto,
        forall|k: int| from <= k < upto && k < s.len() ==> whitespace_char(#[trigger] s[k]),
    ensures
        spans_cover(s, spans, from),
{
}

#[verifier::rlimit(100)]
#[verifier::spinoff_prover]
proof fn lemma_coverage_scan(
    s: Seq<char>,
    st: StateModel,
    sloc: LocModel,
    rlen: nat,
    cloc: LocModel,
    i: nat,
    toks: Seq<TokenModel>,
    errs: Seq<ErrorModel>,
) -> (r: (Seq<(int, int)>, Seq<TokenModel>))
    requires
        i <= s.len(),
        rlen <= i,
        st is Default ==> rlen == 0 && sloc == cloc,
        !(st is Default) ==> rlen >= 1,
        cloc == pos_at(s, i as int),
        sloc == pos_at(s, i - rlen),
        forall|k: int| i <= k < s.len() ==> supported_char(#[trigger] s[k]),
        scan(s, st, sloc, rlen, cloc, i, toks, errs).errors == errs,
    ensures
        scan(s, st, sloc, rlen, cloc, i, toks, errs).tokens == toks + r.1,
        spans_place(s, r.1, r.0),
        spans_cover(s, r.0, i - rlen),
        forall|j: int| 0 <= j < r.0.len() ==> (#[trigger] r.0[j]).0 >= i - rlen,
    decreases s.len() - i, state_rank(st),
{
    let range = RangeModel { start: sloc, len: rlen };
    let out = scan(s, st, sloc, rlen, cloc, i, toks, errs);
    if i >= s.len() {
        match st {
            StateModel::Default => {
                assert(out.tokens =~= toks + Seq::<TokenModel>::empty());
                (Seq::<(int, int)>::empty(), Seq::<TokenModel>::empty())
            },
            StateModel::Str(_text) => {
                assert(out.errors == errs.push(
                    ErrorModel { kind: ErrorKindModel::ExpectedDelimiter('"'), range },
                ));
                assert(out.errors.len() == errs.len() + 1);
                assert(false);
                (Seq::<(int, int)>::empty(), Seq::<TokenModel>::empty())
            },
            StateModel::Ident(text, arity) => {
                let tok = TokenModel { lexeme: classify(text, arity), range };
                let (spans2, suffix2) = lemma_coverage_scan(
                    s,
                    StateModel::Default,
                    cloc,
                    0,
                    cloc,
                    i,
                    toks.push(tok),
                    errs,
                );
                let sp = ((i - rlen) as int, i as int);
                lemma_place_cons(s, tok, sp, suffix2, spans2);
                assert(out.tokens =~= toks + (seq![tok] + suffix2));
                (seq![sp] + spans2, seq![tok] + suffix2)
            },
            StateModel::Num(text) => {
                let tok = TokenModel { lexeme: LexemeModel::Num(text), range };
                let (spans2, suffix2) = lemma_coverage_scan(
                    s,
                    StateModel::Default,
                    cloc,
                    0,
                    cloc,
                    i,
                    toks.push(tok),
                    errs,
                );
                let sp = ((i - rlen) as int, i as int);
                lemma_place_cons(s, tok, sp, suffix2, spans2);
                assert(out.tokens =~= toks + (seq![tok] + suffix2));
                (seq![sp] + spans2, seq![tok] + suffix2)
            },
            StateModel::Sym(text, arity) => {
                let tok = TokenModel { lexeme: LexemeModel::Ident(text, arity), range };
                let (spans2, suffix2) = lemma_coverage_scan(
                    s,
                    StateModel::Default,
                    cloc,
                    0,
                    cloc,
                    i,
                    toks.push(tok),
                    errs,
                );
                let sp = ((i - rlen) as int, i as int);
                lemma_place_cons(s, tok, sp, suffix2, spans2);
                assert(out.tokens =~= toks + (seq![tok] + suffix2));
                (seq![sp] + spans2, seq![tok] + suffix2)
            },
        }
    } else {
        let c = s[i as int];
        let next = loc_step(cloc, c);
        assert(pos_at(s, (i + 1) as int) == loc_step(pos_at(s, i as int), c));
        match st {
            StateModel::Default => {
                if c == '"' {
                    let (spans2, suffix2) = lemma_coverage_scan(
                        s,
                        StateModel::Str(Seq::empty()),
                        sloc,
                        rlen + 1,
                        next,
                        i + 1,
                        toks,
                        errs,
                    );
                    (spans2, suffix2)
                } else if c == '|' {
                    let tok = TokenModel {
                        lexeme: LexemeModel::Pipe,
                        range: RangeModel { start: sloc, len: rlen + 1 },
                    };
                    let (spans2, suffix2) = lemma_coverage_scan(
                        s,
                        StateModel::Default,
                        next,
                        0,
                        next,
                        i + 1,
                        toks.push(tok),
                        errs,
                    );
                    let sp = (i as int, (i + 1) as int);
                    lemma_place_cons(s, tok, sp, suffix2, spans2);
                    assert(out.tokens =~= toks + (seq![tok] + suffix2));
                    (seq![sp] + spans2, seq![tok] + suffix2)
                } else if c == '$' {
                    let tok = TokenModel {
                        lexeme: LexemeModel::Dollar,
                        range: RangeModel { start: sloc, len: rlen + 1 },
                    };
                    let (spans2, suffix2) = lemma_coverage_scan(
                        s,
                        StateModel::Default,
                        next,
                        0,
                        next,
                        i + 1,
                        toks.push(tok),
                        errs,
                    );
                    let sp = (i as int, (i + 1) as int);
                    lemma_place_cons(s, tok, sp, suffix2, spans2);
                    assert(out.tokens =~= toks + (seq![tok] + suffix2));
                    (seq![sp] + spans2, seq![tok] + suffix2)
                } else if c == '@' {
                    let tok = TokenModel {
                        lexeme: LexemeModel::At,
                        range: RangeModel { start: sloc, len: rlen + 1 },
                    };
                    let (spans2, suffix2) = lemma_coverage_scan(
                        s,
                        StateModel::Default,
                        next,
                        0,
                        next,
                        i + 1,
                        toks.push(tok),
                        errs,
                    );
                    let sp = (i as int, (i + 1) as int);
                    lemma_place_cons(s, tok, sp, suffix2, spans2);
                    assert(out.tokens =~= toks + (seq![tok] + suffix2));
                    (seq![sp] + spans2, seq![tok] + suffix2)
                } else if singular_char(c) {
                    let tok = TokenModel {
                        lexeme: LexemeModel::Ident(seq![c], 0),
                        range: RangeModel { start: sloc, len: rlen + 1 },
                    };
                    let (spans2, suffix2) = lemma_coverage_scan(
                        s,
                        StateModel::Default,
                        next,
                        0,
                        next,
                        i + 1,
                        toks.push(tok),
                        errs,
                    );
                    let sp = (i as int, (i + 1) as int);
                    lemma_place_cons(s, tok, sp, suffix2, spans2);
                    assert(out.tokens =~= toks + (seq![tok] + suffix2));
                    (seq![sp] + spans2, seq![tok] + suffix2)
                } else if whitespace_char(c) {
                    let (spans2, suffix2) = lemma_coverage_scan(
                        s,
                        StateModel::Default,
                        next,
                        0,
                        next,
                        i + 1,
                        toks,
                        errs,
                    );
                    lemma_cover_weaken(s, spans2, i as int, (i + 1) as int);
                    (spans2, suffix2)
                } else if alphabetic_char(c) || c == '_' {
                    let (spans2, suffix2) = lemma_coverage_scan(
                        s,
                        StateModel::Ident(seq![c], 0),
                        sloc,
                        rlen + 1,
                        next,
                        i + 1,
                        toks,
                        errs,
                    );
                    (spans2, suffix2)
                } else if numeric_char(c) {
                    let (spans2, suffix2) = lemma_coverage_scan(
                        s,
                        StateModel::Num(seq![c]),
                        sloc,
                        rlen + 1,
                        next,
                        i + 1,
                        toks,
                        errs,
                    );
                    (spans2, suffix2)
                } else if ascii_punct_char(c) {
                    let (spans2, suffix2) = lemma_coverage_scan(
                        s,
                        StateModel::Sym(seq![c], 0),
                        sloc,
                        rlen + 1,
                        next,
                        i + 1,
                        toks,
                        errs,
                    );
                    (spans2, suffix2)
                } else {
                    assert(supported_char(s[i as int]));
                    assert(false);
                    (Seq::<(int, int)>::empty(), Seq::<TokenModel>::empty())
                }
            },
            StateModel::Str(text) => {
                if c == '"' {
                    let tok = TokenModel {
                        lexeme: LexemeModel::Str(text),
                        range: RangeModel { start: sloc, len: rlen + 1 },
                    };
                    let (spans2, suffix2) = lemma_coverage_scan(
                        s,
                        StateModel::Default,
                        next,
                        0,
                        next,
                        i + 1,
                        toks.push(tok),
                        errs,
                    );
                    let sp = ((i - rlen) as int, (i + 1) as int);
                    lemma_place_cons(s, tok, sp, suffix2, spans2);
                    assert(out.tokens =~= toks + (seq![tok] + suffix2));
                    (seq![sp] + spans2, seq![tok] + suffix2)
                } else {
                    let (spans2, suffix2) = lemma_coverage_scan(
                        s,
                        StateModel::Str(text.push(c)),
                        sloc,
                        rlen + 1,
                        next,
                        i + 1,
                        toks,
                        errs,
                    );
                    (spans2, suffix2)
                }
            },
            StateModel::Ident(text, arity) => {
                if (alnum_char(c) || c == '_') && arity == 0 {
                    let (spans2, suffix2) = lemma_coverage_scan(
                        s,
                        StateModel::Ident(text.push(c), arity),
                        sloc,
                        rlen + 1,
                        next,
                        i + 1,
                        toks,
                        errs,
                    );
                    (spans2, suffix2)
                } else if c == '@' {
                    let (spans2, suffix2) = lemma_coverage_scan(
                        s,
                        StateModel::Ident(text, arity + 1),
                        sloc,
                        rlen + 1,
                        next,
                        i + 1,
                        toks,
                        errs,
                    );
                    (spans2, suffix2)
                } else {
                    let tok = TokenModel { lexeme: classify(text, arity), range };
                    let (spans2, suffix2) = lemma_coverage_scan(
                        s,
                        StateModel::Default,
                        cloc,
                        0,
                        cloc,
                        i,
                        toks.push(tok),
                        errs,
                    );
                    let sp = ((i - rlen) as int, i as int);
                    lemma_place_cons(s, tok, sp, suffix2, spans2);
                    assert(out.tokens =~= toks + (seq![tok] + suffix2));
                    (seq![sp] + spans2, seq![tok] + suffix2)
                }
            },
            StateModel::Num(text) => {
                if alnum_char(c) {
                    let (spans2, suffix2) = lemma_coverage_scan(
                        s,
                        StateModel::Num(text.push(c)),
                        sloc,
                        rlen + 1,
                        next,
                        i + 1,
                        toks,
                        errs,
                    );
                    (spans2, suffix2)
                } else {
                    let tok = TokenModel { lexeme: LexemeModel::Num(text), range };
                    let (spans2, suffix2) = lemma_coverage_scan(
                        s,
                        StateModel::Default,
                        cloc,
                        0,
                        cloc,
                        i,
                        toks.push(tok),
                        errs,
                    );
                    let sp = ((i - rlen) as int, i as int);
                    lemma_place_cons(s, tok, sp, suffix2, spans2);
                    assert(out.tokens =~= toks + (seq![tok] + suffix2));
                    (seq![sp] + spans2, seq![tok] + suffix2)
                }
            },
            StateModel::Sym(text, arity) => {
                if c == '@' {
                    let (spans2, suffix2) = lemma_coverage_scan(
                        s,
                        StateModel::Sym(text, arity + 1),
                        sloc,
                        rlen + 1,
                        next,
                        i + 1,
                        toks,
                        errs,
                    );
                    (spans2, suffix2)
                } else if ascii_punct_char(c) && arity == 0 {
                    let (spans2, suffix2) = lemma_coverage_scan(
                        s,
                        StateModel::Sym(text.push(c), arity),
                        sloc,
                        rlen + 1,
                        next,
                        i + 1,
                        toks,
                        errs,
                    );
                    (spans2, suffix2)
                } else {
                    let tok = TokenModel { lexeme: LexemeModel::Ident(text, arity), range };
                    let (spans2, suffix2) = lemma_coverage_scan(
                        s,
                        StateModel::Default,
                        cloc,
                        0,
                        cloc,
                        i,
                        toks.push(tok),
                        errs,
                    );
                    let sp = ((i - rlen) as int, i as int);
                    lemma_place_cons(s, tok, sp, suffix2, spans2);
                    assert(out.tokens =~= toks + (seq![tok] + suffix2));
                    (seq![sp] + spans2, seq![tok] + suffix2)
                }
            },
        }
    }
}

/// Law: a scan that succeeds on input the scanner has rules for places its
/// tokens over the text in source order. Each token's range names the
/// position and length of one interval of character indices; the intervals
/// are ordered and never overlap; and together they cover every
/// non-whitespace character of the input.
pub proof fn lemma_success_coverage(s: Seq<char>) -> (spans: Seq<(int, int)>)
    ensures
        ((forall|k: int| 0 <= k < s.len() ==> supported_char(#[trigger] s[k])) && lex_spec(
            s,
        ).errors.len() == 0) ==> spans_place(s, lex_spec(s).tokens, spans) && spans_cover(
            s,
            spans,
            0,
        ),
{
    if (forall|k: int| 0 <= k < s.len() ==> supported_char(#[trigger] s[k])) && lex_spec(
        s,
    ).errors.len() == 0 {
        assert(lex_spec(s).errors =~= Seq::<ErrorModel>::empty());
        let (spans0, suffix) = lemma_coverage_scan(
            s,
            StateModel::Default,
            LocModel { line: 1, col: 1 },
            0,
            LocModel { line: 1, col: 1 },
            0,
            Seq::<TokenModel>::empty(),
            Seq::<ErrorModel>::empty(),
        );
        assert(lex_spec(s).tokens =~= suffix);
        spans0
    } else {
        Seq::<(int, int)>::empty()
    }
}

proof fn lemma_whitespace_scan(
    s: Seq<char>,
    l: LocModel,
    i: nat,
    toks: Seq<TokenModel>,
    errs: Seq<ErrorModel>,
)
    requires
        i <= s.len(),
        forall|k: int| 0 <= k < s.len() ==> whitespace_char(#[trigger] s[k]),
    ensures
        scan(s, StateModel::Default, l, 0, l, i, toks, errs) == (LexOut {
            tokens: toks,
            errors: errs,
        }),
    decreases s.len() - i,
{
    if i < s.len() {
        lemma_whitespace_scan(s, loc_step(l, s[i as int]), i + 1, toks, errs);
    }
}

/// Law: an input of whitespace alone scans without fault to an empty token
/// sequence.
pub proof fn lemma_whitespace_only(s: Seq<char>)
    ensures
        (forall|k: int| 0 <= k < s.len() ==> whitespace_char(#[trigger] s[k])) ==> lex_spec(s)
            == (LexOut {
            tokens: Seq::<TokenModel>::empty(),
            errors: Seq::<ErrorModel>::empty(),
        }),
{
    if forall|k: int| 0 <= k < s.len() ==> whitespace_char(#[trigger] s[k]) {
        lemma_whitespace_scan(
            s,
            LocModel { line: 1, col: 1 },
            0,
            Seq::<TokenModel>::empty(),
            Seq::<ErrorModel>::empty(),
        );
    }
}

} // verus!
