use crate::loc::RangeModel;
use crate::loc::SrcRange;
use vstd::prelude::*;

verus! {

/// The closed set of lexeme kinds.
///
/// `Ident` carries its text and an arity: the count of trailing `@` markers
/// consumed after the identifier's or operator's base text. Singular
/// punctuation and symbolic operators reuse `Ident`, distinguished downstream
/// only by their text. `Str` carries the literal's content without its
/// delimiting quotes; `Num` carries the raw digit/letter run, validated by a
/// later stage.
#[derive(Clone, Debug, PartialEq)]
pub enum Lexeme {
    Ident(String, usize),
    Str(String),
    Num(String),
    Def,
    Let,
    True,
    False,
    Null,
    Pipe,
    Dollar,
    At,
}

/// Mathematical image of a [`Lexeme`].
#[verifier::ext_equal]
pub ghost enum LexemeModel {
    Ident(Seq<char>, nat),
    Str(Seq<char>),
    Num(Seq<char>),
    Def,
    Let,
    True,
    False,
    Null,
    Pipe,
    Dollar,
    At,
}

impl DeepView for Lexeme {
    type V = LexemeModel;

    open spec fn deep_view(&self) -> LexemeModel {
        match self {
            Lexeme::Ident(text, arity) => LexemeModel::Ident(text@, *arity as nat),
            Lexeme::Str(text) => LexemeModel::Str(text@),
            Lexeme::Num(text) => LexemeModel::Num(text@),
            Lexeme::Def => LexemeModel::Def,
            Lexeme::Let => LexemeModel::Let,
            Lexeme::True => LexemeModel::True,
            Lexeme::False => LexemeModel::False,
            Lexeme::Null => LexemeModel::Null,
            Lexeme::Pipe => LexemeModel::Pipe,
            Lexeme::Dollar => LexemeModel::Dollar,
            Lexeme::At => LexemeModel::At,
        }
    }
}

/// A lexeme paired with the source range it was scanned from.
#[derive(Clone, Debug, PartialEq)]
pub struct Token(pub Lexeme, pub SrcRange);

/// Mathematical image of a [`Token`].
#[verifier::ext_equal]
pub ghost struct TokenModel {
    pub lexeme: LexemeModel,
    pub range: RangeModel,
}

impl DeepView for Token {
    type V = TokenModel;

    open spec fn deep_view(&self) -> TokenModel {
        TokenModel { lexeme: self.0.deep_view(), range: self.1@ }
    }
}

/// The keyword table: a completed word is looked up by its text alone, and
/// every other word is an identifier carrying its arity.
pub open spec fn classify(text: Seq<char>, arity: nat) -> LexemeModel {
    if text == "def"@ {
        LexemeModel::Def
    } else if text == "let"@ {
        LexemeModel::Let
    } else if text == "true"@ {
        LexemeModel::True
    } else if text == "false"@ {
        LexemeModel::False
    } else if text == "null"@ {
        LexemeModel::Null
    } else {
        LexemeModel::Ident(text, arity)
    }
}

} // verus!
