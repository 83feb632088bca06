//! Property values: a relation bound to a value, which is either an
//! identifier or a string with the identifier of its datatype.

use crate::error::{Error, Rule};
use crate::id::{render_ident, Id, Ident, IdentView, RelationId, RelationIdent};
use crate::strings::{QuotedStr, QuotedString};
use crate::text::{chars_of, string_from};
use crate::token::{
    lemma_parse_render_tokens, parse_tokens, read_tokens, render_tokens, tokens_view, tokens_wf,
    Token, TokenView,
};
use vstd::prelude::*;

verus! {

/// What a property value is.
pub enum PvView {
    /// The relation, and the identifier of the value.
    Identified(IdentView, IdentView),
    /// The relation, the value as a string, and the identifier of its
    /// datatype.
    Typed(IdentView, Seq<char>, IdentView),
}

impl PvView {
    /// What can be written and read back: every identifier in it can.
    pub open spec fn wf(self) -> bool {
        match self {
            PvView::Identified(relation, value) => relation.wf() && value.wf(),
            PvView::Typed(relation, _, datatype) => relation.wf() && datatype.wf(),
        }
    }

    /// The tokens that a property value is written as: two identifiers, or
    /// an identifier, a quoted string and an identifier.
    pub open spec fn tokens(self) -> Seq<TokenView> {
        match self {
            PvView::Identified(relation, value) => seq![
                TokenView::Ident(relation),
                TokenView::Ident(value),
            ],
            PvView::Typed(relation, value, datatype) => seq![
                TokenView::Ident(relation),
                TokenView::Quoted(value),
                TokenView::Ident(datatype),
            ],
        }
    }
}

/// The property value that a sequence of tokens stands for. Between the
/// relation and the datatype, an identifier is taken for a string: its text
/// is the value.
pub open spec fn pv_of_tokens(ts: Seq<TokenView>) -> Option<PvView> {
    if ts.len() == 2 {
        match (ts[0], ts[1]) {
            (TokenView::Ident(relation), TokenView::Ident(value)) => Some(
                PvView::Identified(relation, value),
            ),
            _ => None,
        }
    } else if ts.len() == 3 {
        match (ts[0], ts[1], ts[2]) {
            (TokenView::Ident(relation), TokenView::Quoted(value), TokenView::Ident(datatype)) => {
                Some(PvView::Typed(relation, value, datatype))
            },
            (TokenView::Ident(relation), TokenView::Ident(value), TokenView::Ident(datatype)) => {
                Some(PvView::Typed(relation, render_ident(value), datatype))
            },
            _ => None,
        }
    } else {
        None
    }
}

/// The text of a property value: its tokens with one space between them.
pub open spec fn render_pv(pv: PvView) -> Seq<char> {
    render_tokens(pv.tokens())
}

/// The property value that a whole text stands for.
pub open spec fn parse_pv(s: Seq<char>) -> Option<PvView> {
    match parse_tokens(s) {
        Some((ts, n)) => if n == s.len() {
            pv_of_tokens(ts)
        } else {
            None
        },
        None => None,
    }
}

/// The tokens of a property value stand for that property value.
pub proof fn lemma_pv_of_tokens(pv: PvView)
    ensures
        pv_of_tokens(pv.tokens()) == Some(pv),
        pv.wf() ==> tokens_wf(pv.tokens()),
{
}

/// The property value that tokens stand for can be written and read back
/// if the tokens can.
pub proof fn lemma_pv_tokens_wf(ts: Seq<TokenView>)
    requires
        tokens_wf(ts),
    ensures
        pv_of_tokens(ts) matches Some(pv) ==> pv.wf() && tokens_wf(pv.tokens()),
{
    if let Some(pv) = pv_of_tokens(ts) {
        assert(ts[0].wf() && ts[1].wf());
        if ts.len() == 3 {
            assert(ts[2].wf());
        }
        lemma_pv_of_tokens(pv);
    }
}

/// Writing a property value and reading the text back gives the property
/// value.
pub proof fn lemma_parse_render_pv(pv: PvView)
    requires
        pv.wf(),
    ensures
        parse_pv(render_pv(pv)) == Some(pv),
{
    lemma_pv_of_tokens(pv);
    lemma_parse_render_tokens(pv.tokens(), Seq::<char>::empty());
    assert(render_pv(pv) + Seq::<char>::empty() == render_pv(pv));
}

/// A relation bound to a value.
#[derive(Debug, PartialEq, Eq, Hash)]
pub enum PropertyValue {
    /// The value is given by its identifier.
    Identified(RelationIdent, Ident),
    /// The value is given by a string and the identifier of its datatype.
    Typed(RelationIdent, QuotedString, Ident),
}

impl View for PropertyValue {
    type V = PvView;

    open spec fn view(&self) -> PvView {
        match self {
            PropertyValue::Identified(relation, value) => PvView::Identified(relation@, value@),
            PropertyValue::Typed(relation, value, datatype) => PvView::Typed(
                relation@,
                value@,
                datatype@,
            ),
        }
    }
}

impl Clone for PropertyValue {
    fn clone(&self) -> (r: Self)
        ensures
            r@ == self@,
    {
        match self {
            PropertyValue::Identified(relation, value) => PropertyValue::Identified(
                relation.clone(),
                value.clone(),
            ),
            PropertyValue::Typed(relation, value, datatype) => PropertyValue::Typed(
                relation.clone(),
                value.clone(),
                datatype.clone(),
            ),
        }
    }
}

impl PropertyValue {
    /// The error that reading a property value fails with.
    pub open spec fn parse_error() -> Error {
        Error::SyntaxError { rule: Rule::PropertyValue }
    }

    /// A borrowed view of the same property value.
    pub fn share<'a>(&'a self) -> (r: PropVal<'a>)
        ensures
            r@ == self@,
    {
        match self {
            PropertyValue::Identified(relation, value) => PropVal::Identified(
                relation.share(),
                value.share(),
            ),
            PropertyValue::Typed(relation, value, datatype) => PropVal::Typed(
                relation.share(),
                value.share(),
                datatype.share(),
            ),
        }
    }

    /// The tokens that the property value is written as.
    pub fn to_tokens(&self) -> (r: Vec<Token>)
        ensures
            tokens_view(r@) == self@.tokens(),
    {
        let r = match self {
            PropertyValue::Identified(relation, value) => vec![
                Token::Ident(relation.as_ident().clone()),
                Token::Ident(value.clone()),
            ],
            PropertyValue::Typed(relation, value, datatype) => vec![
                Token::Ident(relation.as_ident().clone()),
                Token::Quoted(value.clone()),
                Token::Ident(datatype.clone()),
            ],
        };
        assert(tokens_view(r@) == self@.tokens());
        r
    }

    /// The property value that a sequence of tokens stands for.
    pub fn from_tokens(tokens: Vec<Token>) -> (r: Result<Self, Error>)
        ensures
            match pv_of_tokens(tokens_view(tokens@)) {
                Some(pv) => r matches Ok(found) && found@ == pv,
                None => r == Err::<Self, Error>(Self::parse_error()),
            },
    {
        let ghost ts = tokens_view(tokens@);
        let fail = Err(Error::SyntaxError { rule: Rule::PropertyValue });
        let mut tokens = tokens;
        if tokens.len() == 2 {
            let second = tokens.pop().unwrap();
            let first = tokens.pop().unwrap();
            assert(ts[0] == first@ && ts[1] == second@);
            match (first, second) {
                (Token::Ident(relation), Token::Ident(value)) => Ok(
                    PropertyValue::Identified(RelationIdent::new(relation), value),
                ),
                _ => fail,
            }
        } else if tokens.len() == 3 {
            let third = tokens.pop().unwrap();
            let second = tokens.pop().unwrap();
            let first = tokens.pop().unwrap();
            assert(ts[0] == first@ && ts[1] == second@ && ts[2] == third@);
            match (first, second, third) {
                (Token::Ident(relation), Token::Quoted(value), Token::Ident(datatype)) => Ok(
                    PropertyValue::Typed(RelationIdent::new(relation), value, datatype),
                ),
                (Token::Ident(relation), Token::Ident(value), Token::Ident(datatype)) => Ok(
                    PropertyValue::Typed(
                        RelationIdent::new(relation),
                        QuotedString::new(value.to_string()),
                        datatype,
                    ),
                ),
                _ => fail,
            }
        } else {
            fail
        }
    }

    /// Appends the text of the property value to `out`.
    pub fn write(&self, out: &mut Vec<char>)
        ensures
            final(out)@ == old(out)@ + render_pv(self@),
    {
        self.share().write(out);
    }

    /// The text of the property value.
    pub fn to_string(&self) -> (s: String)
        ensures
            s@ == render_pv(self@),
    {
        self.share().to_string()
    }

    /// Reads the property value that `s` stands for.
    pub fn from_str(s: &str) -> (r: Result<Self, Error>)
        ensures
            match parse_pv(s@) {
                Some(pv) => r matches Ok(found) && found@ == pv,
                None => r == Err::<Self, Error>(Self::parse_error()),
            },
    {
        let v = chars_of(s);
        assert(v@.subrange(0, v@.len() as int) == s@);
        let mut tokens: Vec<Token> = Vec::new();
        assert(tokens_view(tokens@) == Seq::<TokenView>::empty());
        match read_tokens(&v, 0, v.len(), &mut tokens) {
            Some(end) => {
                proof {
                    let (ts, n) = parse_tokens(s@).unwrap();
                    assert(Seq::<TokenView>::empty() + ts == ts);
                }
                if end == v.len() {
                    Self::from_tokens(tokens)
                } else {
                    Err(Error::SyntaxError { rule: Rule::PropertyValue })
                }
            },
            None => Err(Error::SyntaxError { rule: Rule::PropertyValue }),
        }
    }
}

/// A property value whose parts are borrowed where they can be.
#[derive(Debug, PartialEq, Eq, Hash)]
pub enum PropVal<'a> {
    /// The value is given by its identifier.
    Identified(RelationId<'a>, Id<'a>),
    /// The value is given by a string and the identifier of its datatype.
    Typed(RelationId<'a>, QuotedStr<'a>, Id<'a>),
}

impl<'a> View for PropVal<'a> {
    type V = PvView;

    open spec fn view(&self) -> PvView {
        match self {
            PropVal::Identified(relation, value) => PvView::Identified(relation@, value@),
            PropVal::Typed(relation, value, datatype) => PvView::Typed(
                relation@,
                value@,
                datatype@,
            ),
        }
    }
}

impl<'a> PropVal<'a> {
    /// An owned copy of the property value.
    pub fn redeem(&self) -> (r: PropertyValue)
        ensures
            r@ == self@,
    {
        match self {
            PropVal::Identified(relation, value) => PropertyValue::Identified(
                relation.redeem(),
                value.redeem(),
            ),
            PropVal::Typed(relation, value, datatype) => PropertyValue::Typed(
                relation.redeem(),
                value.redeem(),
                datatype.redeem(),
            ),
        }
    }

    /// Appends the text of the property value to `out`: the relation, a
    /// space and the value; for a string, then a space and the datatype.
    pub fn write(&self, out: &mut Vec<char>)
        ensures
            final(out)@ == old(out)@ + render_pv(self@),
    {
        proof {
            reveal_with_fuel(render_tokens, 3);
        }
        match self {
            PropVal::Identified(relation, value) => {
                let ghost ts = self@.tokens();
                assert(ts.drop_first() == seq![TokenView::Ident(value@)]);
                relation.write(out);
                out.push(' ');
                value.write(out);
                assert(out@ == old(out)@ + render_pv(self@));
            },
            PropVal::Typed(relation, value, datatype) => {
                let ghost ts = self@.tokens();
                assert(ts.drop_first() == seq![
                    TokenView::Quoted(value@),
                    TokenView::Ident(datatype@),
                ]);
                assert(ts.drop_first().drop_first() == seq![TokenView::Ident(datatype@)]);
                relation.write(out);
                out.push(' ');
                value.write(out);
                out.push(' ');
                datatype.write(out);
                assert(out@ == old(out)@ + render_pv(self@));
            },
        }
    }

    /// The text of the property value.
    pub fn to_string(&self) -> (s: String)
        ensures
            s@ == render_pv(self@),
    {
        let mut out: Vec<char> = Vec::new();
        self.write(&mut out);
        string_from(&out)
    }
}

} // verus!
