use vstd::prelude::*;

verus! {

/// The delimiter kind that bounds a grouping's nested token sequence.
///
/// `Invisible` stands for a grouping with no visible delimiter pair, which
/// host macro systems use to keep precedence of substituted fragments.
#[derive(Clone, Copy, Debug, PartialEq, Eq)]
pub enum Delim {
    Paren,
    Bracket,
    Brace,
    Invisible,
}

/// Adjacency of a punctuation character to the token that follows it.
///
/// `Joint` means no whitespace separates it from the next token when the
/// sequence is rendered back to source text.
#[derive(Clone, Copy, Debug, PartialEq, Eq)]
pub enum Spacing {
    Alone,
    Joint,
}

/// A unit of syntax: a grouping with a nested sequence, an identifier, a
/// punctuation character, or a literal.
///
/// `span` is an opaque source-location tag. The rewriter carries it through
/// to preserve diagnostic positioning and never inspects its value; callers
/// map it to and from their own location representation.
#[derive(Debug, PartialEq, Eq)]
pub enum Token {
    Group { delim: Delim, tokens: Vec<Token>, span: u32 },
    Ident { name: String, span: u32 },
    Punct { ch: char, spacing: Spacing, span: u32 },
    Literal { text: String, span: u32 },
}

/// The mathematical model of a [`Token`]: the same shape, with nested
/// sequences as `Seq` and identifier and literal text as `Seq<char>`.
#[verifier::ext_equal]
pub enum TokenV {
    Group { delim: Delim, tokens: Seq<TokenV>, span: u32 },
    Ident { name: Seq<char>, span: u32 },
    Punct { ch: char, spacing: Spacing, span: u32 },
    Literal { text: Seq<char>, span: u32 },
}

/// The model of one token, descending into groupings.
pub open spec fn token_view(t: Token) -> TokenV
    decreases t,
{
    match t {
        Token::Group { delim, tokens, span } => TokenV::Group {
            delim,
            tokens: tokens_view(tokens@),
            span,
        },
        Token::Ident { name, span } => TokenV::Ident { name: name@, span },
        Token::Punct { ch, spacing, span } => TokenV::Punct { ch, spacing, span },
        Token::Literal { text, span } => TokenV::Literal { text: text@, span },
    }
}

/// The model of a token sequence, element by element.
pub open spec fn tokens_view(s: Seq<Token>) -> Seq<TokenV>
    decreases s,
{
    if s.len() == 0 {
        Seq::empty()
    } else {
        tokens_view(s.drop_last()).push(token_view(s.last()))
    }
}

impl View for Token {
    type V = TokenV;

    open spec fn view(&self) -> TokenV {
        token_view(*self)
    }
}

pub proof fn lemma_tokens_view_push(s: Seq<Token>, t: Token)
    ensures
        tokens_view(s.push(t)) == tokens_view(s).push(token_view(t)),
{
    assert(s.push(t).drop_last() =~= s);
    assert(s.push(t).last() == t);
}

} // verus!
