use vstd::prelude::*;

use crate::token::Delim;
use crate::token::Spacing;
use crate::token::Token;
use crate::token::TokenV;
use crate::token::lemma_tokens_view_push;
use crate::token::token_view;
use crate::token::tokens_view;

verus! {

/// The three tokens that replace one marker token: a joint `.`, the
/// identifier `unwrap`, and an empty parenthesized grouping, all carrying
/// the marker's source-location tag.
pub open spec fn expansion(span: u32) -> Seq<TokenV> {
    seq![
        TokenV::Punct { ch: '.', spacing: Spacing::Joint, span },
        TokenV::Ident { name: "unwrap"@, span },
        TokenV::Group { delim: Delim::Paren, tokens: Seq::empty(), span },
    ]
}

/// What one input token contributes to the output: a grouping is re-emitted
/// with its inner sequence rewritten, a marker punctuation `?` becomes its
/// three-token expansion, and every other token is emitted unchanged.
pub open spec fn rewrite_token(t: TokenV) -> Seq<TokenV>
    decreases t,
{
    match t {
        TokenV::Group { delim, tokens, span } => seq![
            TokenV::Group { delim, tokens: rewrite_seq(tokens), span },
        ],
        TokenV::Punct { ch, spacing, span } => if ch == '?' {
            expansion(span)
        } else {
            seq![t]
        },
        TokenV::Ident { .. } => seq![t],
        TokenV::Literal { .. } => seq![t],
    }
}

/// The rewritten form of a whole token sequence: the concatenation, in
/// order, of what each token contributes.
pub open spec fn rewrite_seq(s: Seq<TokenV>) -> Seq<TokenV>
    decreases s,
{
    if s.len() == 0 {
        Seq::empty()
    } else {
        rewrite_seq(s.drop_last()) + rewrite_token(s.last())
    }
}

/// The rewrite routine: produces the rewritten form of `input`, expanding
/// every marker token at every nesting depth and leaving all other tokens,
/// their order, and all grouping delimiters unchanged.
pub fn process(input: &Vec<Token>) -> (out: Vec<Token>)
    ensures
        tokens_view(out@) == rewrite_seq(tokens_view(input@)),
    decreases input@,
{
    let mut out: Vec<Token> = Vec::new();
    let mut i: usize = 0;
    proof {
        assert(input@.subrange(0, 0) =~= Seq::<Token>::empty());
    }
    while i < input.len()
        invariant
            i <= input@.len(),
            tokens_view(out@) == rewrite_seq(tokens_view(input@.subrange(0, i as int))),
        decreases input@.len() - i,
    {
        let ghost pre = input@.subrange(0, i as int);
        let ghost t_v = token_view(input@[i as int]);
        let ghost out_pre = out@;
        match &input[i] {
            Token::Group { delim, tokens, span } => {
                let inner = process(tokens);
                out.push(Token::Group { delim: *delim, tokens: inner, span: *span });
                proof {
                    lemma_tokens_view_push(out_pre, out@.last());
                    assert(out_pre.push(out@.last()) =~= out@);
                    assert(tokens_view(out@) =~= tokens_view(out_pre) + rewrite_token(t_v));
                }
            },
            Token::Punct { ch, spacing, span } => {
                if *ch == '?' {
                    out.push(Token::Punct { ch: '.', spacing: Spacing::Joint, span: *span });
                    out.push(Token::Ident { name: "unwrap".to_owned(), span: *span });
                    out.push(Token::Group { delim: Delim::Paren, tokens: Vec::new(), span: *span });
                    proof {
                        let dot = out@[out@.len() - 3];
                        let unw = out@[out@.len() - 2];
                        let grp = out@[out@.len() - 1];
                        lemma_tokens_view_push(out_pre, dot);
                        lemma_tokens_view_push(out_pre.push(dot), unw);
                        lemma_tokens_view_push(out_pre.push(dot).push(unw), grp);
                        assert(out_pre.push(dot).push(unw).push(grp) =~= out@);
                        assert(token_view(grp) == (TokenV::Group {
                            delim: Delim::Paren,
                            tokens: Seq::empty(),
                            span: *span,
                        }));
                        assert(tokens_view(out@) =~= tokens_view(out_pre) + rewrite_token(t_v));
                    }
                } else {
                    out.push(Token::Punct { ch: *ch, spacing: *spacing, span: *span });
                    proof {
                        lemma_tokens_view_push(out_pre, out@.last());
                        assert(out_pre.push(out@.last()) =~= out@);
                        assert(tokens_view(out@) =~= tokens_view(out_pre) + rewrite_token(t_v));
                    }
                }
            },
            Token::Ident { name, span } => {
                out.push(Token::Ident { name: name.clone(), span: *span });
                proof {
                    lemma_tokens_view_push(out_pre, out@.last());
                    assert(out_pre.push(out@.last()) =~= out@);
                    assert(tokens_view(out@) =~= tokens_view(out_pre) + rewrite_token(t_v));
                }
            },
            Token::Literal { text, span } => {
                out.push(Token::Literal { text: text.clone(), span: *span });
                proof {
                    lemma_tokens_view_push(out_pre, out@.last());
                    assert(out_pre.push(out@.last()) =~= out@);
                    assert(tokens_view(out@) =~= tokens_view(out_pre) + rewrite_token(t_v));
                }
            },
        }
        proof {
            let sub = input@.subrange(0, i + 1);
            assert(sub.drop_last() =~= pre);
            assert(sub.last() == input@[i as int]);
            let v = tokens_view(pre);
            assert(tokens_view(sub) == v.push(t_v));
            assert(v.push(t_v).drop_last() =~= v);
            assert(v.push(t_v).last() == t_v);
            assert(rewrite_seq(tokens_view(sub)) == rewrite_seq(v) + rewrite_token(t_v));
        }
        i = i + 1;
    }
    proof {
        assert(input@.subrange(0, input@.len() as int) =~= input@);
    }
    out
}

/// The diagnostic given when the item-level entry point receives
/// configuration arguments.
pub open spec fn no_args_message() -> Seq<char> {
    "#[hodoku::function]: takes no arguments"@
}

/// The item-level entry point: rejects any configuration argument, and
/// otherwise returns the rewritten form of the attached item. On a
/// non-empty configuration sequence it returns the diagnostic instead,
/// before any rewriting takes place.
pub fn function(args: &Vec<Token>, item: &Vec<Token>) -> (out: Result<Vec<Token>, String>)
    ensures
        out is Ok <==> args@.len() == 0,
        out is Ok ==> tokens_view(out->Ok_0@) == rewrite_seq(tokens_view(item@)),
        out is Err ==> out->Err_0@ == no_args_message(),
{
    if args.len() > 0 {
        Err("#[hodoku::function]: takes no arguments".to_owned())
    } else {
        Ok(process(item))
    }
}

/// The expression-level entry point: returns the rewritten form of the
/// expression fragment directly, with no validation step.
pub fn expr(input: &Vec<Token>) -> (out: Vec<Token>)
    ensures
        tokens_view(out@) == rewrite_seq(tokens_view(input@)),
{
    process(input)
}

} // verus!
