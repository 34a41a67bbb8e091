use vstd::prelude::*;

use crate::rewrite::expansion;
use crate::rewrite::rewrite_seq;
use crate::rewrite::rewrite_token;
use crate::token::Delim;
use crate::token::Spacing;
use crate::token::TokenV;

verus! {

/// Holds when no token of `s`, at any nesting depth, is the marker
/// punctuation `?`.
pub open spec fn marker_free(s: Seq<TokenV>) -> bool
    decreases s,
{
    if s.len() == 0 {
        true
    } else {
        marker_free(s.drop_last()) && token_marker_free(s.last())
    }
}

/// Holds when `t` is not the marker punctuation `?` and, for a grouping,
/// its nested sequence is marker-free.
pub open spec fn token_marker_free(t: TokenV) -> bool
    decreases t,
{
    match t {
        TokenV::Group { tokens, .. } => marker_free(tokens),
        TokenV::Punct { ch, .. } => ch != '?',
        TokenV::Ident { .. } => true,
        TokenV::Literal { .. } => true,
    }
}

/// A sequence with no marker token anywhere in it is rewritten to itself,
/// token for token and delimiter for delimiter.
pub proof fn lemma_no_marker_identity(s: Seq<TokenV>)
    requires
        marker_free(s),
    ensures
        rewrite_seq(s) == s,
    decreases s,
{
    if s.len() > 0 {
        lemma_no_marker_identity(s.drop_last());
        lemma_token_no_marker_identity(s.last());
        assert(rewrite_seq(s) =~= s);
    } else {
        assert(rewrite_seq(s) =~= s);
    }
}

/// A single non-marker token contributes exactly itself to the output.
pub proof fn lemma_token_no_marker_identity(t: TokenV)
    requires
        token_marker_free(t),
    ensures
        rewrite_token(t) == seq![t],
    decreases t,
{
    match t {
        TokenV::Group { delim, tokens, span } => {
            lemma_no_marker_identity(tokens);
            assert(rewrite_token(t) =~= seq![t]);
        },
        _ => {},
    }
}

/// A sequence consisting of one marker token, whatever its spacing and
/// source position, is rewritten to exactly the three-token expansion:
/// joint `.`, the identifier `unwrap`, and an empty parenthesized grouping.
pub proof fn lemma_single_marker(spacing: Spacing, span: u32)
    ensures
        rewrite_seq(seq![TokenV::Punct { ch: '?', spacing, span }]) == expansion(span),
{
    let s = seq![TokenV::Punct { ch: '?', spacing, span }];
    assert(s.drop_last() =~= Seq::<TokenV>::empty());
    assert(rewrite_seq(Seq::<TokenV>::empty()) == Seq::<TokenV>::empty());
    assert(s.last() == TokenV::Punct { ch: '?', spacing, span });
    assert(rewrite_token(s.last()) == expansion(span));
    assert(rewrite_seq(s) == rewrite_seq(s.drop_last()) + rewrite_token(s.last()));
    assert(Seq::<TokenV>::empty() + expansion(span) =~= expansion(span));
}

/// A sequence of one non-marker token is marker-free exactly when the
/// token itself is.
pub proof fn lemma_marker_free_singleton(t: TokenV)
    ensures
        marker_free(seq![t]) <==> token_marker_free(t),
{
    assert(seq![t].drop_last() =~= Seq::<TokenV>::empty());
    assert(marker_free(Seq::<TokenV>::empty()));
}

/// The sequence `s` wrapped in `n` nested groupings of delimiter kind
/// `delim`, innermost first.
pub open spec fn nested(n: nat, delim: Delim, span: u32, s: Seq<TokenV>) -> Seq<TokenV>
    decreases n,
{
    if n == 0 {
        s
    } else {
        seq![
            TokenV::Group { delim, tokens: nested((n - 1) as nat, delim, span, s), span },
        ]
    }
}

/// A single grouping is rewritten in place: the output is the same
/// grouping, with the same delimiter and source position, holding the
/// rewritten form of its nested sequence.
pub proof fn lemma_group_in_place(delim: Delim, span: u32, inner: Seq<TokenV>)
    ensures
        rewrite_seq(seq![TokenV::Group { delim, tokens: inner, span }]) == seq![
            TokenV::Group { delim, tokens: rewrite_seq(inner), span },
        ],
{
    let s = seq![TokenV::Group { delim, tokens: inner, span }];
    assert(s.drop_last() =~= Seq::<TokenV>::empty());
    assert(rewrite_seq(Seq::<TokenV>::empty()) == Seq::<TokenV>::empty());
    assert(s.last() == TokenV::Group { delim, tokens: inner, span });
    assert(rewrite_seq(s) == rewrite_seq(s.drop_last()) + rewrite_token(s.last()));
    assert(Seq::<TokenV>::empty() + rewrite_token(s.last()) =~= rewrite_token(s.last()));
}

/// A marker at nesting depth `n` is expanded at depth `n`: rewriting a
/// sequence wrapped in `n` groupings yields the rewritten sequence wrapped
/// in the same `n` groupings, every ancestor delimiter unchanged.
pub proof fn lemma_nested_in_place(n: nat, delim: Delim, span: u32, s: Seq<TokenV>)
    ensures
        rewrite_seq(nested(n, delim, span, s)) == nested(n, delim, span, rewrite_seq(s)),
    decreases n,
{
    if n > 0 {
        lemma_nested_in_place((n - 1) as nat, delim, span, s);
        lemma_group_in_place(delim, span, nested((n - 1) as nat, delim, span, s));
    }
}

/// Rewriting distributes over concatenation: tokens are expanded
/// independently, each adjacent to its own left context, and the
/// expansions do not interact with each other.
pub proof fn lemma_rewrite_concat(s: Seq<TokenV>, t: Seq<TokenV>)
    ensures
        rewrite_seq(s + t) == rewrite_seq(s) + rewrite_seq(t),
    decreases t,
{
    if t.len() == 0 {
        assert(s + t =~= s);
        assert(rewrite_seq(t) == Seq::<TokenV>::empty());
        assert(rewrite_seq(s) + rewrite_seq(t) =~= rewrite_seq(s));
    } else {
        lemma_rewrite_concat(s, t.drop_last());
        assert((s + t).drop_last() =~= s + t.drop_last());
        assert((s + t).last() == t.last());
        assert((rewrite_seq(s) + rewrite_seq(t.drop_last())) + rewrite_token(t.last()) =~= rewrite_seq(
            s,
        ) + (rewrite_seq(t.drop_last()) + rewrite_token(t.last())));
    }
}

/// Whether `t` is the marker punctuation `?` itself.
pub open spec fn is_marker(t: TokenV) -> bool {
    match t {
        TokenV::Punct { ch, .. } => ch == '?',
        _ => false,
    }
}

/// The number of marker tokens at the top level of `s`, nested groupings
/// not descended into.
pub open spec fn marker_count(s: Seq<TokenV>) -> nat
    decreases s,
{
    if s.len() == 0 {
        0
    } else {
        marker_count(s.drop_last()) + (if is_marker(s.last()) {
            1nat
        } else {
            0nat
        })
    }
}

/// A sequence with `k` markers at its top level grows by exactly two
/// tokens per marker: each marker becomes an independent three-token
/// expansion while every other token contributes one token.
pub proof fn lemma_rewrite_len(s: Seq<TokenV>)
    ensures
        rewrite_seq(s).len() == s.len() + 2 * marker_count(s),
    decreases s,
{
    if s.len() > 0 {
        lemma_rewrite_len(s.drop_last());
        match s.last() {
            TokenV::Punct { ch, .. } => {
                assert(rewrite_token(s.last()).len() == if ch == '?' {
                    3int
                } else {
                    1int
                });
            },
            _ => {
                assert(rewrite_token(s.last()).len() == 1);
            },
        }
    }
}

/// Marker-freedom splits over concatenation.
pub proof fn lemma_marker_free_concat(a: Seq<TokenV>, b: Seq<TokenV>)
    ensures
        marker_free(a + b) <==> marker_free(a) && marker_free(b),
    decreases b,
{
    if b.len() == 0 {
        assert(a + b =~= a);
    } else {
        lemma_marker_free_concat(a, b.drop_last());
        assert((a + b).drop_last() =~= a + b.drop_last());
        assert((a + b).last() == b.last());
    }
}

/// No marker survives the rewrite: the output is marker-free at every
/// nesting depth, so the emitted expansions are never re-scanned.
pub proof fn lemma_rewrite_marker_free(s: Seq<TokenV>)
    ensures
        marker_free(rewrite_seq(s)),
    decreases s,
{
    if s.len() > 0 {
        lemma_rewrite_marker_free(s.drop_last());
        lemma_token_rewrite_marker_free(s.last());
        lemma_marker_free_concat(rewrite_seq(s.drop_last()), rewrite_token(s.last()));
    }
}

/// What any single token contributes to the output is marker-free.
pub proof fn lemma_token_rewrite_marker_free(t: TokenV)
    ensures
        marker_free(rewrite_token(t)),
    decreases t,
{
    match t {
        TokenV::Group { delim, tokens, span } => {
            lemma_rewrite_marker_free(tokens);
            lemma_marker_free_singleton(
                TokenV::Group { delim, tokens: rewrite_seq(tokens), span },
            );
            assert(rewrite_token(t) == seq![
                TokenV::Group { delim, tokens: rewrite_seq(tokens), span },
            ]);
            assert(marker_free(rewrite_token(t)));
        },
        TokenV::Punct { ch, spacing, span } => {
            if ch == '?' {
                let e = expansion(span);
                assert(e.drop_last() =~= seq![
                    TokenV::Punct { ch: '.', spacing: Spacing::Joint, span },
                    TokenV::Ident { name: "unwrap"@, span },
                ]);
                assert(e.drop_last().drop_last() =~= seq![
                    TokenV::Punct { ch: '.', spacing: Spacing::Joint, span },
                ]);
                assert(e.drop_last().drop_last().drop_last() =~= Seq::<TokenV>::empty());
                assert(marker_free(Seq::<TokenV>::empty()));
                assert(token_marker_free(e.drop_last().drop_last().last()));
                assert(marker_free(e.drop_last().drop_last()));
                assert(token_marker_free(e.drop_last().last()));
                assert(marker_free(e.drop_last()));
                assert(token_marker_free(e.last()));
                assert(marker_free(e));
                assert(rewrite_token(t) == e);
            } else {
                lemma_marker_free_singleton(t);
            }
        },
        _ => {
            lemma_marker_free_singleton(t);
        },
    }
}

} // verus!
