//! A count-based check that grouping delimiters are balanced.
use crate::token::{views, Delimiter, Expression, ExpressionView};
use vstd::prelude::*;

verus! {

/// What a token adds to the count of one kind of grouping: one for the
/// opening delimiter, minus one for the closing one, nothing otherwise.
pub open spec fn weight(token: ExpressionView, open: Delimiter, close: Delimiter) -> int {
    match token {
        ExpressionView::Delimiter(d) => if d == open {
            1
        } else if d == close {
            -1
        } else {
            0
        },
        _ => 0,
    }
}

/// How many more opening than closing delimiters of one kind the tokens hold.
pub open spec fn net(tokens: Seq<ExpressionView>, open: Delimiter, close: Delimiter) -> int
    decreases tokens.len(),
{
    if tokens.len() == 0 {
        0
    } else {
        net(tokens.drop_last(), open, close) + weight(tokens.last(), open, close)
    }
}

/// Each kind of grouping is opened as often as it is closed. Neither the
/// order of the delimiters nor their nesting is looked at.
pub open spec fn balanced(tokens: Seq<ExpressionView>) -> bool {
    &&& net(tokens, Delimiter::LParen, Delimiter::RParen) == 0
    &&& net(tokens, Delimiter::LBrace, Delimiter::RBrace) == 0
    &&& net(tokens, Delimiter::LBracket, Delimiter::RBracket) == 0
}

/// The count of a run of tokens is the sum of the counts of its parts.
pub proof fn lemma_net_of_parts(
    a: Seq<ExpressionView>,
    b: Seq<ExpressionView>,
    open: Delimiter,
    close: Delimiter,
)
    ensures
        net(a + b, open, close) == net(a, open, close) + net(b, open, close),
    decreases b.len(),
{
    if b.len() == 0 {
        assert(a + b =~= a);
    } else {
        assert((a + b).drop_last() =~= a + b.drop_last());
        lemma_net_of_parts(a, b.drop_last(), open, close);
    }
}

/// The check does not look at order: exchanging two adjacent runs of tokens
/// leaves the verdict as it was.
pub proof fn lemma_balance_ignores_order(a: Seq<ExpressionView>, b: Seq<ExpressionView>)
    ensures
        balanced(a + b) == balanced(b + a),
{
    lemma_net_of_parts(a, b, Delimiter::LParen, Delimiter::RParen);
    lemma_net_of_parts(b, a, Delimiter::LParen, Delimiter::RParen);
    lemma_net_of_parts(a, b, Delimiter::LBrace, Delimiter::RBrace);
    lemma_net_of_parts(b, a, Delimiter::LBrace, Delimiter::RBrace);
    lemma_net_of_parts(a, b, Delimiter::LBracket, Delimiter::RBracket);
    lemma_net_of_parts(b, a, Delimiter::LBracket, Delimiter::RBracket);
}

/// Whether the grouping delimiters among the tokens are balanced, kind by
/// kind. Tokens that are no delimiters do not count.
pub fn delimiters_match(exprs: &[Expression]) -> (matched: bool)
    ensures
        matched == balanced(views(exprs@)),
{
    let ghost all = views(exprs@);
    let mut parens: i128 = 0;
    let mut braces: i128 = 0;
    let mut brackets: i128 = 0;
    let mut i: usize = 0;
    while i < exprs.len()
        invariant
            i <= exprs.len(),
            all == views(exprs@),
            -i <= parens <= i,
            -i <= braces <= i,
            -i <= brackets <= i,
            parens == net(all.take(i as int), Delimiter::LParen, Delimiter::RParen),
            braces == net(all.take(i as int), Delimiter::LBrace, Delimiter::RBrace),
            brackets == net(all.take(i as int), Delimiter::LBracket, Delimiter::RBracket),
        decreases exprs.len() - i,
    {
        proof {
            assert(all.take(i + 1).drop_last() =~= all.take(i as int));
            assert(all.take(i + 1).last() == exprs@[i as int]@);
        }
        match &exprs[i] {
            Expression::Delimiter(delimiter) => match delimiter {
                Delimiter::LParen => parens += 1,
                Delimiter::RParen => parens -= 1,
                Delimiter::LBrace => braces += 1,
                Delimiter::RBrace => braces -= 1,
                Delimiter::LBracket => brackets += 1,
                Delimiter::RBracket => brackets -= 1,
            },
            _ => {},
        }
        i += 1;
    }
    assert(all.take(i as int) =~= all);
    parens == 0 && braces == 0 && brackets == 0
}

} // verus!
