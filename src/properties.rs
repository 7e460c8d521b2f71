//! Laws of the scanner, proved over the grammar of `grammar`.
use vstd::prelude::*;
use crate::grammar::{
    Run, keywords, lemma_step_advances, lookup_kind, newline_count, run_end, scan_from,
    scan_source, scan_step, step_end, step_token,
};
use crate::scanner::ScannerView;
use crate::token::{TokenType, TokenView};

verus! {

proof fn lemma_lookup_never_end(table: Seq<(Seq<char>, TokenType)>, text: Seq<char>)
    requires
        forall|i: int| 0 <= i < table.len() ==> table[i].1 != TokenType::EndOfInput,
    ensures
        lookup_kind(table, text) != Some(TokenType::EndOfInput),
    decreases table.len(),
{
    if table.len() > 0 && table[0].0 != text {
        assert forall|i: int| 0 <= i < table.drop_first().len() implies table.drop_first()[i].1
            != TokenType::EndOfInput by {
            assert(table.drop_first()[i] == table[i + 1]);
        }
        lemma_lookup_never_end(table.drop_first(), text);
    }
}

proof fn lemma_step_never_end(src: Seq<char>, pos: int)
    requires
        0 <= pos < src.len(),
    ensures
        forall|i: int|
            0 <= i < step_token(src, pos, scan_step(src, pos)).len() ==> (#[trigger] step_token(
                src,
                pos,
                scan_step(src, pos),
            )[i]).kind != TokenType::EndOfInput,
{
    let e = run_end(src, pos + 1, Run::Word);
    lemma_lookup_never_end(keywords(), src.subrange(pos, e));
}

proof fn lemma_scan_from_never_end(src: Seq<char>, pos: int)
    ensures
        forall|i: int|
            0 <= i < scan_from(src, pos).tokens.len() ==> (#[trigger] scan_from(
                src,
                pos,
            ).tokens[i]).kind != TokenType::EndOfInput,
    decreases src.len() - pos,
{
    if 0 <= pos < src.len() {
        let s = scan_step(src, pos);
        lemma_step_advances(src, pos);
        lemma_step_never_end(src, pos);
        lemma_scan_from_never_end(src, step_end(s));
        let head = step_token(src, pos, s);
        let rest = scan_from(src, step_end(s)).tokens;
        assert forall|i: int| 0 <= i < scan_from(src, pos).tokens.len() implies (#[trigger] scan_from(
            src,
            pos,
        ).tokens[i]).kind != TokenType::EndOfInput by {
            if i >= head.len() {
                assert(scan_from(src, pos).tokens[i] == rest[i - head.len()]);
            } else {
                assert(scan_from(src, pos).tokens[i] == head[i]);
            }
        }
    }
}

/// Every scan yields at least one token; the last is the end-of-input token,
/// and no other token is one.
pub proof fn lemma_end_of_input_closes(src: Seq<char>)
    ensures
        scan_source(src).tokens.len() >= 1,
        scan_source(src).tokens.last().kind == TokenType::EndOfInput,
        forall|i: int|
            0 <= i < scan_source(src).tokens.len() - 1 ==> (#[trigger] scan_source(
                src,
            ).tokens[i]).kind != TokenType::EndOfInput,
{
    lemma_scan_from_never_end(src, 0);
    let body = scan_from(src, 0).tokens;
    assert forall|i: int| 0 <= i < scan_source(src).tokens.len() - 1 implies (#[trigger] scan_source(
        src,
    ).tokens[i]).kind != TokenType::EndOfInput by {
        assert(scan_source(src).tokens[i] == body[i]);
    }
}

/// `t` is read from `src` at some position `p`: its lexeme is the text there,
/// and its line is one more than the newlines before `p`.
pub open spec fn read_at(src: Seq<char>, t: TokenView, p: int) -> bool {
    &&& 0 <= p
    &&& p + t.lexeme.len() <= src.len()
    &&& src.subrange(p, p + t.lexeme.len()) == t.lexeme
    &&& t.line == newline_count(src.take(p)) + 1
}

/// Where the tokens of the steps from `pos` start.
pub open spec fn scan_starts(src: Seq<char>, pos: int) -> Seq<int>
    decreases src.len() - pos,
    via scan_starts_decreases
{
    if 0 <= pos < src.len() {
        let s = scan_step(src, pos);
        let here = if s is Emit {
            seq![pos]
        } else {
            Seq::<int>::empty()
        };
        here + scan_starts(src, step_end(s))
    } else {
        Seq::empty()
    }
}

#[via_fn]
proof fn scan_starts_decreases(src: Seq<char>, pos: int) {
    if 0 <= pos < src.len() {
        lemma_step_advances(src, pos);
    }
}

/// Where each token of a whole scan starts; the end-of-input token starts at
/// the end of the source.
pub open spec fn token_starts(src: Seq<char>) -> Seq<int> {
    scan_starts(src, 0).push(src.len() as int)
}

proof fn lemma_scan_starts(src: Seq<char>, pos: int)
    requires
        0 <= pos,
    ensures
        scan_starts(src, pos).len() == scan_from(src, pos).tokens.len(),
        forall|i: int|
            0 <= i < scan_starts(src, pos).len() ==> pos <= #[trigger] scan_starts(src, pos)[i]
                && read_at(src, scan_from(src, pos).tokens[i], scan_starts(src, pos)[i]),
        forall|i: int, j: int|
            #![trigger scan_starts(src, pos)[i], scan_starts(src, pos)[j]]
            0 <= i < j < scan_starts(src, pos).len() ==> scan_starts(src, pos)[i] + scan_from(
                src,
                pos,
            ).tokens[i].lexeme.len() <= scan_starts(src, pos)[j],
    decreases src.len() - pos,
{
    if 0 <= pos < src.len() {
        let s = scan_step(src, pos);
        let end = step_end(s);
        lemma_step_advances(src, pos);
        lemma_scan_starts(src, end);
        let ps = scan_starts(src, pos);
        let ts = scan_from(src, pos).tokens;
        let rps = scan_starts(src, end);
        let rts = scan_from(src, end).tokens;
        let h = step_token(src, pos, s).len();
        assert(ps.len() == ts.len());
        assert forall|i: int| 0 <= i < ps.len() implies pos <= #[trigger] ps[i] && read_at(
            src,
            ts[i],
            ps[i],
        ) by {
            if i < h {
                assert(ps[i] == pos);
                assert(ts[i] == step_token(src, pos, s)[i]);
                assert(read_at(src, ts[i], pos));
            } else {
                assert(ps[i] == rps[i - h]);
                assert(ts[i] == rts[i - h]);
            }
        }
        assert forall|i: int, j: int|
            #![trigger ps[i], ps[j]]
            0 <= i < j < ps.len() implies ps[i] + ts[i].lexeme.len() <= ps[j] by {
            if i < h {
                assert(ts[i] == step_token(src, pos, s)[i]);
                assert(ps[j] == rps[j - h]);
                assert(end <= rps[j - h]);
            } else {
                assert(ps[i] == rps[i - h]);
                assert(ts[i] == rts[i - h]);
                assert(ps[j] == rps[j - h]);
            }
        }
    }
}

/// Each token is read where it starts: its lexeme is the source text there,
/// its line is one more than the newlines before that position, and the
/// tokens follow one another in the source without overlapping.
pub proof fn lemma_token_lines(src: Seq<char>)
    ensures
        token_starts(src).len() == scan_source(src).tokens.len(),
        forall|i: int|
            0 <= i < scan_source(src).tokens.len() ==> read_at(
                src,
                #[trigger] scan_source(src).tokens[i],
                token_starts(src)[i],
            ),
        forall|i: int, j: int|
            #![trigger token_starts(src)[i], token_starts(src)[j]]
            0 <= i < j < scan_source(src).tokens.len() ==> token_starts(src)[i] + scan_source(
                src,
            ).tokens[i].lexeme.len() <= token_starts(src)[j],
{
    lemma_scan_starts(src, 0);
    let ts = scan_source(src).tokens;
    let ps = token_starts(src);
    let body = scan_from(src, 0).tokens;
    let n = body.len();
    assert forall|i: int| 0 <= i < ts.len() implies read_at(src, #[trigger] ts[i], ps[i]) by {
        if i < n {
            assert(ts[i] == body[i]);
            assert(ps[i] == scan_starts(src, 0)[i]);
        } else {
            assert(src.subrange(src.len() as int, src.len() as int) =~= ts[i].lexeme);
            assert(src.take(src.len() as int) =~= src);
        }
    }
    assert forall|i: int, j: int|
        #![trigger ps[i], ps[j]]
        0 <= i < j < ts.len() implies ps[i] + ts[i].lexeme.len() <= ps[j] by {
        assert(ts[i] == body[i]);
        assert(ps[i] == scan_starts(src, 0)[i]);
        assert(read_at(src, body[i], ps[i]));
        if j < n {
            assert(ps[j] == scan_starts(src, 0)[j]);
        }
    }
}

/// Scanning a text again, with the same scanner or another, leaves the same
/// tokens (kinds, lexemes, literals and lines) and reports the same errors.
pub proof fn lemma_rescan_same(first: ScannerView, again: ScannerView)
    requires
        first.source == again.source,
        first.tokens == scan_source(first.source).tokens,
        again.tokens == scan_source(again.source).tokens,
    ensures
        first.tokens == again.tokens,
        scan_source(first.source).errors == scan_source(again.source).errors,
{
}

} // verus!
