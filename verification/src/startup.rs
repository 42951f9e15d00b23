//! What is settled once, when the service starts: the valid tokens and the
//! port.

use vstd::prelude::*;

verus! {

/// What stands between two tokens in the list of valid tokens.
pub const TOKEN_SEPARATOR: char = ',';

/// Whether `c` is white space, as Unicode defines it.
pub open spec fn is_space(c: char) -> bool {
    ||| '\u{9}' <= c <= '\u{d}'
    ||| c == ' '
    ||| c == '\u{85}'
    ||| c == '\u{a0}'
    ||| c == '\u{1680}'
    ||| '\u{2000}' <= c <= '\u{200a}'
    ||| c == '\u{2028}'
    ||| c == '\u{2029}'
    ||| c == '\u{202f}'
    ||| c == '\u{205f}'
    ||| c == '\u{3000}'
}

/// `text` without the white space at its end.
pub open spec fn trim_end(text: Seq<char>) -> Seq<char>
    decreases text.len(),
{
    if text.len() > 0 && is_space(text.last()) {
        trim_end(text.drop_last())
    } else {
        text
    }
}

/// `text` without the white space at its start.
pub open spec fn trim_start(text: Seq<char>) -> Seq<char>
    decreases text.len(),
{
    if text.len() > 0 && is_space(text.first()) {
        trim_start(text.drop_first())
    } else {
        text
    }
}

/// `text` without the white space at its start and at its end.
pub open spec fn trimmed(text: Seq<char>) -> Seq<char> {
    trim_start(trim_end(text))
}

/// The pieces into which the separators cut `raw`: one more than there are
/// separators, and empty where two separators meet or one stands at an end.
pub open spec fn pieces(raw: Seq<char>) -> Seq<Seq<char>>
    decreases raw.len(),
{
    if raw.len() == 0 {
        seq![Seq::empty()]
    } else {
        let front = pieces(raw.drop_last());
        if raw.last() == TOKEN_SEPARATOR {
            front.push(Seq::empty())
        } else {
            front.drop_last().push(front.last().push(raw.last()))
        }
    }
}

/// The pieces, trimmed, without those of which nothing is left.
pub open spec fn kept_tokens(pieces: Seq<Seq<char>>) -> Seq<Seq<char>>
    decreases pieces.len(),
{
    if pieces.len() == 0 {
        Seq::empty()
    } else if trimmed(pieces.last()).len() == 0 {
        kept_tokens(pieces.drop_last())
    } else {
        kept_tokens(pieces.drop_last()).push(trimmed(pieces.last()))
    }
}

/// The tokens that a list names: its pieces between the separators, each
/// without the white space around it, the empty ones left out.
pub open spec fn token_list(raw: Seq<char>) -> Seq<Seq<char>> {
    kept_tokens(pieces(raw))
}

/// There is always a piece, the one that is being read.
pub proof fn lemma_pieces_nonempty(raw: Seq<char>)
    ensures
        pieces(raw).len() > 0,
    decreases raw.len(),
{
    if raw.len() > 0 {
        lemma_pieces_nonempty(raw.drop_last());
    }
}

/// Whether `c` is white space, as Unicode defines it.
pub fn is_whitespace(c: char) -> (space: bool)
    ensures
        space == is_space(c),
{
    ('\u{9}' <= c && c <= '\u{d}') || c == ' ' || c == '\u{85}' || c == '\u{a0}' || c
        == '\u{1680}' || ('\u{2000}' <= c && c <= '\u{200a}') || c == '\u{2028}' || c
        == '\u{2029}' || c == '\u{202f}' || c == '\u{205f}' || c == '\u{3000}'
}

/// The characters without the white space at their start and end, as a
/// string.
fn trim(text: &Vec<char>) -> (kept: String)
    ensures
        kept@ == trimmed(text@),
{
    let mut end: usize = text.len();
    assert(text@.take(end as int) == text@);
    while end > 0 && is_whitespace(text[end - 1])
        invariant
            end <= text.len(),
            trim_end(text@) == trim_end(text@.take(end as int)),
        decreases end,
    {
        assert(text@.take(end as int).drop_last() == text@.take(end - 1));
        end -= 1;
    }
    let mut start: usize = 0;
    while start < end && is_whitespace(text[start])
        invariant
            start <= end <= text.len(),
            trim_start(text@.take(end as int)) == trim_start(text@.subrange(start as int, end as int)),
        decreases end - start,
    {
        assert(text@.subrange(start as int, end as int).drop_first() == text@.subrange(
            start + 1,
            end as int,
        ));
        start += 1;
    }
    let mut kept = String::new();
    let mut i: usize = start;
    while i < end
        invariant
            start <= i <= end <= text.len(),
            kept@ == text@.subrange(start as int, i as int),
        decreases end - i,
    {
        kept.push(text[i]);
        i += 1;
    }
    kept
}

/// Reads the list of valid tokens: they stand between commas, the white
/// space around each is dropped, and so is a token of which nothing is left.
pub fn parse_tokens(raw: &str) -> (tokens: Vec<String>)
    ensures
        tokens.deep_view() == token_list(raw@),
{
    let mut tokens: Vec<String> = Vec::new();
    let mut piece: Vec<char> = Vec::new();
    assert(tokens.deep_view() == kept_tokens(pieces(raw@.take(0)).drop_last()));
    for c in it: raw.chars()
        invariant
            it.seq() == raw@,
            pieces(raw@.take(it.index())).len() > 0,
            tokens.deep_view() == kept_tokens(pieces(raw@.take(it.index())).drop_last()),
            piece@ == pieces(raw@.take(it.index())).last(),
    {
        proof {
            let seen = raw@.take(it.index() + 1);
            assert(seen.drop_last() == raw@.take(it.index()));
            assert(seen.last() == c);
            lemma_pieces_nonempty(seen);
        }
        let ghost before = pieces(raw@.take(it.index()));
        if c == TOKEN_SEPARATOR {
            let token = trim(&piece);
            let ghost listed = tokens.deep_view();
            if !token.as_str().is_empty() {
                tokens.push(token);
                assert(tokens.deep_view() == listed.push(token@));
            }
            piece = Vec::new();
            proof {
                assert(before.push(Seq::empty()).drop_last() == before);
            }
        } else {
            piece.push(c);
            proof {
                let after = before.drop_last().push(before.last().push(c));
                assert(after.drop_last() == before.drop_last());
            }
        }
    }
    assert(raw@.take(raw@.len() as int) == raw@);
    let token = trim(&piece);
    let ghost listed = tokens.deep_view();
    if !token.as_str().is_empty() {
        tokens.push(token);
        assert(tokens.deep_view() == listed.push(token@));
    }
    tokens
}

/// The port to listen on: the first choice where it is free, else the
/// second.
pub fn choose_port(primary_is_free: bool, primary: u16, fallback: u16) -> (port: u16)
    ensures
        port == if primary_is_free {
            primary
        } else {
            fallback
        },
{
    if primary_is_free {
        primary
    } else {
        fallback
    }
}

} // verus!
