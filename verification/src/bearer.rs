//! Bearer-token extraction from an Authorization header.
//!
//! A header authenticates a request exactly when it splits on whitespace
//! into the two words `Bearer` and the token — nothing before, between or
//! after but whitespace, and no extra words.

use vstd::prelude::*;

verus! {

/// ASCII whitespace, as header fields use it.
pub open spec fn is_space(c: char) -> bool {
    c == ' ' || c == '\t' || c == '\r' || c == '\n'
}

/// The whitespace-separated words of `s`, read left to right; `cur` is the
/// word in progress.
pub open spec fn ws_tokens_acc(s: Seq<char>, cur: Seq<char>) -> Seq<Seq<char>>
    decreases s.len(),
{
    if s.len() == 0 {
        if cur.len() == 0 {
            Seq::empty()
        } else {
            seq![cur]
        }
    } else if is_space(s.first()) {
        if cur.len() == 0 {
            ws_tokens_acc(s.drop_first(), Seq::empty())
        } else {
            seq![cur] + ws_tokens_acc(s.drop_first(), Seq::empty())
        }
    } else {
        ws_tokens_acc(s.drop_first(), cur.push(s.first()))
    }
}

/// The whitespace-separated words of `s`.
pub open spec fn ws_tokens(s: Seq<char>) -> Seq<Seq<char>> {
    ws_tokens_acc(s, Seq::empty())
}

/// The character sequences of a sequence of strings.
pub open spec fn views_of(ts: Seq<String>) -> Seq<Seq<char>> {
    ts.map_values(|t: String| t@)
}

/// The token a header names: the second of exactly two words, the first of
/// which is `Bearer`. Nothing, for every other shape.
pub open spec fn spec_bearer_token(h: Seq<char>) -> Option<Seq<char>> {
    if ws_tokens(h).len() == 2 && ws_tokens(h)[0] == "Bearer"@ {
        Some(ws_tokens(h)[1])
    } else {
        None
    }
}

fn is_space_char(c: char) -> (r: bool)
    ensures
        r == is_space(c),
{
    c == ' ' || c == '\t' || c == '\r' || c == '\n'
}

/// A space at the front of the rest starts no word.
proof fn lemma_skip_space(s: Seq<char>, p: int)
    requires
        0 <= p < s.len(),
        is_space(s[p]),
    ensures
        ws_tokens_acc(s.skip(p), Seq::empty()) == ws_tokens_acc(s.skip(p + 1), Seq::empty()),
{
    assert(s.skip(p).drop_first() =~= s.skip(p + 1));
}

/// Scanning a maximal nonspace run from `q` to `pos` yields exactly the word
/// `s[start..pos]`, whatever of it is already read into the word in progress.
proof fn lemma_scan_token(s: Seq<char>, start: int, pos: int, q: int)
    requires
        0 <= start <= q <= pos <= s.len(),
        start < pos,
        forall|p: int| start <= p < pos ==> !is_space(s[p]),
        pos == s.len() || is_space(s[pos]),
    ensures
        ws_tokens_acc(s.skip(q), s.subrange(start, q)) == seq![s.subrange(start, pos)]
            + ws_tokens_acc(s.skip(pos), Seq::empty()),
    decreases pos - q,
{
    if q == pos {
        assert(s.subrange(start, pos).len() > 0);
        if pos == s.len() {
            assert(s.skip(pos).len() == 0);
        } else {
            assert(s.skip(pos).first() == s[pos]);
            assert(s.skip(pos).drop_first() =~= s.skip(pos + 1));
        }
    } else {
        assert(s.skip(q).first() == s[q]);
        assert(!is_space(s[q]));
        assert(s.skip(q).drop_first() =~= s.skip(q + 1));
        assert(s.subrange(start, q).push(s[q]) =~= s.subrange(start, q + 1));
        lemma_scan_token(s, start, pos, q + 1);
    }
}

/// Splits a string into its whitespace-separated words.
pub fn whitespace_tokens(s: &str) -> (toks: Vec<String>)
    ensures
        views_of(toks@) == ws_tokens(s@),
{
    let n = s.unicode_len();
    let mut toks: Vec<String> = Vec::new();
    let mut pos: usize = 0;
    proof {
        assert(s@.skip(0) =~= s@);
    }
    while pos < n
        invariant
            n == s@.len(),
            pos <= n,
            ws_tokens(s@) == views_of(toks@) + ws_tokens_acc(s@.skip(pos as int), Seq::empty()),
        decreases n - pos,
    {
        let c = s.get_char(pos);
        if is_space_char(c) {
            proof {
                lemma_skip_space(s@, pos as int);
            }
            pos = pos + 1;
        } else {
            let start = pos;
            pos = pos + 1;
            while pos < n && !is_space_char(s.get_char(pos))
                invariant
                    n == s@.len(),
                    start < pos <= n,
                    forall|p: int| start <= p < pos ==> !is_space(s@[p]),
                decreases n - pos,
            {
                pos = pos + 1;
            }
            let token = s.substring_char(start, pos);
            let owned = token.to_owned();
            proof {
                assert(s@.subrange(start as int, start as int) =~= Seq::<char>::empty());
                lemma_scan_token(s@, start as int, pos as int, start as int);
                assert(views_of(toks@.push(owned)) =~= views_of(toks@).push(token@));
                assert(views_of(toks@).push(token@) + ws_tokens_acc(
                    s@.skip(pos as int),
                    Seq::empty(),
                ) =~= views_of(toks@) + (seq![token@] + ws_tokens_acc(
                    s@.skip(pos as int),
                    Seq::empty(),
                )));
            }
            toks.push(owned);
        }
    }
    proof {
        assert(s@.skip(n as int).len() == 0);
        assert(views_of(toks@) + Seq::<Seq<char>>::empty() =~= views_of(toks@));
    }
    toks
}

/// Extracts the bearer token from an Authorization header, if the header is
/// present and has exactly the form `Bearer <token>`.
pub fn parse_bearer(header: Option<&str>) -> (r: Option<String>)
    ensures
        header is None ==> r is None,
        header is Some ==> (r is Some <==> spec_bearer_token(header->0@) is Some),
        header is Some && r is Some ==> r->0@ == spec_bearer_token(header->0@)->0,
{
    match header {
        None => None,
        Some(h) => {
            let toks = whitespace_tokens(h);
            proof {
                assert(views_of(toks@).len() == toks@.len());
            }
            if toks.len() == 2 {
                proof {
                    assert(views_of(toks@)[0] == toks@[0]@);
                    assert(views_of(toks@)[1] == toks@[1]@);
                }
                if crate::util::str_eq(toks[0].as_str(), "Bearer") {
                    Some(toks[1].clone())
                } else {
                    None
                }
            } else {
                None
            }
        },
    }
}

} // verus!
