//! Quote-aware tokenizer for the free-form terminal input: a small state
//! machine over characters, with unterminated quotes reported as an error,
//! and a plain whitespace splitter used as its fallback.
use vstd::prelude::*;
use crate::text::{views_of, is_space_char, is_space, push_char, lemma_views_of_push};

verus! {

/// One step of the tokenizer: accumulated arguments, the piece being built,
/// and whether a double quote is open.
pub open spec fn tok_step(
    st: (Seq<Seq<char>>, Seq<char>, bool),
    c: char,
) -> (Seq<Seq<char>>, Seq<char>, bool) {
    if c == '"' {
        (st.0, st.1, !st.2)
    } else if is_space_char(c) && !st.2 {
        if st.1.len() > 0 {
            (st.0.push(st.1), Seq::empty(), st.2)
        } else {
            st
        }
    } else {
        (st.0, st.1.push(c), st.2)
    }
}

pub open spec fn tok_run(s: Seq<char>) -> (Seq<Seq<char>>, Seq<char>, bool)
    decreases s.len(),
{
    if s.len() == 0 {
        (Seq::empty(), Seq::empty(), false)
    } else {
        tok_step(tok_run(s.drop_last()), s.last())
    }
}

/// What tokenizing `s` yields: the argument pieces, or an error when a quote
/// stays open to the end.
pub open spec fn spec_split_args(s: Seq<char>) -> Result<Seq<Seq<char>>, Seq<char>> {
    let st = tok_run(s);
    if st.2 {
        Err("Unclosed quotes"@)
    } else if st.1.len() > 0 {
        Ok(st.0.push(st.1))
    } else {
        Ok(st.0)
    }
}

/// Splits a command line into arguments, treating double quotes as grouping
/// and reporting unterminated quoting as an error.
pub fn split_args(s: &str) -> (r: Result<Vec<String>, String>)
    ensures
        match r {
            Ok(v) => spec_split_args(s@) == Ok::<Seq<Seq<char>>, Seq<char>>(views_of(v@)),
            Err(e) => spec_split_args(s@) == Err::<Seq<Seq<char>>, Seq<char>>(e@) && tok_run(
                s@,
            ).2,
        },
{
    let n = s.unicode_len();
    let mut args: Vec<String> = Vec::new();
    let mut current = String::new();
    let mut in_quotes = false;
    let mut i: usize = 0;
    while i < n
        invariant
            n == s@.len(),
            i <= n,
            tok_run(s@.take(i as int)) == (views_of(args@), current@, in_quotes),
        decreases n - i,
    {
        let c = s.get_char(i);
        proof {
            assert(s@.take(i + 1).drop_last() =~= s@.take(i as int));
            assert(s@.take(i + 1).last() == s@[i as int]);
        }
        if c == '"' {
            in_quotes = !in_quotes;
        } else if is_space(c) && !in_quotes {
            if current.as_str().unicode_len() > 0 {
                proof {
                    lemma_views_of_push(args@, current);
                }
                args.push(current);
                current = String::new();
            }
        } else {
            push_char(&mut current, c);
        }
        i += 1;
    }
    proof {
        assert(s@.take(n as int) =~= s@);
    }
    if in_quotes {
        let e = String::from_str("Unclosed quotes");
        return Err(e);
    }
    if current.as_str().unicode_len() > 0 {
        proof {
            lemma_views_of_push(args@, current);
        }
        args.push(current);
    }
    Ok(args)
}

/// One step of the whitespace splitter that the terminal falls back to when
/// quoting fails: whitespace flushes the piece being built.
pub open spec fn ws_step(st: (Seq<Seq<char>>, Seq<char>), c: char) -> (Seq<Seq<char>>, Seq<char>) {
    if is_space_char(c) {
        if st.1.len() > 0 {
            (st.0.push(st.1), Seq::empty())
        } else {
            st
        }
    } else {
        (st.0, st.1.push(c))
    }
}

pub open spec fn ws_run(s: Seq<char>) -> (Seq<Seq<char>>, Seq<char>)
    decreases s.len(),
{
    if s.len() == 0 {
        (Seq::empty(), Seq::empty())
    } else {
        ws_step(ws_run(s.drop_last()), s.last())
    }
}

/// The whitespace-separated tokens of `s`, with no empty pieces.
pub open spec fn spec_ws_tokens(s: Seq<char>) -> Seq<Seq<char>> {
    let st = ws_run(s);
    if st.1.len() > 0 {
        st.0.push(st.1)
    } else {
        st.0
    }
}

/// Splits on whitespace runs, as `str::split_whitespace` does.
pub fn split_whitespace_tokens(s: &str) -> (r: Vec<String>)
    ensures
        views_of(r@) == spec_ws_tokens(s@),
{
    let n = s.unicode_len();
    let mut args: Vec<String> = Vec::new();
    let mut current = String::new();
    let mut i: usize = 0;
    while i < n
        invariant
            n == s@.len(),
            i <= n,
            ws_run(s@.take(i as int)) == (views_of(args@), current@),
        decreases n - i,
    {
        let c = s.get_char(i);
        proof {
            assert(s@.take(i + 1).drop_last() =~= s@.take(i as int));
            assert(s@.take(i + 1).last() == s@[i as int]);
        }
        if is_space(c) {
            if current.as_str().unicode_len() > 0 {
                proof {
                    lemma_views_of_push(args@, current);
                }
                args.push(current);
                current = String::new();
            }
        } else {
            push_char(&mut current, c);
        }
        i += 1;
    }
    proof {
        assert(s@.take(n as int) =~= s@);
    }
    if current.as_str().unicode_len() > 0 {
        proof {
            lemma_views_of_push(args@, current);
        }
        args.push(current);
    }
    args
}

} // verus!
