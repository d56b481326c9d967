//! Argument lists from compile templates.
//!
//! A compile template is split on whitespace into tokens before any
//! substitution, and each token is rendered on its own into one process
//! argument. Splitting first means a substituted path that contains spaces
//! stays inside a single argument instead of being re-tokenized.

use crate::template::{render, render_spec, TemplateError};
use crate::views_of;
use vstd::prelude::*;

verus! {

/// The characters that separate tokens.
pub open spec fn is_ws(c: char) -> bool {
    c == ' ' || c == '\t' || c == '\n' || c == '\r'
}

/// The tokens of the suffix of `s` from position `i`. `cur` is the token
/// begun but not yet ended, if any.
pub open spec fn split_from(s: Seq<char>, i: int, cur: Option<Seq<char>>) -> Seq<Seq<char>>
    decreases s.len() - i
        when 0 <= i <= s.len()
{
    if i == s.len() {
        match cur {
            None => Seq::empty(),
            Some(tk) => seq![tk],
        }
    } else {
        let c = s[i];
        if is_ws(c) {
            match cur {
                None => split_from(s, i + 1, None),
                Some(tk) => seq![tk] + split_from(s, i + 1, None),
            }
        } else {
            match cur {
                None => split_from(s, i + 1, Some(seq![c])),
                Some(tk) => split_from(s, i + 1, Some(tk.push(c))),
            }
        }
    }
}

/// The whitespace-separated tokens of `s`, empty tokens left out.
pub open spec fn split_ws(s: Seq<char>) -> Seq<Seq<char>> {
    split_from(s, 0, None)
}

/// What rendering every token from index `k` on yields: the rendered tokens
/// in order, or the first token's error.
pub open spec fn render_tokens(
    toks: Seq<Seq<char>>,
    k: int,
    keys: Seq<Seq<char>>,
    vals: Seq<Seq<char>>,
) -> Result<Seq<Seq<char>>, TemplateError>
    decreases toks.len() - k
        when 0 <= k <= toks.len()
{
    if k == toks.len() {
        Ok(Seq::empty())
    } else {
        match render_spec(toks[k], keys, vals) {
            Ok(a) => match render_tokens(toks, k + 1, keys, vals) {
                Ok(rest) => Ok(seq![a] + rest),
                Err(e) => Err(e),
            },
            Err(e) => Err(e),
        }
    }
}

/// Every token of `toks` renders against the slot names `keys`.
pub open spec fn tokens_ok(toks: Seq<Seq<char>>, keys: Seq<Seq<char>>) -> bool {
    render_tokens(toks, 0, keys, keys) is Ok
}

/// Whether `c` separates tokens.
fn is_ws_exec(c: char) -> (r: bool)
    ensures
        r == is_ws(c),
{
    c == ' ' || c == '\t' || c == '\n' || c == '\r'
}

/// Splits from position `i`, between tokens.
fn split_gap(s: &str, i: usize) -> (r: Vec<String>)
    requires
        i <= s@.len(),
    ensures
        views_of(r@) == split_from(s@, i as int, None),
    decreases s@.len() - i,
{
    let n = s.unicode_len();
    if i == n {
        let r: Vec<String> = Vec::new();
        proof {
            assert(views_of(r@) =~= split_from(s@, i as int, None));
        }
        return r;
    }
    let c = s.get_char(i);
    if is_ws_exec(c) {
        split_gap(s, i + 1)
    } else {
        let r = split_tok(s, i + 1, i);
        proof {
            assert(s@.subrange(i as int, i + 1 as int) =~= seq![s@[i as int]]);
        }
        r
    }
}

/// Splits from position `i`, inside a token begun at `ts`.
fn split_tok(s: &str, i: usize, ts: usize) -> (r: Vec<String>)
    requires
        ts <= i <= s@.len(),
    ensures
        views_of(r@) == split_from(s@, i as int, Some(s@.subrange(ts as int, i as int))),
    decreases s@.len() - i,
{
    let n = s.unicode_len();
    if i == n {
        let tok = s.substring_char(ts, i).to_owned();
        let mut r: Vec<String> = Vec::new();
        r.push(tok);
        proof {
            assert(views_of(r@) =~= seq![s@.subrange(ts as int, i as int)]);
        }
        return r;
    }
    let c = s.get_char(i);
    if is_ws_exec(c) {
        let tok = s.substring_char(ts, i).to_owned();
        let mut r = split_gap(s, i + 1);
        r.insert(0, tok);
        proof {
            assert(views_of(r@) =~= seq![s@.subrange(ts as int, i as int)] + split_from(
                s@,
                i + 1 as int,
                None,
            ));
        }
        r
    } else {
        let r = split_tok(s, i + 1, ts);
        proof {
            assert(s@.subrange(ts as int, i as int).push(s@[i as int]) =~= s@.subrange(
                ts as int,
                i + 1 as int,
            ));
        }
        r
    }
}

/// The whitespace-separated tokens of `s`, empty tokens left out.
pub fn split_whitespace_tokens(s: &str) -> (r: Vec<String>)
    ensures
        views_of(r@) == split_ws(s@),
{
    split_gap(s, 0)
}

/// Renders the tokens of `toks` from index `k` on, each into one argument.
fn render_each(toks: &Vec<String>, k: usize, keys: &Vec<String>, vals: &Vec<String>) -> (r: Result<
    Vec<String>,
    TemplateError,
>)
    requires
        k <= toks@.len(),
        keys@.len() == vals@.len(),
    ensures
        ({
            let sp = render_tokens(views_of(toks@), k as int, views_of(keys@), views_of(vals@));
            match r {
                Ok(v) => sp == Ok::<Seq<Seq<char>>, TemplateError>(views_of(v@)),
                Err(e) => sp == Err::<Seq<Seq<char>>, TemplateError>(e),
            }
        }),
    decreases toks@.len() - k,
{
    if k == toks.len() {
        let r: Vec<String> = Vec::new();
        proof {
            assert(views_of(r@) =~= Seq::<Seq<char>>::empty());
        }
        return Ok(r);
    }
    match render(toks[k].as_str(), keys, vals) {
        Ok(a) => match render_each(toks, k + 1, keys, vals) {
            Ok(mut rest) => {
                let ghost rest_view = views_of(rest@);
                let ghost a_view = a@;
                rest.insert(0, a);
                proof {
                    assert(views_of(rest@) =~= seq![a_view] + rest_view);
                }
                Ok(rest)
            },
            Err(e) => Err(e),
        },
        Err(e) => Err(e),
    }
}

/// Splits `t` on whitespace and renders each token into one argument, with
/// the values of `vals` substituted for the slots named by `keys`.
pub fn render_argv(t: &str, keys: &Vec<String>, vals: &Vec<String>) -> (r: Result<
    Vec<String>,
    TemplateError,
>)
    requires
        keys@.len() == vals@.len(),
    ensures
        ({
            let sp = render_tokens(split_ws(t@), 0, views_of(keys@), views_of(vals@));
            match r {
                Ok(v) => sp == Ok::<Seq<Seq<char>>, TemplateError>(views_of(v@)),
                Err(e) => sp == Err::<Seq<Seq<char>>, TemplateError>(e),
            }
        }),
{
    let toks = split_whitespace_tokens(t);
    render_each(&toks, 0, keys, vals)
}

} // verus!
