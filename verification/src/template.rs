//! Closed placeholder substitution for command templates.
//!
//! A template is plain text in which `{name}` stands for the value bound to
//! `name`. Substitution is purely literal: no nesting, no expressions, no
//! escapes. A template whose placeholders all name declared slots renders for
//! every choice of values; anything else is rejected with a named error.

use crate::views_of;
use vstd::prelude::*;

verus! {

/// Why rendering a command template failed.
#[derive(Clone, Copy, Debug, PartialEq, Eq, Structural)]
pub enum TemplateError {
    /// A `{` was never closed by `}` before the template ended.
    UnclosedPlaceholder,
    /// A placeholder names no declared slot.
    UnknownPlaceholder,
    /// A `{` or `}` where none may stand.
    UnexpectedBrace,
}

/// Index of the first binding named `name`, if any.
pub open spec fn lookup_idx(keys: Seq<Seq<char>>, name: Seq<char>, i: int) -> Option<int>
    decreases keys.len() - i
        when 0 <= i <= keys.len()
{
    if i == keys.len() {
        None
    } else if keys[i] == name {
        Some(i)
    } else {
        lookup_idx(keys, name, i + 1)
    }
}

/// What rendering the suffix of `t` from position `i` yields.
///
/// `st` is the scanner's state: `None` in literal text, `Some(name)` inside a
/// placeholder whose name so far is `name`.
pub open spec fn render_from(
    t: Seq<char>,
    i: int,
    st: Option<Seq<char>>,
    keys: Seq<Seq<char>>,
    vals: Seq<Seq<char>>,
) -> Result<Seq<char>, TemplateError>
    decreases t.len() - i
        when 0 <= i <= t.len()
{
    if i == t.len() {
        match st {
            None => Ok(Seq::empty()),
            Some(_) => Err(TemplateError::UnclosedPlaceholder),
        }
    } else {
        let c = t[i];
        match st {
            None => {
                if c == '{' {
                    render_from(t, i + 1, Some(Seq::empty()), keys, vals)
                } else if c == '}' {
                    Err(TemplateError::UnexpectedBrace)
                } else {
                    match render_from(t, i + 1, None, keys, vals) {
                        Ok(rest) => Ok(seq![c] + rest),
                        Err(e) => Err(e),
                    }
                }
            },
            Some(name) => {
                if c == '}' {
                    match lookup_idx(keys, name, 0) {
                        Some(m) => match render_from(t, i + 1, None, keys, vals) {
                            Ok(rest) => Ok(vals[m] + rest),
                            Err(e) => Err(e),
                        },
                        None => Err(TemplateError::UnknownPlaceholder),
                    }
                } else if c == '{' {
                    Err(TemplateError::UnexpectedBrace)
                } else {
                    render_from(t, i + 1, Some(name.push(c)), keys, vals)
                }
            },
        }
    }
}

/// What rendering the whole template yields.
pub open spec fn render_spec(
    t: Seq<char>,
    keys: Seq<Seq<char>>,
    vals: Seq<Seq<char>>,
) -> Result<Seq<char>, TemplateError> {
    render_from(t, 0, None, keys, vals)
}

/// A template whose placeholders all name slots in `keys`. Rendering such a
/// template succeeds for every choice of values: `lemma_valid_template_renders`.
pub open spec fn template_ok(t: Seq<char>, keys: Seq<Seq<char>>) -> bool {
    render_spec(t, keys, keys) is Ok
}

/// Whether two string slices hold the same characters.
pub fn str_eq(a: &str, b: &str) -> (r: bool)
    ensures
        r == (a@ == b@),
{
    let n = a.unicode_len();
    let m = b.unicode_len();
    if n != m {
        return false;
    }
    let mut i: usize = 0;
    while i < n
        invariant
            0 <= i <= n,
            n == a@.len(),
            n == b@.len(),
            forall|k: int| 0 <= k < i ==> a@[k] == b@[k],
        decreases n - i,
    {
        if a.get_char(i) != b.get_char(i) {
            return false;
        }
        i = i + 1;
    }
    proof {
        assert(a@ =~= b@);
    }
    true
}

/// Index of the first binding in `keys` named `name`, if any.
fn lookup(keys: &Vec<String>, name: &str, i: usize) -> (r: Option<usize>)
    requires
        i <= keys@.len(),
    ensures
        match r {
            Some(m) => lookup_idx(views_of(keys@), name@, i as int) == Some(m as int),
            None => lookup_idx(views_of(keys@), name@, i as int) is None,
        },
    decreases keys@.len() - i,
{
    if i == keys.len() {
        None
    } else if str_eq(keys[i].as_str(), name) {
        Some(i)
    } else {
        lookup(keys, name, i + 1)
    }
}

/// Renders from position `i` in literal text.
fn render_lit(t: &str, i: usize, keys: &Vec<String>, vals: &Vec<String>) -> (r: Result<
    String,
    TemplateError,
>)
    requires
        i <= t@.len(),
        keys@.len() == vals@.len(),
    ensures
        ({
            let sp = render_from(t@, i as int, None, views_of(keys@), views_of(vals@));
            match r {
                Ok(s) => sp == Ok::<Seq<char>, TemplateError>(s@),
                Err(e) => sp == Err::<Seq<char>, TemplateError>(e),
            }
        }),
    decreases t@.len() - i,
{
    let n = t.unicode_len();
    if i == n {
        return Ok(String::new());
    }
    let c = t.get_char(i);
    if c == '{' {
        proof {
            assert(t@.subrange(i + 1 as int, i + 1 as int) =~= Seq::<char>::empty());
        }
        render_ph(t, i + 1, i + 1, keys, vals)
    } else if c == '}' {
        Err(TemplateError::UnexpectedBrace)
    } else {
        match render_lit(t, i + 1, keys, vals) {
            Ok(rest) => {
                let piece = t.substring_char(i, i + 1);
                let out = piece.to_owned().concat(rest.as_str());
                proof {
                    assert(out@ =~= seq![t@[i as int]] + rest@);
                }
                Ok(out)
            },
            Err(e) => Err(e),
        }
    }
}

/// Renders from position `i` inside a placeholder whose name began at `ns`.
fn render_ph(t: &str, i: usize, ns: usize, keys: &Vec<String>, vals: &Vec<String>) -> (r: Result<
    String,
    TemplateError,
>)
    requires
        ns <= i <= t@.len(),
        keys@.len() == vals@.len(),
    ensures
        ({
            let sp = render_from(
                t@,
                i as int,
                Some(t@.subrange(ns as int, i as int)),
                views_of(keys@),
                views_of(vals@),
            );
            match r {
                Ok(s) => sp == Ok::<Seq<char>, TemplateError>(s@),
                Err(e) => sp == Err::<Seq<char>, TemplateError>(e),
            }
        }),
    decreases t@.len() - i,
{
    let n = t.unicode_len();
    if i == n {
        return Err(TemplateError::UnclosedPlaceholder);
    }
    let c = t.get_char(i);
    if c == '}' {
        let name = t.substring_char(ns, i);
        match lookup(keys, name, 0) {
            Some(m) => {
                proof {
                    lemma_lookup_idx_bounds(views_of(keys@), name@, 0);
                }
                let v = vals[m].clone();
                match render_lit(t, i + 1, keys, vals) {
                    Ok(rest) => Ok(v.concat(rest.as_str())),
                    Err(e) => Err(e),
                }
            },
            None => Err(TemplateError::UnknownPlaceholder),
        }
    } else if c == '{' {
        Err(TemplateError::UnexpectedBrace)
    } else {
        let r = render_ph(t, i + 1, ns, keys, vals);
        proof {
            assert(t@.subrange(ns as int, i as int).push(t@[i as int]) =~= t@.subrange(
                ns as int,
                i + 1 as int,
            ));
        }
        r
    }
}

/// Substitutes the values of `vals` for the placeholders of `t` that name the
/// matching entries of `keys`. Returns the rendered text exactly when every
/// placeholder of `t` names a binding and every brace belongs to a
/// placeholder; otherwise returns the error that `render_spec` gives.
pub fn render(t: &str, keys: &Vec<String>, vals: &Vec<String>) -> (r: Result<String, TemplateError>)
    requires
        keys@.len() == vals@.len(),
    ensures
        ({
            let sp = render_spec(t@, views_of(keys@), views_of(vals@));
            match r {
                Ok(s) => sp == Ok::<Seq<char>, TemplateError>(s@),
                Err(e) => sp == Err::<Seq<char>, TemplateError>(e),
            }
        }),
{
    render_lit(t, 0, keys, vals)
}

/// `v` stands somewhere in `r` as a contiguous run of characters.
pub open spec fn appears_in(v: Seq<char>, r: Seq<char>) -> bool {
    exists|off: int|
        0 <= off && off + v.len() <= r.len() && #[trigger] r.subrange(off, off + v.len() as int)
            == v
}

/// `s` holds no brace, so no placeholder syntax can stand in it.
pub open spec fn brace_free(s: Seq<char>) -> bool {
    forall|k: int| 0 <= k < s.len() ==> s[k] != '{' && s[k] != '}'
}

/// A found binding index lies within `keys`.
pub proof fn lemma_lookup_idx_bounds(keys: Seq<Seq<char>>, name: Seq<char>, i: int)
    requires
        0 <= i <= keys.len(),
    ensures
        lookup_idx(keys, name, i) matches Some(m) ==> i <= m < keys.len(),
    decreases keys.len() - i,
{
    if i < keys.len() && keys[i] != name {
        lemma_lookup_idx_bounds(keys, name, i + 1);
    }
}

/// Whether rendering succeeds, and with which error it fails, depend on the
/// binding names alone, never on the bound values.
pub proof fn lemma_render_kind_independent_of_vals(
    t: Seq<char>,
    i: int,
    st: Option<Seq<char>>,
    keys: Seq<Seq<char>>,
    vals1: Seq<Seq<char>>,
    vals2: Seq<Seq<char>>,
)
    requires
        0 <= i <= t.len(),
    ensures
        render_from(t, i, st, keys, vals1) is Ok <==> render_from(t, i, st, keys, vals2) is Ok,
        render_from(t, i, st, keys, vals1) matches Err(e) ==> render_from(t, i, st, keys, vals2)
            == Err::<Seq<char>, TemplateError>(e),
    decreases t.len() - i,
{
    if i < t.len() {
        let c = t[i];
        match st {
            None => {
                if c == '{' {
                    lemma_render_kind_independent_of_vals(
                        t,
                        i + 1,
                        Some(Seq::empty()),
                        keys,
                        vals1,
                        vals2,
                    );
                } else if c != '}' {
                    lemma_render_kind_independent_of_vals(t, i + 1, None, keys, vals1, vals2);
                }
            },
            Some(name) => {
                if c == '}' {
                    if lookup_idx(keys, name, 0) is Some {
                        lemma_render_kind_independent_of_vals(t, i + 1, None, keys, vals1, vals2);
                    }
                } else if c != '{' {
                    lemma_render_kind_independent_of_vals(
                        t,
                        i + 1,
                        Some(name.push(c)),
                        keys,
                        vals1,
                        vals2,
                    );
                }
            },
        }
    }
}

/// Law: a template whose placeholders all name declared slots renders
/// successfully, whatever values the slots are bound to.
pub proof fn lemma_valid_template_renders(t: Seq<char>, keys: Seq<Seq<char>>, vals: Seq<Seq<char>>)
    requires
        template_ok(t, keys),
    ensures
        render_spec(t, keys, vals) is Ok,
{
    lemma_render_kind_independent_of_vals(t, 0, None, keys, keys, vals);
}

/// Scanning a placeholder name from `i` to its closing brace at `j` renders
/// the value bound to the accumulated name, followed by the rest.
proof fn lemma_render_ph_scan(
    t: Seq<char>,
    i: int,
    j: int,
    acc: Seq<char>,
    keys: Seq<Seq<char>>,
    vals: Seq<Seq<char>>,
)
    requires
        0 <= i <= j < t.len(),
        t[j] == '}',
        forall|k: int| i <= k < j ==> t[k] != '}' && t[k] != '{',
    ensures
        render_from(t, i, Some(acc), keys, vals) == (match lookup_idx(
            keys,
            acc + t.subrange(i, j),
            0,
        ) {
            Some(m) => match render_from(t, j + 1, None, keys, vals) {
                Ok(rest) => Ok::<Seq<char>, TemplateError>(vals[m] + rest),
                Err(e) => Err(e),
            },
            None => Err::<Seq<char>, TemplateError>(TemplateError::UnknownPlaceholder),
        }),
    decreases j - i,
{
    if i == j {
        assert(acc + t.subrange(i, j) =~= acc);
    } else {
        lemma_render_ph_scan(t, i + 1, j, acc.push(t[i]), keys, vals);
        assert(acc.push(t[i]) + t.subrange(i + 1, j) =~= acc + t.subrange(i, j));
    }
}

/// Whatever renders after position `cur` carries the value bound to a
/// placeholder that stands wholly after `cur`.
proof fn lemma_contains_gen(
    t: Seq<char>,
    cur: int,
    st: Option<Seq<char>>,
    keys: Seq<Seq<char>>,
    vals: Seq<Seq<char>>,
    i: int,
    j: int,
    m: int,
    r: Seq<char>,
)
    requires
        0 <= cur <= t.len(),
        keys.len() == vals.len(),
        render_from(t, cur, st, keys, vals) == Ok::<Seq<char>, TemplateError>(r),
        cur <= i < j < t.len(),
        t[i] == '{',
        t[j] == '}',
        forall|k: int| i < k < j ==> t[k] != '}' && t[k] != '{',
        lookup_idx(keys, t.subrange(i + 1, j), 0) == Some(m),
    ensures
        appears_in(vals[m], r),
    decreases t.len() - cur,
{
    let c = t[cur];
    match st {
        None => {
            if cur == i {
                lemma_render_ph_scan(t, i + 1, j, Seq::empty(), keys, vals);
                assert(Seq::<char>::empty() + t.subrange(i + 1, j) =~= t.subrange(i + 1, j));
                let rest = match render_from(t, j + 1, None, keys, vals) {
                    Ok(rest) => rest,
                    Err(_) => Seq::empty(),
                };
                assert(r == vals[m] + rest);
                assert(r.subrange(0, vals[m].len() as int) =~= vals[m]);
                assert(appears_in(vals[m], r)) by {
                    assert(0 <= 0 && 0 + vals[m].len() <= r.len() && r.subrange(
                        0,
                        0 + vals[m].len() as int,
                    ) == vals[m]);
                }
            } else if c == '{' {
                lemma_contains_gen(t, cur + 1, Some(Seq::empty()), keys, vals, i, j, m, r);
            } else {
                let rest = match render_from(t, cur + 1, None, keys, vals) {
                    Ok(rest) => rest,
                    Err(_) => Seq::empty(),
                };
                assert(r == seq![c] + rest);
                lemma_contains_gen(t, cur + 1, None, keys, vals, i, j, m, rest);
                let off = choose|off: int|
                    0 <= off && off + vals[m].len() <= rest.len() && #[trigger] rest.subrange(
                        off,
                        off + vals[m].len() as int,
                    ) == vals[m];
                assert(r.subrange(1 + off, 1 + off + vals[m].len() as int) =~= rest.subrange(
                    off,
                    off + vals[m].len() as int,
                ));
                assert(appears_in(vals[m], r)) by {
                    assert(0 <= 1 + off && 1 + off + vals[m].len() <= r.len() && r.subrange(
                        1 + off,
                        1 + off + vals[m].len() as int,
                    ) == vals[m]);
                }
            }
        },
        Some(name) => {
            if c == '}' {
                let m2 = match lookup_idx(keys, name, 0) {
                    Some(m2) => m2,
                    None => 0,
                };
                lemma_lookup_idx_bounds(keys, name, 0);
                let rest = match render_from(t, cur + 1, None, keys, vals) {
                    Ok(rest) => rest,
                    Err(_) => Seq::empty(),
                };
                assert(r == vals[m2] + rest);
                lemma_contains_gen(t, cur + 1, None, keys, vals, i, j, m, rest);
                let off = choose|off: int|
                    0 <= off && off + vals[m].len() <= rest.len() && #[trigger] rest.subrange(
                        off,
                        off + vals[m].len() as int,
                    ) == vals[m];
                let base = vals[m2].len() as int;
                assert(r.subrange(base + off, base + off + vals[m].len() as int) =~= rest.subrange(
                    off,
                    off + vals[m].len() as int,
                ));
                assert(appears_in(vals[m], r)) by {
                    assert(0 <= base + off && base + off + vals[m].len() <= r.len() && r.subrange(
                        base + off,
                        base + off + vals[m].len() as int,
                    ) == vals[m]);
                }
            } else {
                lemma_contains_gen(t, cur + 1, Some(name.push(c)), keys, vals, i, j, m, r);
            }
        },
    }
}

/// Law: the rendered text carries each substituted value literally. For any
/// placeholder of `t` opening at `i`, closing at `j` and naming the binding at
/// index `m`, the value of that binding stands contiguously in the result.
pub proof fn lemma_rendered_contains_value(
    t: Seq<char>,
    keys: Seq<Seq<char>>,
    vals: Seq<Seq<char>>,
    i: int,
    j: int,
    m: int,
    r: Seq<char>,
)
    requires
        keys.len() == vals.len(),
        render_spec(t, keys, vals) == Ok::<Seq<char>, TemplateError>(r),
        0 <= i < j < t.len(),
        t[i] == '{',
        t[j] == '}',
        forall|k: int| i < k < j ==> t[k] != '}' && t[k] != '{',
        lookup_idx(keys, t.subrange(i + 1, j), 0) == Some(m),
    ensures
        appears_in(vals[m], r),
{
    lemma_contains_gen(t, 0, None, keys, vals, i, j, m, r);
}

/// Whatever renders after position `cur` is brace-free when the values are.
proof fn lemma_no_braces_gen(
    t: Seq<char>,
    cur: int,
    st: Option<Seq<char>>,
    keys: Seq<Seq<char>>,
    vals: Seq<Seq<char>>,
    r: Seq<char>,
)
    requires
        0 <= cur <= t.len(),
        keys.len() == vals.len(),
        render_from(t, cur, st, keys, vals) == Ok::<Seq<char>, TemplateError>(r),
        forall|m: int| 0 <= m < vals.len() ==> brace_free(#[trigger] vals[m]),
    ensures
        brace_free(r),
    decreases t.len() - cur,
{
    if cur == t.len() {
    } else {
        let c = t[cur];
        match st {
            None => {
                if c == '{' {
                    lemma_no_braces_gen(t, cur + 1, Some(Seq::empty()), keys, vals, r);
                } else {
                    let rest = match render_from(t, cur + 1, None, keys, vals) {
                        Ok(rest) => rest,
                        Err(_) => Seq::empty(),
                    };
                    assert(r == seq![c] + rest);
                    lemma_no_braces_gen(t, cur + 1, None, keys, vals, rest);
                }
            },
            Some(name) => {
                if c == '}' {
                    let m = match lookup_idx(keys, name, 0) {
                        Some(m) => m,
                        None => 0,
                    };
                    lemma_lookup_idx_bounds(keys, name, 0);
                    let rest = match render_from(t, cur + 1, None, keys, vals) {
                        Ok(rest) => rest,
                        Err(_) => Seq::empty(),
                    };
                    assert(r == vals[m] + rest);
                    lemma_no_braces_gen(t, cur + 1, None, keys, vals, rest);
                } else {
                    lemma_no_braces_gen(t, cur + 1, Some(name.push(c)), keys, vals, r);
                }
            },
        }
    }
}

/// Law: when every bound value is brace-free, the rendered text is brace-free:
/// no placeholder syntax remains after substitution.
pub proof fn lemma_rendered_brace_free(
    t: Seq<char>,
    keys: Seq<Seq<char>>,
    vals: Seq<Seq<char>>,
    r: Seq<char>,
)
    requires
        keys.len() == vals.len(),
        render_spec(t, keys, vals) == Ok::<Seq<char>, TemplateError>(r),
        forall|m: int| 0 <= m < vals.len() ==> brace_free(#[trigger] vals[m]),
    ensures
        brace_free(r),
{
    lemma_no_braces_gen(t, 0, None, keys, vals, r);
}

} // verus!
