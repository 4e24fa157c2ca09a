//! Terms in the text form. A name stands for the innermost enclosing
//! `lam` that binds it, as a De Bruijn index counted from 1.

use vstd::prelude::*;

use crate::binder::DeBruijn;
use crate::term::{Term, TermV};

use super::constant::{constant_body, read_constant_body};
use super::data::lemma_skip_space_bounds;
use super::lex::{is_name_start, lemma_run_end_bounds, name, name_at, skip_space, spaces, spells, CharClass};
use super::literal::{char_at, close, is_char_at, read_token};
use super::names::{builtin_at, builtin_named};

verus! {

/// The De Bruijn index of `w` among the bound names `env` (innermost
/// last): 1 for the last, counting outwards.
pub open spec fn lookup(env: Seq<Seq<char>>, w: Seq<char>) -> Option<nat>
    decreases env.len(),
{
    if env.len() == 0 {
        None
    } else if env.last() == w {
        Some(1)
    } else {
        match lookup(env.drop_last(), w) {
            Some(i) => Some(i + 1),
            None => None,
        }
    }
}

/// The term at `p` (after optional white space) under the bound names
/// `env`, and where it ends.
pub open spec fn term(s: Seq<char>, p: int, env: Seq<Seq<char>>) -> Result<(TermV, int), int>
    decreases s.len() - p, 0int,
{
    if !(0 <= p <= s.len()) {
        Err(p)
    } else {
        let q = skip_space(s, p);
        proof {
            lemma_skip_space_bounds(s, p);
        }
        if 0 <= q < s.len() && is_name_start(s[q]) {
            match name_at(s, q) {
                Some(e) => match lookup(env, s.subrange(q, e)) {
                    Some(i) => Ok((TermV::Var(i), e)),
                    None => Err(q),
                },
                None => Err(q),
            }
        } else if char_at(s, q, '[') {
            match term(s, q + 1, env) {
                Err(x) => Err(x),
                Ok((f, e)) => if e <= q || e > s.len() {
                    Err(q)
                } else {
                    match term(s, e, env) {
                        Err(x) => Err(x),
                        Ok((a, g)) => if g <= e || g > s.len() {
                            Err(e)
                        } else {
                            applications(s, g, env, TermV::Apply(Box::new(f), Box::new(a)))
                        },
                    }
                },
            }
        } else if char_at(s, q, '(') {
            let r = skip_space(s, q + 1);
            proof {
                lemma_skip_space_bounds(s, q + 1);
            }
            match name_at(s, r) {
                None => Err(r),
                Some(e) => {
                    proof {
                        lemma_run_end_bounds(s, r + 1, CharClass::NameChar);
                    }
                    form(s, r, e, env)
                },
            }
        } else {
            Err(q)
        }
    }
}

/// The parenthesised form whose keyword spans `r` to `e`, up to and past
/// its closing parenthesis.
pub open spec fn form(s: Seq<char>, r: int, e: int, env: Seq<Seq<char>>) -> Result<(TermV, int), int>
    decreases s.len() - r, 2int,
{
    if !(0 <= r < e <= s.len()) {
        Err(r)
    } else {
        let w = s.subrange(r, e);
        if w == "delay"@ {
            match term(s, e, env) {
                Err(x) => Err(x),
                Ok((b, f)) => match close(s, f) {
                    Err(x) => Err(x),
                    Ok(g) => Ok((TermV::Delay(Box::new(b)), g)),
                },
            }
        } else if w == "force"@ {
            match term(s, e, env) {
                Err(x) => Err(x),
                Ok((b, f)) => match close(s, f) {
                    Err(x) => Err(x),
                    Ok(g) => Ok((TermV::Force(Box::new(b)), g)),
                },
            }
        } else if w == "lam"@ {
            let x = skip_space(s, e);
            proof {
                lemma_skip_space_bounds(s, e);
            }
            match name_at(s, x) {
                None => Err(x),
                Some(xe) => {
                    proof {
                        lemma_run_end_bounds(s, x + 1, CharClass::NameChar);
                    }
                    match term(s, xe, env.push(s.subrange(x, xe))) {
                        Err(y) => Err(y),
                        Ok((b, f)) => match close(s, f) {
                            Err(y) => Err(y),
                            Ok(g) => Ok((TermV::Lambda(0, Box::new(b)), g)),
                        },
                    }
                },
            }
        } else if w == "con"@ {
            match constant_body(s, e) {
                Err(x) => Err(x),
                Ok((c, g)) => Ok((TermV::Constant(c), g)),
            }
        } else if w == "builtin"@ {
            let b = skip_space(s, e);
            match name_at(s, b) {
                None => Err(b),
                Some(be) => match builtin_named(s.subrange(b, be)) {
                    None => Err(b),
                    Some(f) => match close(s, be) {
                        Err(x) => Err(x),
                        Ok(g) => Ok((TermV::Builtin(f), g)),
                    },
                },
            }
        } else if w == "error"@ {
            match close(s, e) {
                Err(x) => Err(x),
                Ok(g) => Ok((TermV::Error, g)),
            }
        } else {
            Err(r)
        }
    }
}

/// The arguments of an application from `p`, applied in turn to `acc`, up
/// to and past the closing bracket. Each argument must take up some text.
pub open spec fn applications(s: Seq<char>, p: int, env: Seq<Seq<char>>, acc: TermV) -> Result<
    (TermV, int),
    int,
>
    decreases s.len() - p, 1int,
{
    if !(0 <= p <= s.len()) {
        Err(p)
    } else {
        let q = skip_space(s, p);
        proof {
            lemma_skip_space_bounds(s, p);
        }
        if char_at(s, q, ']') {
            Ok((acc, q + 1))
        } else {
            match term(s, q, env) {
                Err(x) => Err(x),
                Ok((a, e)) => if e <= q || e > s.len() {
                    Err(q)
                } else {
                    applications(s, e, env, TermV::Apply(Box::new(acc), Box::new(a)))
                },
            }
        }
    }
}

/// The bound names that the spans `env` of `s` stand for.
pub open spec fn env_names(s: Seq<char>, env: Seq<(usize, usize)>) -> Seq<Seq<char>> {
    Seq::new(env.len(), |i: int| s.subrange(env[i].0 as int, env[i].1 as int))
}

/// Whether every span of `env` lies within `s`.
pub open spec fn env_fits(s: Seq<char>, env: Seq<(usize, usize)>) -> bool {
    forall|i: int| 0 <= i < env.len() ==> #[trigger] env[i].0 <= env[i].1 <= s.len()
}

/// The index of the name from `a` to `e` among the bound spans `env`.
fn find_binding(s: &[char], env: &Vec<(usize, usize)>, a: usize, e: usize) -> (r: Option<usize>)
    requires
        a <= e <= s@.len(),
        env_fits(s@, env@),
    ensures
        r matches Some(k) ==> lookup(env_names(s@, env@), s@.subrange(a as int, e as int)) == Some(
            k as nat,
        ),
        r is None ==> lookup(env_names(s@, env@), s@.subrange(a as int, e as int)) is None,
{
    let ghost names = env_names(s@, env@);
    let ghost w = s@.subrange(a as int, e as int);
    let n = env.len();
    let mut k = n;
    proof {
        assert(names.take(n as int) =~= names);
    }
    while k > 0
        invariant
            k <= n == env@.len() == names.len(),
            names == env_names(s@, env@),
            w == s@.subrange(a as int, e as int),
            a <= e <= s@.len(),
            env_fits(s@, env@),
            lookup(names, w) == (match lookup(names.take(k as int), w) {
                Some(i) => Some(i + (n - k) as nat),
                None => None::<nat>,
            }),
        decreases k,
    {
        let (x, y) = env[k - 1];
        proof {
            assert(names.take(k as int).last() == names[k - 1]);
            assert(names.take(k as int).drop_last() =~= names.take(k - 1));
            assert(env@[k - 1].0 <= env@[k - 1].1 <= s@.len());
        }
        if spells_same(s, x, y, a, e) {
            proof {
                assert(names[k - 1] == w);
            }
            return Some(1 + (n - k));
        }
        k = k - 1;
    }
    proof {
        assert(names.take(0) =~= Seq::<Seq<char>>::empty());
    }
    None
}

/// Whether the characters from `x` to `y` are those from `a` to `e`.
fn spells_same(s: &[char], x: usize, y: usize, a: usize, e: usize) -> (r: bool)
    requires
        x <= y <= s@.len(),
        a <= e <= s@.len(),
    ensures
        r == (s@.subrange(x as int, y as int) == s@.subrange(a as int, e as int)),
{
    if y - x != e - a {
        proof {
            assert(s@.subrange(x as int, y as int).len() != s@.subrange(a as int, e as int).len());
        }
        return false;
    }
    let mut i: usize = 0;
    while i < y - x
        invariant
            x <= y <= s@.len(),
            a <= e <= s@.len(),
            y - x == e - a,
            i <= y - x,
            forall|j: int|
                0 <= j < i ==> #[trigger] s@.subrange(x as int, y as int)[j] == s@.subrange(
                    a as int,
                    e as int,
                )[j],
        decreases y - x - i,
    {
        if s[x + i] != s[a + i] {
            proof {
                assert(s@.subrange(x as int, y as int)[i as int] != s@.subrange(a as int, e as int)[i as int]);
            }
            return false;
        }
        proof {
            assert(s@.subrange(x as int, y as int)[i as int] == s@[x + i]);
            assert(s@.subrange(a as int, e as int)[i as int] == s@[a + i]);
        }
        i = i + 1;
    }
    proof {
        assert(s@.subrange(x as int, y as int) =~= s@.subrange(a as int, e as int));
    }
    true
}

/// The term at `p` under the bound spans `env`, and where it ends.
pub fn read_term(s: &[char], p: usize, env: &mut Vec<(usize, usize)>) -> (r: Result<(Term, usize), usize>)
    requires
        p <= s@.len(),
        env_fits(s@, old(env)@),
    ensures
        final(env)@ == old(env)@,
        match r {
            Ok((t, e)) => term(s@, p as int, env_names(s@, old(env)@)) == Ok::<(TermV, int), int>(
                (t@, e as int),
            ) && e <= s@.len(),
            Err(x) => term(s@, p as int, env_names(s@, old(env)@)) == Err::<(TermV, int), int>(
                x as int,
            ),
        },
    decreases s@.len() - p, 0int,
{
    let q = spaces(s, p);
    if q < s.len() && super::lex::char_is_name_start(s[q]) {
        match name(s, q) {
            Some(e) => match find_binding(s, env, q, e) {
                Some(i) => Ok((Term::Var(DeBruijn(i)), e)),
                None => Err(q),
            },
            None => Err(q),
        }
    } else if is_char_at(s, q, '[') {
        match read_term(s, q + 1, env) {
            Err(x) => Err(x),
            Ok((f, e)) => {
                if e <= q {
                    return Err(q);
                }
                match read_term(s, e, env) {
                    Err(x) => Err(x),
                    Ok((a, g)) => {
                        if g <= e {
                            return Err(e);
                        }
                        read_applications(s, g, env, Term::Apply { function: Box::new(f), argument: Box::new(a) })
                    },
                }
            },
        }
    } else if is_char_at(s, q, '(') {
        let r = spaces(s, q + 1);
        match name(s, r) {
            None => Err(r),
            Some(e) => read_form(s, r, e, env),
        }
    } else {
        Err(q)
    }
}

/// The parenthesised form whose keyword spans `r` to `e`, and its end.
fn read_form(s: &[char], r: usize, e: usize, env: &mut Vec<(usize, usize)>) -> (res: Result<(Term, usize), usize>)
    requires
        r < e <= s@.len(),
        env_fits(s@, old(env)@),
    ensures
        final(env)@ == old(env)@,
        match res {
            Ok((t, g)) => form(s@, r as int, e as int, env_names(s@, old(env)@)) == Ok::<
                (TermV, int),
                int,
            >((t@, g as int)) && g <= s@.len(),
            Err(x) => form(s@, r as int, e as int, env_names(s@, old(env)@)) == Err::<
                (TermV, int),
                int,
            >(x as int),
        },
    decreases s@.len() - r, 2int,
{
    if spells(s, r, e, "delay") {
        match read_term(s, e, env) {
            Err(x) => Err(x),
            Ok((b, f)) => match read_token(s, f, ')') {
                Err(x) => Err(x),
                Ok(g) => Ok((Term::Delay(Box::new(b)), g)),
            },
        }
    } else if spells(s, r, e, "force") {
        match read_term(s, e, env) {
            Err(x) => Err(x),
            Ok((b, f)) => match read_token(s, f, ')') {
                Err(x) => Err(x),
                Ok(g) => Ok((Term::Force(Box::new(b)), g)),
            },
        }
    } else if spells(s, r, e, "lam") {
        let x = spaces(s, e);
        match name(s, x) {
            None => Err(x),
            Some(xe) => {
                let ghost before = env@;
                env.push((x, xe));
                proof {
                    assert(env_names(s@, env@) =~= env_names(s@, before).push(
                        s@.subrange(x as int, xe as int),
                    ));
                }
                let body = read_term(s, xe, env);
                env.pop();
                proof {
                    assert(env@ =~= before);
                }
                match body {
                    Err(y) => Err(y),
                    Ok((b, f)) => match read_token(s, f, ')') {
                        Err(y) => Err(y),
                        Ok(g) => Ok((Term::Lambda { parameter: DeBruijn(0), body: Box::new(b) }, g)),
                    },
                }
            },
        }
    } else if spells(s, r, e, "con") {
        match read_constant_body(s, e) {
            Err(x) => Err(x),
            Ok((c, g)) => Ok((Term::Constant(c), g)),
        }
    } else if spells(s, r, e, "builtin") {
        let b = spaces(s, e);
        match name(s, b) {
            None => Err(b),
            Some(be) => match builtin_at(s, b, be) {
                None => Err(b),
                Some(f) => match read_token(s, be, ')') {
                    Err(x) => Err(x),
                    Ok(g) => Ok((Term::Builtin(f), g)),
                },
            },
        }
    } else if spells(s, r, e, "error") {
        match read_token(s, e, ')') {
            Err(x) => Err(x),
            Ok(g) => Ok((Term::Error, g)),
        }
    } else {
        Err(r)
    }
}

/// The arguments of an application from `p`, applied in turn to `acc`,
/// up to and past the closing bracket.
fn read_applications(s: &[char], p: usize, env: &mut Vec<(usize, usize)>, head: Term) -> (r: Result<
    (Term, usize),
    usize,
>)
    requires
        p <= s@.len(),
        env_fits(s@, old(env)@),
    ensures
        final(env)@ == old(env)@,
        match r {
            Ok((t, e)) => applications(s@, p as int, env_names(s@, old(env)@), head@) == Ok::<
                (TermV, int),
                int,
            >((t@, e as int)) && e <= s@.len(),
            Err(x) => applications(s@, p as int, env_names(s@, old(env)@), head@) == Err::<
                (TermV, int),
                int,
            >(x as int),
        },
    decreases s@.len() - p, 1int,
{
    let ghost names = env_names(s@, env@);
    let ghost start = head@;
    let mut acc = head;
    let mut i = p;
    loop
        invariant
            p <= i <= s@.len(),
            env@ == old(env)@,
            env_fits(s@, env@),
            names == env_names(s@, env@),
            start == head@,
            applications(s@, i as int, names, acc@) == applications(s@, p as int, names, start),
        decreases s@.len() - i,
    {
        let q = spaces(s, i);
        if is_char_at(s, q, ']') {
            return Ok((acc, q + 1));
        }
        match read_term(s, q, env) {
            Err(x) => {
                return Err(x);
            },
            Ok((a, e)) => {
                if e <= q {
                    return Err(q);
                }
                acc = Term::Apply { function: Box::new(acc), argument: Box::new(a) };
                i = e;
            },
        }
    }
}

/// The term `(builtin name)` for the built-in function the text form
/// calls `name`, if there is one.
pub fn builtin_from_str(name: &str) -> (r: Option<Term>)
    ensures
        r is None <==> builtin_named(name@) is None,
        r matches Some(t) ==> builtin_named(name@) matches Some(f) && t@ == TermV::Builtin(f),
{
    let v = super::lex::chars_of(name);
    proof {
        assert(v@.subrange(0, v@.len() as int) =~= name@);
    }
    match builtin_at(v.as_slice(), 0, v.len()) {
        None => None,
        Some(f) => Some(Term::Builtin(f)),
    }
}

} // verus!
