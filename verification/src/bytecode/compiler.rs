//! The compiler from terms to bytecode.
//!
//! Each term becomes an opcode and its operands, followed by the code of its
//! subterms. Operands that point at code hold its absolute offset as 4
//! little-endian bytes; lambdas and delays carry a 16-bit number in the
//! order they are met; constants other than unit, booleans and integers in
//! `-128..=127` go to a pool and are loaded by a 16-bit index. Common
//! shapes get their own opcodes: `[(lam x b) a]`, `[x a]`, `[[f a] b]`,
//! `[[[f a] b] c]`, `(force (delay b))`, `(force x)` and forced built-ins.

use vstd::prelude::*;

use crate::builtin::{spec_force_count, spec_tag};
use crate::constant::{copy_constant, Constant, ConstantV};
use crate::integer::Integer;
use crate::term::{lemma_terms_view_index, terms_view, Term, TermV};

use super::Op;

verus! {

/// Where compilation stands: the offset of the next byte, the numbers of
/// the next lambda and the next delay (counted modulo 2^16), and the
/// constant pool so far.
pub struct CompileState {
    pub at: nat,
    pub lambdas: nat,
    pub delays: nat,
    pub pool: Seq<ConstantV>,
}

/// The 2 little-endian bytes of `v` modulo 2^16.
pub open spec fn le2(v: nat) -> Seq<u8> {
    seq![(v % 256) as u8, ((v / 256) % 256) as u8]
}

/// The 4 little-endian bytes of `v` modulo 2^32.
pub open spec fn le4(v: nat) -> Seq<u8> {
    seq![(v % 256) as u8, ((v / 256) % 256) as u8, ((v / 65536) % 256) as u8, ((v / 16777216) % 256) as u8]
}

/// The 8 little-endian bytes of `v` modulo 2^64.
pub open spec fn le8(v: nat) -> Seq<u8> {
    le4(v % 4294967296) + le4(v / 4294967296)
}

/// The offsets `s`, 4 little-endian bytes each.
pub open spec fn le4_all(s: Seq<nat>) -> Seq<u8>
    decreases s.len(),
{
    if s.len() == 0 {
        Seq::empty()
    } else {
        le4_all(s.drop_last()) + le4(s.last())
    }
}

/// The opcode byte of `op`.
pub open spec fn op(o: Op) -> u8 {
    o.spec_byte()
}

/// `st` moved on by `n` bytes.
pub open spec fn skip(st: CompileState, n: nat) -> CompileState {
    CompileState { at: st.at + n, ..st }
}

/// Whether an integer constant has the one-byte form.
pub open spec fn is_small(i: int) -> bool {
    -128 <= i <= 127
}

/// The byte of a small integer: its two's complement.
pub open spec fn small_byte(i: int) -> u8 {
    if i >= 0 {
        i as u8
    } else {
        (i + 256) as u8
    }
}

/// The code of `t` compiled from state `st`, and the state after it.
pub open spec fn emit(t: TermV, st: CompileState) -> (Seq<u8>, CompileState)
    decreases t,
{
    match t {
        TermV::Var(i) => if i <= 255 {
            (seq![op(Op::Var), i as u8], skip(st, 2))
        } else {
            (seq![op(Op::VarBig)] + le4(i), skip(st, 5))
        },
        TermV::Lambda(_, body) => {
            let s0 = CompileState { at: st.at + 7, lambdas: (st.lambdas + 1) % 65536, ..st };
            let (bb, s1) = emit(*body, s0);
            (seq![op(Op::Lambda)] + le4(st.at + 7) + le2(st.lambdas) + bb, s1)
        },
        TermV::Apply(f, a) => match *f {
            TermV::Lambda(_, body) => {
                let s0 = CompileState { at: st.at + 7, lambdas: (st.lambdas + 1) % 65536, ..st };
                let (ab, s1) = emit(*a, s0);
                let (bb, s2) = emit(*body, s1);
                (seq![op(Op::ApplyLambda)] + le4(s1.at) + le2(st.lambdas) + ab + bb, s2)
            },
            TermV::Var(i) => if i <= 255 {
                let (ab, s1) = emit(*a, skip(st, 2));
                (seq![op(Op::ApplyVar), i as u8] + ab, s1)
            } else {
                let (fb, s1) = emit(*f, skip(st, 5));
                let (ab, s2) = emit(*a, s1);
                (seq![op(Op::Apply)] + le4(s1.at) + fb + ab, s2)
            },
            TermV::Apply(f2, a2) => match *f2 {
                TermV::Apply(inner, a1) => if !(*inner is Lambda) {
                    let (fb, s1) = emit(*inner, skip(st, 13));
                    let (b1, s2) = emit(*a1, s1);
                    let (b2, s3) = emit(*a2, s2);
                    let (b3, s4) = emit(*a, s3);
                    (
                        seq![op(Op::Apply3)] + le4(s1.at) + le4(s2.at) + le4(s3.at) + fb + b1 + b2
                            + b3,
                        s4,
                    )
                } else {
                    let (fb, s1) = emit(*f2, skip(st, 9));
                    let (b1, s2) = emit(*a2, s1);
                    let (b2, s3) = emit(*a, s2);
                    (seq![op(Op::Apply2)] + le4(s1.at) + le4(s2.at) + fb + b1 + b2, s3)
                },
                TermV::Lambda(_, _) => {
                    let (fb, s1) = emit(*f, skip(st, 5));
                    let (ab, s2) = emit(*a, s1);
                    (seq![op(Op::Apply)] + le4(s1.at) + fb + ab, s2)
                },
                _ => {
                    let (fb, s1) = emit(*f2, skip(st, 9));
                    let (b1, s2) = emit(*a2, s1);
                    let (b2, s3) = emit(*a, s2);
                    (seq![op(Op::Apply2)] + le4(s1.at) + le4(s2.at) + fb + b1 + b2, s3)
                },
            },
            _ => {
                let (fb, s1) = emit(*f, skip(st, 5));
                let (ab, s2) = emit(*a, s1);
                (seq![op(Op::Apply)] + le4(s1.at) + fb + ab, s2)
            },
        },
        TermV::Delay(body) => {
            let s0 = CompileState { at: st.at + 7, delays: (st.delays + 1) % 65536, ..st };
            let (bb, s1) = emit(*body, s0);
            (seq![op(Op::Delay)] + le4(st.at + 7) + le2(st.delays) + bb, s1)
        },
        TermV::Force(b) => match *b {
            TermV::Delay(body) => {
                let (bb, s1) = emit(*body, skip(st, 1));
                (seq![op(Op::ForceDelay)] + bb, s1)
            },
            TermV::Force(b2) => match *b2 {
                TermV::Builtin(fun) => if spec_force_count(fun) >= 2 {
                    (seq![op(Op::Force2Builtin), spec_tag(fun)], skip(st, 2))
                } else {
                    let (bb, s1) = emit(*b, skip(st, 1));
                    (seq![op(Op::Force)] + bb, s1)
                },
                _ => {
                    let (bb, s1) = emit(*b, skip(st, 1));
                    (seq![op(Op::Force)] + bb, s1)
                },
            },
            TermV::Builtin(fun) => if spec_force_count(fun) >= 1 {
                (seq![op(Op::ForceBuiltin), spec_tag(fun)], skip(st, 2))
            } else {
                (seq![op(Op::Force), op(Op::Builtin), spec_tag(fun)], skip(st, 3))
            },
            TermV::Var(i) => if i <= 255 {
                (seq![op(Op::ForceVar), i as u8], skip(st, 2))
            } else {
                (seq![op(Op::Force), op(Op::VarBig)] + le4(i), skip(st, 6))
            },
            _ => {
                let (bb, s1) = emit(*b, skip(st, 1));
                (seq![op(Op::Force)] + bb, s1)
            },
        },
        TermV::Constr(tag, fields) => {
            let head = if tag <= 255 {
                seq![op(Op::Constr), tag as u8]
            } else {
                seq![op(Op::ConstrBig)] + le8(tag)
            };
            let n = fields.len();
            let first = head.len() + 1 + 4 * n;
            let (fb, starts, s1) = emit_seq(fields, skip(st, first));
            (head + seq![(n % 256) as u8] + le4_all(starts) + fb, s1)
        },
        TermV::Case(scrutinee, branches) => {
            let n = branches.len();
            let (sb, s1) = emit(*scrutinee, skip(st, 2 + 4 * n));
            let (bb, starts, s2) = emit_seq(branches, s1);
            (seq![op(Op::Case), (n % 256) as u8] + le4_all(starts) + sb + bb, s2)
        },
        TermV::Constant(c) => match c {
            ConstantV::Unit => (seq![op(Op::ConstUnit)], skip(st, 1)),
            ConstantV::Boolean(true) => (seq![op(Op::ConstTrue)], skip(st, 1)),
            ConstantV::Boolean(false) => (seq![op(Op::ConstFalse)], skip(st, 1)),
            ConstantV::Integer(i) => if is_small(i) {
                (seq![op(Op::ConstSmallInt), small_byte(i)], skip(st, 2))
            } else {
                (
                    seq![op(Op::Const)] + le2(st.pool.len()),
                    CompileState { at: st.at + 3, pool: st.pool.push(c), ..st },
                )
            },
            _ => (
                seq![op(Op::Const)] + le2(st.pool.len()),
                CompileState { at: st.at + 3, pool: st.pool.push(c), ..st },
            ),
        },
        TermV::Builtin(fun) => (seq![op(Op::Builtin), spec_tag(fun)], skip(st, 2)),
        TermV::Error => (seq![op(Op::Error)], skip(st, 1)),
    }
}

/// The code of the terms `ts` one after the other from state `st`, the
/// offset at which each starts, and the state after them.
pub open spec fn emit_seq(ts: Seq<TermV>, st: CompileState) -> (Seq<u8>, Seq<nat>, CompileState)
    decreases ts,
{
    if ts.len() == 0 {
        (Seq::empty(), Seq::empty(), st)
    } else {
        let (b0, s0, st0) = emit_seq(ts.subrange(0, ts.len() - 1), st);
        let (b, st1) = emit(ts[ts.len() - 1], st0);
        (b0 + b, s0.push(st0.at), st1)
    }
}

/// Each term compiled in turn has one start offset.
pub proof fn lemma_emit_seq_len(ts: Seq<TermV>, st: CompileState)
    ensures
        emit_seq(ts, st).1.len() == ts.len(),
    decreases ts.len(),
{
    if ts.len() > 0 {
        lemma_emit_seq_len(ts.subrange(0, ts.len() - 1), st);
    }
}

/// The bytecode of a whole term, compiled from offset 0.
pub open spec fn spec_compile(t: TermV) -> Seq<u8> {
    emit(t, CompileState { at: 0, lambdas: 0, delays: 0, pool: Seq::empty() }).0
}

/// The constant pool of a whole term.
pub open spec fn spec_pool(t: TermV) -> Seq<ConstantV> {
    emit(t, CompileState { at: 0, lambdas: 0, delays: 0, pool: Seq::empty() }).1.pool
}

/// A compiled program: its bytecode, its constant pool and its version.
pub struct CompiledProgram {
    pub bytecode: Vec<u8>,
    pub constant_pool: Vec<Constant>,
    pub version: (usize, usize, usize),
}

/// The number of `v` bytes that the `4`-byte little-endian offsets of
/// `s` take.
pub proof fn lemma_le4_all_len(s: Seq<nat>)
    ensures
        le4_all(s).len() == 4 * s.len(),
    decreases s.len(),
{
    if s.len() > 0 {
        lemma_le4_all_len(s.drop_last());
    }
}

/// Appends the 4 little-endian bytes of `v`.
fn push_le4(out: &mut Vec<u8>, v: usize)
    ensures
        final(out)@ == old(out)@ + le4(v as nat),
{
    out.push((v % 256) as u8);
    out.push(((v / 256) % 256) as u8);
    out.push(((v / 65536) % 256) as u8);
    out.push(((v / 16777216) % 256) as u8);
    assert(final(out)@ =~= old(out)@ + le4(v as nat));
}

/// Appends the 2 little-endian bytes of `v`.
fn push_le2(out: &mut Vec<u8>, v: usize)
    ensures
        final(out)@ == old(out)@ + le2(v as nat),
{
    out.push((v % 256) as u8);
    out.push(((v / 256) % 256) as u8);
    assert(final(out)@ =~= old(out)@ + le2(v as nat));
}

/// Appends the 8 little-endian bytes of `v`.
fn push_le8(out: &mut Vec<u8>, v: usize)
    ensures
        final(out)@ == old(out)@ + le8(v as nat),
{
    let w = v as u64;
    let lo = w % 4294967296;
    let hi = w / 4294967296;
    let ghost mid = out@;
    out.push((lo % 256) as u8);
    out.push(((lo / 256) % 256) as u8);
    out.push(((lo / 65536) % 256) as u8);
    out.push(((lo / 16777216) % 256) as u8);
    out.push((hi % 256) as u8);
    out.push(((hi / 256) % 256) as u8);
    out.push(((hi / 65536) % 256) as u8);
    out.push(((hi / 16777216) % 256) as u8);
    assert(final(out)@ =~= old(out)@ + le4(lo as nat) + le4(hi as nat));
}

/// Appends `4 n` zero bytes.
fn push_holes(out: &mut Vec<u8>, n: usize)
    ensures
        final(out)@ == old(out)@ + Seq::new(4 * n as nat, |i: int| 0u8),
{
    let mut k: usize = 0;
    while k < n
        invariant
            k <= n,
            out@ =~= old(out)@ + Seq::new(4 * k as nat, |i: int| 0u8),
        decreases n - k,
    {
        out.push(0);
        out.push(0);
        out.push(0);
        out.push(0);
        k += 1;
    }
}

/// Writes the 4 little-endian bytes of `v` over those at `at`.
fn patch_le4(out: &mut Vec<u8>, at: usize, v: usize)
    requires
        at + 4 <= old(out)@.len(),
    ensures
        final(out)@ == old(out)@.subrange(0, at as int) + le4(v as nat) + old(out)@.subrange(
            at + 4,
            old(out)@.len() as int,
        ),
{
    let len = out.len();
    out.set(at, (v % 256) as u8);
    out.set(at + 1, ((v / 256) % 256) as u8);
    out.set(at + 2, ((v / 65536) % 256) as u8);
    out.set(at + 3, ((v / 16777216) % 256) as u8);
    assert(final(out)@ =~= old(out)@.subrange(0, at as int) + le4(v as nat) + old(out)@.subrange(
        at + 4,
        old(out)@.len() as int,
    ));
}

/// The compiler's output so far.
struct Compiler {
    bytecode: Vec<u8>,
    pool: Vec<Constant>,
    lambdas: u16,
    delays: u16,
}

impl Compiler {
    /// Whether the compiler stands where `st` says.
    spec fn at_state(&self, st: CompileState) -> bool {
        &&& self.bytecode@.len() == st.at
        &&& self.lambdas as nat == st.lambdas
        &&& self.delays as nat == st.delays
        &&& crate::constant::constants_view(self.pool@) == st.pool
    }

    /// The next number after `n`, modulo 2^16.
    fn next_id(n: u16) -> (r: u16)
        ensures
            r as nat == (n + 1) % 65536,
    {
        if n == 65535 {
            0
        } else {
            n + 1
        }
    }

    /// Interns a constant and loads it.
    fn intern(&mut self, c: &Constant, Ghost(st): Ghost<CompileState>)
        requires
            old(self).at_state(st),
        ensures
            final(self).at_state(CompileState { at: st.at + 3, pool: st.pool.push(c@), ..st }),
            final(self).bytecode@ == old(self).bytecode@ + seq![op(Op::Const)] + le2(st.pool.len()),
    {
        let idx = self.pool.len();
        self.bytecode.push(0x08);
        push_le2(&mut self.bytecode, idx);
        let copy = copy_constant(c);
        proof {
            crate::constant::lemma_constants_view_push(self.pool@, copy);
        }
        self.pool.push(copy);
    }

    /// Compiles `t` from state `st`.
    fn compile_term(&mut self, t: &Term, Ghost(st): Ghost<CompileState>)
        requires
            old(self).at_state(st),
        ensures
            final(self).at_state(emit(t@, st).1),
            final(self).bytecode@ == old(self).bytecode@ + emit(t@, st).0,
        decreases t, 3nat,
    {
        match t {
            Term::Lambda { .. } | Term::Delay(_) => self.compile_binder(t, Ghost(st)),
            Term::Apply { .. } => self.compile_apply(t, Ghost(st)),
            Term::Force(_) => self.compile_force(t, Ghost(st)),
            Term::Constr { .. } => self.compile_constr(t, Ghost(st)),
            Term::Case { .. } => self.compile_case(t, Ghost(st)),
            _ => self.compile_leaf(t, Ghost(st)),
        }
    }

    /// Compiles a variable, constant, built-in or error term.
    fn compile_leaf(&mut self, t: &Term, Ghost(st): Ghost<CompileState>)
        requires
            old(self).at_state(st),
            t is Var || t is Constant || t is Builtin || t is Error,
        ensures
            final(self).at_state(emit(t@, st).1),
            final(self).bytecode@ == old(self).bytecode@ + emit(t@, st).0,
    {
        let ghost b0 = self.bytecode@;
        match t {
            Term::Var(db) => {
                let idx = db.0;
                if idx <= 255 {
                    self.bytecode.push(0x01);
                    self.bytecode.push(idx as u8);
                } else {
                    self.bytecode.push(0x0C);
                    push_le4(&mut self.bytecode, idx);
                }
            },
            Term::Constant(c) => {
                match c {
                    Constant::Unit => {
                        self.bytecode.push(0x20);
                    },
                    Constant::Boolean(b) => {
                        if *b {
                            self.bytecode.push(0x21);
                        } else {
                            self.bytecode.push(0x22);
                        }
                    },
                    Constant::Integer(i) => {
                        let lo = Integer::from_i128(-128);
                        let hi = Integer::from_i128(127);
                        if !i.less_than(&lo) && !hi.less_than(i) {
                            let shifted = i.add(&Integer::from_i128(128));
                            match shifted.to_u64() {
                                Some(x) => {
                                    self.bytecode.push(0x23);
                                    self.bytecode.push(((x + 128) % 256) as u8);
                                },
                                None => {
                                    assert(false);
                                },
                            }
                        } else {
                            self.intern(c, Ghost(st));
                        }
                    },
                    _ => {
                        self.intern(c, Ghost(st));
                    },
                }
            },
            Term::Builtin(f) => {
                self.bytecode.push(0x09);
                self.bytecode.push(f.tag());
            },
            _ => {
                self.bytecode.push(0x0A);
            },
        }
        assert(self.bytecode@ =~= b0 + emit(t@, st).0);
    }

    /// Compiles a lambda or a delay.
    fn compile_binder(&mut self, t: &Term, Ghost(st): Ghost<CompileState>)
        requires
            old(self).at_state(st),
            t is Lambda || t is Delay,
        ensures
            final(self).at_state(emit(t@, st).1),
            final(self).bytecode@ == old(self).bytecode@ + emit(t@, st).0,
        decreases t, 1nat,
    {
        let ghost b0 = self.bytecode@;
        let lambda = match t {
            Term::Lambda { .. } => true,
            _ => false,
        };
        self.bytecode.push(if lambda { 0x02 } else { 0x04 });
        let hole = self.bytecode.len();
        push_le4(&mut self.bytecode, 0);
        let id = if lambda { self.lambdas } else { self.delays };
        push_le2(&mut self.bytecode, id as usize);
        let p = self.bytecode.len();
        patch_le4(&mut self.bytecode, hole, p);
        let ghost s0 = if lambda {
            CompileState { at: st.at + 7, lambdas: (st.lambdas + 1) % 65536, ..st }
        } else {
            CompileState { at: st.at + 7, delays: (st.delays + 1) % 65536, ..st }
        };
        if lambda {
            self.lambdas = Self::next_id(self.lambdas);
        } else {
            self.delays = Self::next_id(self.delays);
        }
        let ghost mid = self.bytecode@;
        match t {
            Term::Lambda { body, .. } => {
                assert(mid =~= b0 + seq![op(Op::Lambda)] + le4(st.at + 7) + le2(st.lambdas));
                self.compile_term(body, Ghost(s0));
            },
            Term::Delay(body) => {
                assert(mid =~= b0 + seq![op(Op::Delay)] + le4(st.at + 7) + le2(st.delays));
                self.compile_term(body, Ghost(s0));
            },
            _ => {},
        }
        assert(self.bytecode@ =~= b0 + emit(t@, st).0);
    }

    /// Compiles an application.
    #[verifier::spinoff_prover]
    #[verifier::rlimit(100)]
    fn compile_apply(&mut self, t: &Term, Ghost(st): Ghost<CompileState>)
        requires
            old(self).at_state(st),
            t is Apply,
        ensures
            final(self).at_state(emit(t@, st).1),
            final(self).bytecode@ == old(self).bytecode@ + emit(t@, st).0,
        decreases t, 2nat,
    {
        let ghost b0 = self.bytecode@;
        if let Term::Apply { function, argument } = t {
            assert(t@ == TermV::Apply(Box::new((**function)@), Box::new((**argument)@)));
            match &**function {
                Term::Lambda { .. } => {
                    self.compile_apply_lambda(t, Ghost(st));
                },
                Term::Var(db) => {
                    if db.0 <= 255 {
                        self.bytecode.push(0x14);
                        self.bytecode.push(db.0 as u8);
                        self.compile_term(argument, Ghost(skip(st, 2)));
                        assert(self.bytecode@ =~= b0 + emit(t@, st).0);
                    } else {
                        self.compile_pair(t, Ghost(st));
                    }
                },
                Term::Apply { function: f2, argument: a2 } => {
                    assert((**function)@ == TermV::Apply(Box::new((**f2)@), Box::new((**a2)@)));
                    match &**f2 {
                        Term::Apply { function: inner, argument: a1 } => {
                            assert((**f2)@ == TermV::Apply(Box::new((**inner)@), Box::new((**a1)@)));
                            match &**inner {
                                Term::Lambda { .. } => {
                                    assert((**inner)@ is Lambda);
                                    self.compile_apply2(t, Ghost(st))
                                },
                                _ => {
                                    assert(!((**inner)@ is Lambda));
                                    self.compile_apply3(t, Ghost(st))
                                },
                            }
                        },
                        Term::Lambda { .. } => self.compile_pair(t, Ghost(st)),
                        _ => self.compile_apply2(t, Ghost(st)),
                    }
                },
                _ => {
                    self.compile_pair(t, Ghost(st));
                },
            }
        }
    }

    /// Compiles `[(lam x b) a]`.
    fn compile_apply_lambda(&mut self, t: &Term, Ghost(st): Ghost<CompileState>)
        requires
            old(self).at_state(st),
            t matches Term::Apply { function, .. } && function@ is Lambda,
        ensures
            final(self).at_state(emit(t@, st).1),
            final(self).bytecode@ == old(self).bytecode@ + emit(t@, st).0,
        decreases t, 1nat,
    {
        let ghost b0 = self.bytecode@;
        if let Term::Apply { function, argument } = t {
            if let Term::Lambda { body, .. } = &**function {
                self.bytecode.push(0x11);
                let hole = self.bytecode.len();
                push_le4(&mut self.bytecode, 0);
                push_le2(&mut self.bytecode, self.lambdas as usize);
                self.lambdas = Self::next_id(self.lambdas);
                let ghost s0 = CompileState { at: st.at + 7, lambdas: (st.lambdas + 1) % 65536, ..st };
                self.compile_term(argument, Ghost(s0));
                let ghost s1 = emit((**argument)@, s0).1;
                let p = self.bytecode.len();
                patch_le4(&mut self.bytecode, hole, p);
                proof {
                    assert(self.bytecode@ =~= b0 + seq![op(Op::ApplyLambda)] + le4(s1.at) + le2(st.lambdas)
                        + emit((**argument)@, s0).0);
                }
                self.compile_term(body, Ghost(s1));
                assert(self.bytecode@ =~= b0 + emit(t@, st).0);
            }
        }
    }

    /// Compiles `[[f a] b]` where `f` is no lambda and not itself such an
    /// application of a non-lambda.
    fn compile_apply2(&mut self, t: &Term, Ghost(st): Ghost<CompileState>)
        requires
            old(self).at_state(st),
            t matches Term::Apply { function: f1, .. } && (f1@ matches TermV::Apply(f2, _) && !(*f2 is Lambda)
                && !(*f2 matches TermV::Apply(inner, _) && !(*inner is Lambda))),
        ensures
            final(self).at_state(emit(t@, st).1),
            final(self).bytecode@ == old(self).bytecode@ + emit(t@, st).0,
        decreases t, 1nat,
    {
        let ghost b0 = self.bytecode@;
        if let Term::Apply { function, argument } = t {
            if let Term::Apply { function: f2, argument: a2 } = &**function {
                self.bytecode.push(0x16);
                let h1 = self.bytecode.len();
                push_le4(&mut self.bytecode, 0);
                push_le4(&mut self.bytecode, 0);
                let ghost s0 = skip(st, 9);
                self.compile_term(f2, Ghost(s0));
                let ghost s1 = emit((**f2)@, s0).1;
                let p1 = self.bytecode.len();
                patch_le4(&mut self.bytecode, h1, p1);
                proof {
                    assert(self.bytecode@ =~= b0 + seq![op(Op::Apply2)] + le4(s1.at) + le4(0)
                        + emit((**f2)@, s0).0);
                }
                self.compile_term(a2, Ghost(s1));
                let ghost s2 = emit((**a2)@, s1).1;
                let p2 = self.bytecode.len();
                patch_le4(&mut self.bytecode, h1 + 4, p2);
                proof {
                    assert(self.bytecode@ =~= b0 + seq![op(Op::Apply2)] + le4(s1.at) + le4(s2.at)
                        + emit((**f2)@, s0).0 + emit((**a2)@, s1).0);
                }
                self.compile_term(argument, Ghost(s2));
                assert(self.bytecode@ =~= b0 + emit(t@, st).0);
            }
        }
    }

    /// Compiles `[[[f a] b] c]` where `f` is no lambda.
    #[verifier::spinoff_prover]
    #[verifier::rlimit(100)]
    fn compile_apply3(&mut self, t: &Term, Ghost(st): Ghost<CompileState>)
        requires
            old(self).at_state(st),
            t matches Term::Apply { function: f1, .. } && (f1@ matches TermV::Apply(f2, _) && (*f2 matches TermV::Apply(inner, _) && !(*inner is Lambda))),
        ensures
            final(self).at_state(emit(t@, st).1),
            final(self).bytecode@ == old(self).bytecode@ + emit(t@, st).0,
        decreases t, 1nat,
    {
        let ghost b0 = self.bytecode@;
        if let Term::Apply { function, argument } = t {
            if let Term::Apply { function: f2, argument: a2 } = &**function {
                if let Term::Apply { function: inner, argument: a1 } = &**f2 {
                    proof {
                        assert(t@ == TermV::Apply(Box::new((**function)@), Box::new((**argument)@)));
                        assert((**function)@ == TermV::Apply(Box::new((**f2)@), Box::new((**a2)@)));
                        assert((**f2)@ == TermV::Apply(Box::new((**inner)@), Box::new((**a1)@)));
                    }
                    self.bytecode.push(0x17);
                    let h1 = self.bytecode.len();
                    push_le4(&mut self.bytecode, 0);
                    push_le4(&mut self.bytecode, 0);
                    push_le4(&mut self.bytecode, 0);
                    let ghost s0 = skip(st, 13);
                    self.compile_term(inner, Ghost(s0));
                    let ghost s1 = emit((**inner)@, s0).1;
                    let p1 = self.bytecode.len();
                    patch_le4(&mut self.bytecode, h1, p1);
                    proof {
                        assert(self.bytecode@ =~= b0 + seq![op(Op::Apply3)] + le4(s1.at) + le4(0) + le4(0)
                            + emit((**inner)@, s0).0);
                    }
                    self.compile_term(a1, Ghost(s1));
                    let ghost s2 = emit((**a1)@, s1).1;
                    let p2 = self.bytecode.len();
                    patch_le4(&mut self.bytecode, h1 + 4, p2);
                    proof {
                        assert(self.bytecode@ =~= b0 + seq![op(Op::Apply3)] + le4(s1.at) + le4(s2.at) + le4(0)
                            + emit((**inner)@, s0).0 + emit((**a1)@, s1).0);
                    }
                    self.compile_term(a2, Ghost(s2));
                    let ghost s3 = emit((**a2)@, s2).1;
                    let p3 = self.bytecode.len();
                    patch_le4(&mut self.bytecode, h1 + 8, p3);
                    proof {
                        assert(self.bytecode@ =~= b0 + seq![op(Op::Apply3)] + le4(s1.at) + le4(s2.at) + le4(s3.at)
                            + emit((**inner)@, s0).0 + emit((**a1)@, s1).0 + emit((**a2)@, s2).0);
                    }
                    self.compile_term(argument, Ghost(s3));
                    assert(self.bytecode@ =~= b0 + emit(t@, st).0);
                }
            }
        }
    }

    /// Compiles an application with the plain `Apply` opcode.
    fn compile_pair(&mut self, t: &Term, Ghost(st): Ghost<CompileState>)
        requires
            old(self).at_state(st),
            t matches Term::Apply { function, .. } && ({
                &&& !(function@ is Lambda)
                &&& function@ matches TermV::Var(i) ==> i > 255
                &&& function@ matches TermV::Apply(f2, _) ==> *f2 is Lambda
            }),
        ensures
            final(self).at_state(emit(t@, st).1),
            final(self).bytecode@ == old(self).bytecode@ + emit(t@, st).0,
        decreases t, 1nat,
    {
        let ghost b0 = self.bytecode@;
        if let Term::Apply { function, argument } = t {
            self.bytecode.push(0x03);
            let hole = self.bytecode.len();
            push_le4(&mut self.bytecode, 0);
            let ghost s0 = skip(st, 5);
            self.compile_term(function, Ghost(s0));
            let ghost s1 = emit((**function)@, s0).1;
            let p = self.bytecode.len();
            patch_le4(&mut self.bytecode, hole, p);
            proof {
                assert(self.bytecode@ =~= b0 + seq![op(Op::Apply)] + le4(s1.at) + emit((**function)@, s0).0);
            }
            self.compile_term(argument, Ghost(s1));
            assert(self.bytecode@ =~= b0 + emit(t@, st).0);
        }
    }

    /// Compiles a forcing.
    #[verifier::spinoff_prover]
    #[verifier::rlimit(100)]
    fn compile_force(&mut self, t: &Term, Ghost(st): Ghost<CompileState>)
        requires
            old(self).at_state(st),
            t is Force,
        ensures
            final(self).at_state(emit(t@, st).1),
            final(self).bytecode@ == old(self).bytecode@ + emit(t@, st).0,
        decreases t, 1nat,
    {
        let ghost b0 = self.bytecode@;
        proof {
            reveal_with_fuel(crate::term::term_view, 3);
        }
        if let Term::Force(inner) = t {
            let special = match &**inner {
                Term::Delay(body) => {
                    self.bytecode.push(0x10);
                    self.compile_term(body, Ghost(skip(st, 1)));
                    true
                },
                Term::Force(b2) => match &**b2 {
                    Term::Builtin(f) => {
                        if f.force_count() >= 2 {
                            self.bytecode.push(0x13);
                            self.bytecode.push(f.tag());
                            true
                        } else {
                            false
                        }
                    },
                    _ => false,
                },
                Term::Builtin(f) => {
                    if f.force_count() >= 1 {
                        self.bytecode.push(0x12);
                        self.bytecode.push(f.tag());
                        true
                    } else {
                        false
                    }
                },
                Term::Var(db) => {
                    if db.0 <= 255 {
                        self.bytecode.push(0x15);
                        self.bytecode.push(db.0 as u8);
                        true
                    } else {
                        false
                    }
                },
                _ => false,
            };
            if !special {
                self.bytecode.push(0x05);
                self.compile_term(inner, Ghost(skip(st, 1)));
            }
            assert(self.bytecode@ =~= b0 + emit(t@, st).0);
        }
    }

    /// Compiles a constructor.
    fn compile_constr(&mut self, t: &Term, Ghost(st): Ghost<CompileState>)
        requires
            old(self).at_state(st),
            t is Constr,
        ensures
            final(self).at_state(emit(t@, st).1),
            final(self).bytecode@ == old(self).bytecode@ + emit(t@, st).0,
        decreases t, 1nat,
    {
        let ghost b0 = self.bytecode@;
        if let Term::Constr { tag, fields } = t {
            if *tag <= 255 {
                self.bytecode.push(0x06);
                self.bytecode.push(*tag as u8);
            } else {
                self.bytecode.push(0x0B);
                push_le8(&mut self.bytecode, *tag);
            }
            let ghost head = if *tag <= 255 {
                seq![op(Op::Constr), *tag as u8]
            } else {
                seq![op(Op::ConstrBig)] + le8(*tag as nat)
            };
            assert(self.bytecode@ =~= b0 + head);
            let n = fields.len();
            self.bytecode.push((n % 256) as u8);
            let holes = self.bytecode.len();
            push_holes(&mut self.bytecode, n);
            let ghost s0 = skip(st, (head.len() + 1 + 4 * n) as nat);
            let ghost m0 = self.bytecode@;
            self.compile_items(t, fields, holes, Ghost(s0));
            proof {
                let r = emit_seq(terms_view(fields@), s0);
                lemma_le4_all_len(r.1);
                lemma_emit_seq_len(terms_view(fields@), s0);
                lemma_terms_view_index(fields@);
                assert(m0.subrange(0, holes as int) =~= b0 + head + seq![(n % 256) as u8]);
                assert(m0.subrange(holes + 4 * n, m0.len() as int) =~= Seq::<u8>::empty());
                assert(self.bytecode@ =~= b0 + emit(t@, st).0);
            }
        }
    }

    /// Compiles a case analysis.
    fn compile_case(&mut self, t: &Term, Ghost(st): Ghost<CompileState>)
        requires
            old(self).at_state(st),
            t is Case,
        ensures
            final(self).at_state(emit(t@, st).1),
            final(self).bytecode@ == old(self).bytecode@ + emit(t@, st).0,
        decreases t, 1nat,
    {
        let ghost b0 = self.bytecode@;
        if let Term::Case { constr, branches } = t {
            let n = branches.len();
            self.bytecode.push(0x07);
            self.bytecode.push((n % 256) as u8);
            let holes = self.bytecode.len();
            push_holes(&mut self.bytecode, n);
            let ghost s0 = skip(st, (2 + 4 * n) as nat);
            self.compile_term(constr, Ghost(s0));
            let ghost s1 = emit((**constr)@, s0).1;
            let ghost mid = self.bytecode@;
            self.compile_items(t, branches, holes, Ghost(s1));
            proof {
                let r = emit_seq(terms_view(branches@), s1);
                lemma_le4_all_len(r.1);
                lemma_emit_seq_len(terms_view(branches@), s1);
                lemma_terms_view_index(branches@);
                assert(mid.subrange(0, holes as int) =~= b0 + seq![op(Op::Case), (n % 256) as u8]);
                assert(mid.subrange(holes + 4 * n, mid.len() as int) =~= emit((**constr)@, s0).0);
                assert(self.bytecode@ =~= b0 + emit(t@, st).0);
            }
        }
    }

    /// Compiles the fields or branches `items` of `parent`, writing the
    /// offset of each over the 4 bytes reserved for it from `holes`.
    fn compile_items(&mut self, parent: &Term, items: &Vec<Term>, holes: usize, Ghost(st): Ghost<CompileState>)
        requires
            old(self).at_state(st),
            (parent matches Term::Case { branches, .. } && branches == *items) || (parent matches Term::Constr { fields, .. } && fields == *items),
            holes + 4 * items@.len() <= old(self).bytecode@.len(),
        ensures
            final(self).at_state(emit_seq(terms_view(items@), st).2),
            final(self).bytecode@ == old(self).bytecode@.subrange(0, holes as int) + le4_all(
                emit_seq(terms_view(items@), st).1,
            ) + old(self).bytecode@.subrange(holes + 4 * items@.len(), old(self).bytecode@.len() as int)
                + emit_seq(terms_view(items@), st).0,
        decreases parent, 0nat,
    {
        let ghost b0 = self.bytecode@;
        let ghost all = terms_view(items@);
        proof {
            lemma_terms_view_index(items@);
            assert(all.subrange(0, 0) =~= Seq::<TermV>::empty());
            assert(b0.subrange(holes + 0, b0.len() as int) =~= b0.subrange(holes as int, b0.len() as int));
            assert(b0 =~= b0.subrange(0, holes as int) + le4_all(Seq::empty()) + b0.subrange(holes + 0, b0.len() as int)
                + Seq::<u8>::empty());
        }
        let n = items.len();
        let total = self.bytecode.len();
        let mut i: usize = 0;
        while i < n
            invariant
                i <= n == items@.len(),
                total == b0.len(),
                all == terms_view(items@),
                all.len() == items@.len(),
                forall|k: int| 0 <= k < items@.len() ==> #[trigger] all[k] == items@[k]@,
                (parent matches Term::Case { branches, .. } && branches == *items) || (parent matches Term::Constr { fields, .. } && fields == *items),
                holes + 4 * n <= b0.len(),
                self.at_state(emit_seq(all.subrange(0, i as int), st).2),
                self.bytecode@ == b0.subrange(0, holes as int) + le4_all(emit_seq(all.subrange(0, i as int), st).1)
                    + b0.subrange(holes + 4 * i, b0.len() as int) + emit_seq(all.subrange(0, i as int), st).0,
            decreases n - i,
        {
            proof {
                assert(decreases_to!(*items => items@));
                assert(decreases_to!(items@ => items@[i as int]));
                if parent is Case {
                    assert(decreases_to!(*parent => (*parent)->branches));
                } else {
                    assert(decreases_to!(*parent => (*parent)->fields));
                }
            }
            let ghost r = emit_seq(all.subrange(0, i as int), st);
            let ghost before = self.bytecode@;
            proof {
                lemma_le4_all_len(r.1);
                lemma_emit_seq_len(all.subrange(0, i as int), st);
            }
            let p = self.bytecode.len();
            patch_le4(&mut self.bytecode, holes + 4 * i, p);
            proof {
                assert(le4_all(r.1.push(p as nat)) == le4_all(r.1) + le4(p as nat)) by {
                    assert(r.1.push(p as nat).drop_last() =~= r.1);
                }
                assert(self.bytecode@ =~= b0.subrange(0, holes as int) + le4_all(r.1.push(p as nat))
                    + b0.subrange(holes + 4 * (i + 1), b0.len() as int) + r.0);
            }
            self.compile_term(&items[i], Ghost(r.2));
            proof {
                let ts = all.subrange(0, i + 1);
                assert(ts.subrange(0, ts.len() - 1) =~= all.subrange(0, i as int));
                assert(ts[ts.len() - 1] == items@[i as int]@);
            }
            i += 1;
        }
        proof {
            assert(all.subrange(0, n as int) =~= all);
        }
    }
}

/// Compiles a program's root term to bytecode.
pub fn compile(version: (usize, usize, usize), term: &Term) -> (r: CompiledProgram)
    ensures
        r.bytecode@ == spec_compile(term@),
        crate::constant::constants_view(r.constant_pool@) == spec_pool(term@),
        r.version == version,
{
    let mut c = Compiler { bytecode: Vec::new(), pool: Vec::new(), lambdas: 0, delays: 0 };
    let ghost st = CompileState { at: 0, lambdas: 0, delays: 0, pool: Seq::empty() };
    proof {
        assert(crate::constant::constants_view(c.pool@) =~= Seq::<ConstantV>::empty());
    }
    c.compile_term(term, Ghost(st));
    assert(c.bytecode@ =~= spec_compile(term@));
    CompiledProgram { bytecode: c.bytecode, constant_pool: c.pool, version }
}

} // verus!
