//! What holds of every session: literal text, references, unbound names and doubled
//! delimiters.

use vstd::prelude::*;

use crate::environment::lookup;
use crate::machine::{
    lemma_fault_sticks, lemma_run_append, render, run, Config, Failure, Machine, State,
    SyntaxKind, feed, initial,
};
use crate::text::is_name_char;

verus! {

proof fn lemma_run_one(cfg: Config, m: Machine, c: char)
    ensures
        run(cfg, m, seq![c]) == feed(cfg, m, c),
{
    assert(seq![c].drop_last() =~= Seq::<char>::empty());
    assert(run(cfg, m, Seq::<char>::empty()).machine == m);
}

/// From text output, characters other than the delimiter are copied.
proof fn lemma_run_literal(cfg: Config, m: Machine, s: Seq<char>)
    requires
        m.state == State::TextOutput,
        forall|i: int| 0 <= i < s.len() ==> s[i] != cfg.delimiter,
    ensures
        run(cfg, m, s).fault is None,
        run(cfg, m, s).machine.state == State::TextOutput,
        run(cfg, m, s).machine.out == m.out + s,
        run(cfg, m, s).machine.name == m.name,
    decreases s.len(),
{
    if s.len() == 0 {
        assert(m.out + s =~= m.out);
    } else {
        lemma_run_literal(cfg, m, s.drop_last());
        assert(m.out + s =~= (m.out + s.drop_last()).push(s.last()));
    }
}

/// While a name is read, name characters other than the delimiter are appended to it.
proof fn lemma_run_name(cfg: Config, m: Machine, s: Seq<char>)
    requires
        m.state != State::TextOutput,
        forall|i: int| 0 <= i < s.len() ==> is_name_char(s[i]) && s[i] != cfg.delimiter,
    ensures
        run(cfg, m, s).fault is None,
        run(cfg, m, s).machine.state == m.state,
        run(cfg, m, s).machine.name == m.name + s,
        run(cfg, m, s).machine.out == m.out,
    decreases s.len(),
{
    if s.len() == 0 {
        assert(m.name + s =~= m.name);
    } else {
        lemma_run_name(cfg, m, s.drop_last());
        assert(m.name + s =~= (m.name + s.drop_last()).push(s.last()));
    }
}

/// From text output with no pending name, the run over a delimiter and then `n`, with `{`
/// after the delimiter when `braced`.
proof fn lemma_reference(cfg: Config, m: Machine, n: Seq<char>, braced: bool)
    requires
        m.state == State::TextOutput,
        m.name == Seq::<char>::empty(),
        !is_name_char(cfg.delimiter),
        cfg.delimiter != '{',
        cfg.delimiter != '\n',
        forall|i: int| 0 <= i < n.len() ==> is_name_char(n[i]),
    ensures
        ({
            let head = if braced {
                seq![cfg.delimiter, '{']
            } else {
                seq![cfg.delimiter]
            };
            let o = run(cfg, m, head + n);
            &&& o.fault is None
            &&& o.machine.state == (if braced {
                State::OpenBraces
            } else {
                State::ParsingVariable
            })
            &&& o.machine.name == n
            &&& o.machine.out == m.out
        }),
{
    let d = cfg.delimiter;
    lemma_run_one(cfg, m, d);
    let m1 = run(cfg, m, seq![d]).machine;
    let head = if braced {
        seq![d, '{']
    } else {
        seq![d]
    };
    if braced {
        assert(seq![d, '{'] =~= seq![d] + seq!['{']);
        lemma_run_append(cfg, m, seq![d], seq!['{']);
        lemma_run_one(cfg, m1, '{');
    }
    let m2 = run(cfg, m, head).machine;
    lemma_run_name(cfg, m2, n);
    lemma_run_append(cfg, m, head, n);
    assert(Seq::<char>::empty() + n =~= n);
}

/// Text without the delimiter comes out unchanged, and the session succeeds.
pub proof fn law_literal_text(cfg: Config, s: Seq<char>)
    requires
        forall|i: int| 0 <= i < s.len() ==> s[i] != cfg.delimiter,
    ensures
        render(cfg, s).fault is None,
        render(cfg, s).machine.out == s,
{
    lemma_run_literal(cfg, initial(), s);
    assert(Seq::<char>::empty() + s =~= s);
}

/// Rendering text without the delimiter a second time gives what the first time gave.
pub proof fn law_idempotent(cfg: Config, s: Seq<char>)
    requires
        forall|i: int| 0 <= i < s.len() ==> s[i] != cfg.delimiter,
    ensures
        render(cfg, render(cfg, s).machine.out) == render(cfg, s),
{
    law_literal_text(cfg, s);
}

/// A bound name `n` with value `v` gives `v` written as `$n` at the end of the input, as
/// `${n}`, and gives `v` and a space written as `$n` and a space.
pub proof fn law_bound_reference(cfg: Config, n: Seq<char>, v: Seq<char>)
    requires
        cfg.delimiter == '$',
        forall|i: int| 0 <= i < n.len() ==> is_name_char(n[i]),
        lookup(cfg.env, n) == Some(Ok::<Seq<char>, Seq<char>>(v)),
    ensures
        render(cfg, seq!['$'] + n).fault is None,
        render(cfg, seq!['$'] + n).machine.out == v,
        render(cfg, seq!['$', '{'] + n + seq!['}']).fault is None,
        render(cfg, seq!['$', '{'] + n + seq!['}']).machine.out == v,
        render(cfg, seq!['$'] + n + seq![' ']).fault is None,
        render(cfg, seq!['$'] + n + seq![' ']).machine.out == v + seq![' '],
{
    assert(Seq::<char>::empty() + v =~= v);
    lemma_reference(cfg, initial(), n, false);
    lemma_reference(cfg, initial(), n, true);
    let mu = run(cfg, initial(), seq!['$'] + n).machine;
    let mb = run(cfg, initial(), seq!['$', '{'] + n).machine;
    lemma_run_append(cfg, initial(), seq!['$', '{'] + n, seq!['}']);
    lemma_run_one(cfg, mb, '}');
    lemma_run_append(cfg, initial(), seq!['$'] + n, seq![' ']);
    lemma_run_one(cfg, mu, ' ');
}

/// A braced reference to a bound name `n` with value `v` gives `v` wherever it stands in text
/// without the delimiter.
pub proof fn law_braced_reference_in_text(
    cfg: Config,
    p: Seq<char>,
    n: Seq<char>,
    v: Seq<char>,
    q: Seq<char>,
)
    requires
        cfg.delimiter == '$',
        forall|i: int| 0 <= i < p.len() ==> p[i] != '$',
        forall|i: int| 0 <= i < q.len() ==> q[i] != '$',
        forall|i: int| 0 <= i < n.len() ==> is_name_char(n[i]),
        lookup(cfg.env, n) == Some(Ok::<Seq<char>, Seq<char>>(v)),
    ensures
        render(cfg, p + seq!['$', '{'] + n + seq!['}'] + q).fault is None,
        render(cfg, p + seq!['$', '{'] + n + seq!['}'] + q).machine.out == p + v + q,
{
    let r = seq!['$', '{'] + n;
    lemma_run_literal(cfg, initial(), p);
    let m0 = run(cfg, initial(), p).machine;
    assert(Seq::<char>::empty() + p =~= p);
    lemma_reference(cfg, m0, n, true);
    lemma_run_append(cfg, initial(), p, r);
    assert(p + seq!['$', '{'] + n =~= p + r);
    let m1 = run(cfg, m0, r).machine;
    lemma_run_one(cfg, m1, '}');
    lemma_run_append(cfg, initial(), p + r, seq!['}']);
    let m2 = run(cfg, initial(), p + r + seq!['}']).machine;
    lemma_run_literal(cfg, m2, q);
    lemma_run_append(cfg, initial(), p + r + seq!['}'], q);
    assert(p + seq!['$', '{'] + n + seq!['}'] + q =~= p + r + seq!['}'] + q);
}

/// The braced and the unbraced reference to a bound name give the same text.
pub proof fn law_braced_same_as_unbraced(cfg: Config, n: Seq<char>, v: Seq<char>)
    requires
        cfg.delimiter == '$',
        forall|i: int| 0 <= i < n.len() ==> is_name_char(n[i]),
        lookup(cfg.env, n) == Some(Ok::<Seq<char>, Seq<char>>(v)),
    ensures
        render(cfg, seq!['$'] + n).machine.out == render(
            cfg,
            seq!['$', '{'] + n + seq!['}'],
        ).machine.out,
{
    law_bound_reference(cfg, n, v);
}

/// An unbound name gives the empty string where unbound names are tolerated, and fails as
/// not set where they are not, braced or not.
pub proof fn law_unbound_reference(cfg: Config, n: Seq<char>)
    requires
        cfg.delimiter == '$',
        forall|i: int| 0 <= i < n.len() ==> is_name_char(n[i]),
        lookup(cfg.env, n) == None::<Result<Seq<char>, Seq<char>>>,
    ensures
        !cfg.fail_when_not_found ==> render(cfg, seq!['$'] + n).fault is None && render(
            cfg,
            seq!['$'] + n,
        ).machine.out == Seq::<char>::empty(),
        !cfg.fail_when_not_found ==> render(cfg, seq!['$', '{'] + n + seq!['}']).fault is None
            && render(cfg, seq!['$', '{'] + n + seq!['}']).machine.out == Seq::<char>::empty(),
        cfg.fail_when_not_found ==> render(cfg, seq!['$'] + n).fault == Some(
            Failure::NotSet(n),
        ),
        cfg.fail_when_not_found ==> render(cfg, seq!['$', '{'] + n + seq!['}']).fault == Some(
            Failure::NotSet(n),
        ),
{
    lemma_reference(cfg, initial(), n, false);
    lemma_reference(cfg, initial(), n, true);
    let mb = run(cfg, initial(), seq!['$', '{'] + n).machine;
    lemma_run_append(cfg, initial(), seq!['$', '{'] + n, seq!['}']);
    lemma_run_one(cfg, mb, '}');
}

/// A doubled delimiter reached in text fails as a reference already being read; it does not
/// begin a second reference.
pub proof fn law_doubled_delimiter(cfg: Config, p: Seq<char>, rest: Seq<char>)
    requires
        cfg.delimiter == '$',
        forall|i: int| 0 <= i < p.len() ==> p[i] != cfg.delimiter,
    ensures
        ({
            let s = p + seq![cfg.delimiter, cfg.delimiter] + rest;
            let f = render(cfg, s).fault;
            f is Some && f->Some_0 matches Failure::Syntax(SyntaxKind::AlreadyParsing, _, _)
        }),
{
    let d = cfg.delimiter;
    let s = p + seq![d, d] + rest;
    let k: int = p.len() as int + 2;
    lemma_run_literal(cfg, initial(), p);
    let m0 = run(cfg, initial(), p).machine;
    lemma_run_one(cfg, m0, d);
    assert(seq![d, d] =~= seq![d] + seq![d]);
    lemma_run_append(cfg, m0, seq![d], seq![d]);
    let m1 = run(cfg, m0, seq![d]).machine;
    lemma_run_one(cfg, m1, d);
    lemma_run_append(cfg, initial(), p, seq![d, d]);
    assert(s.subrange(0, k) =~= p + seq![d, d]);
    lemma_fault_sticks(cfg, initial(), s, k);
}

} // verus!
