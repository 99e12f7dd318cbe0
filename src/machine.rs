//! The substitution state machine as mathematics: what each character does to the session.

use vstd::prelude::*;

use crate::environment::lookup;
use crate::text::{is_name_char, is_space};

verus! {

/// Where the scan stands.
#[derive(Clone, Copy, Debug, PartialEq, Eq, Structural)]
pub enum State {
    /// Characters are copied to the output.
    TextOutput,
    /// A delimiter was seen and a name is being read.
    ParsingVariable,
    /// A delimiter and an opening brace were seen and a name is being read.
    OpenBraces,
}

/// The malformed references.
#[derive(Clone, Copy, Debug, PartialEq, Eq, Structural)]
pub enum SyntaxKind {
    /// A delimiter while a reference is already being read.
    AlreadyParsing,
    /// An opening brace inside braces.
    DoubleOpenBraces,
    /// A closing brace after a delimiter with no opening brace.
    ClosingWithoutOpening,
    /// Whitespace inside braces.
    BracesNotClosed,
    /// This character, which cannot stand in a name, inside braces.
    ExtraCharacter(char),
    /// The input ended inside braces.
    MissingClosingBrace,
}

/// A failure, as mathematics.
pub enum Failure {
    /// A malformed reference, with the line it was found on and the name read so far.
    Syntax(SyntaxKind, nat, Seq<char>),
    /// An unbound name while unbound names are errors.
    NotSet(Seq<char>),
    /// A name bound to a value that cannot be read as text, and the cause.
    Unreadable(Seq<char>, Seq<char>),
}

/// What the session is configured with.
pub struct Config {
    pub delimiter: char,
    pub fail_when_not_found: bool,
    pub env: Seq<(Seq<char>, Result<Seq<char>, Seq<char>>)>,
}

/// The session: state, pending name, output so far, the number of lines begun, and whether
/// the next character begins a new line.
pub struct Machine {
    pub state: State,
    pub name: Seq<char>,
    pub out: Seq<char>,
    pub line: nat,
    pub fresh: bool,
}

/// A machine and, once something went wrong, the failure that stopped it.
pub struct Outcome {
    pub machine: Machine,
    pub fault: Option<Failure>,
}

pub open spec fn initial() -> Machine {
    Machine { state: State::TextOutput, name: Seq::empty(), out: Seq::empty(), line: 0, fresh: true }
}

pub open spec fn ok(m: Machine) -> Outcome {
    Outcome { machine: m, fault: None }
}

pub open spec fn stop(m: Machine, f: Failure) -> Outcome {
    Outcome { machine: m, fault: Some(f) }
}

pub open spec fn syntax(m: Machine, k: SyntaxKind) -> Outcome {
    stop(m, Failure::Syntax(k, m.line, m.name))
}

pub open spec fn emit(m: Machine, c: char) -> Machine {
    Machine { out: m.out.push(c), ..m }
}

pub open spec fn with_state(m: Machine, s: State) -> Machine {
    Machine { state: s, ..m }
}

pub open spec fn extend_name(m: Machine, c: char) -> Machine {
    Machine { name: m.name.push(c), ..m }
}

/// The machine back in text output with no pending name.
pub open spec fn cleared(m: Machine) -> Machine {
    Machine { state: State::TextOutput, name: Seq::empty(), ..m }
}

/// The pending name is resolved: its value, or nothing where an unbound name is tolerated,
/// is appended to the output. Whatever the outcome, the scan returns to text with an empty
/// name; a failure names the variable.
pub open spec fn resolve(cfg: Config, m: Machine) -> Outcome {
    match lookup(cfg.env, m.name) {
        Some(Ok(v)) => ok(Machine { out: m.out + v, ..cleared(m) }),
        Some(Err(cause)) => stop(cleared(m), Failure::Unreadable(m.name, cause)),
        None => if cfg.fail_when_not_found {
            stop(cleared(m), Failure::NotSet(m.name))
        } else {
            ok(cleared(m))
        },
    }
}

/// One character, on the current line.
pub open spec fn step(cfg: Config, m: Machine, c: char) -> Outcome {
    if c == cfg.delimiter {
        match m.state {
            State::TextOutput => ok(with_state(m, State::ParsingVariable)),
            State::ParsingVariable => syntax(m, SyntaxKind::AlreadyParsing),
            State::OpenBraces => syntax(m, SyntaxKind::ExtraCharacter(c)),
        }
    } else if c == '{' {
        match m.state {
            State::TextOutput => ok(emit(m, c)),
            State::ParsingVariable => ok(with_state(m, State::OpenBraces)),
            State::OpenBraces => syntax(m, SyntaxKind::DoubleOpenBraces),
        }
    } else if c == '}' {
        match m.state {
            State::TextOutput => ok(emit(m, c)),
            State::ParsingVariable => syntax(m, SyntaxKind::ClosingWithoutOpening),
            State::OpenBraces => resolve(cfg, m),
        }
    } else {
        match m.state {
            State::TextOutput => ok(emit(m, c)),
            State::ParsingVariable => if is_name_char(c) {
                ok(extend_name(m, c))
            } else {
                let o = resolve(cfg, m);
                if o.fault is Some {
                    o
                } else {
                    ok(emit(o.machine, c))
                }
            },
            State::OpenBraces => if is_space(c) {
                syntax(m, SyntaxKind::BracesNotClosed)
            } else if is_name_char(c) {
                ok(extend_name(m, c))
            } else {
                syntax(m, SyntaxKind::ExtraCharacter(c))
            },
        }
    }
}

/// At the end of a line an unbraced reference is resolved.
pub open spec fn end_of_line(cfg: Config, m: Machine) -> Outcome {
    if m.state == State::ParsingVariable {
        resolve(cfg, m)
    } else {
        ok(m)
    }
}

/// The line counter, which stops at the largest `usize`.
pub open spec fn next_line(line: nat) -> nat {
    if line < usize::MAX {
        line + 1
    } else {
        line
    }
}

/// One character of the input: it may begin a line, and a line feed ends one.
pub open spec fn feed(cfg: Config, m: Machine, c: char) -> Outcome {
    let m1 = if m.fresh {
        Machine { line: next_line(m.line), fresh: false, ..m }
    } else {
        m
    };
    let o = step(cfg, m1, c);
    if o.fault is Some || c != '\n' {
        o
    } else {
        end_of_line(cfg, Machine { fresh: true, ..o.machine })
    }
}

/// The characters of `s` in turn, up to the first failure.
pub open spec fn run(cfg: Config, m: Machine, s: Seq<char>) -> Outcome
    decreases s.len(),
{
    if s.len() == 0 {
        ok(m)
    } else {
        let o = run(cfg, m, s.drop_last());
        if o.fault is Some {
            o
        } else {
            feed(cfg, o.machine, s.last())
        }
    }
}

/// The end of the input: a pending unbraced reference is resolved, and open braces fail.
pub open spec fn finish(cfg: Config, m: Machine) -> Outcome {
    let o = end_of_line(cfg, m);
    if o.fault is Some || o.machine.state == State::TextOutput {
        o
    } else {
        syntax(o.machine, SyntaxKind::MissingClosingBrace)
    }
}

/// A whole input, from machine `m`.
pub open spec fn session(cfg: Config, m: Machine, s: Seq<char>) -> Outcome {
    let o = run(cfg, m, s);
    if o.fault is Some {
        o
    } else {
        finish(cfg, o.machine)
    }
}

/// A whole input, from the start.
pub open spec fn render(cfg: Config, s: Seq<char>) -> Outcome {
    session(cfg, initial(), s)
}

/// Once the run over a prefix has failed, the rest of the input changes nothing.
pub proof fn lemma_fault_sticks(cfg: Config, m: Machine, s: Seq<char>, k: int)
    requires
        0 <= k <= s.len(),
        run(cfg, m, s.subrange(0, k)).fault is Some,
    ensures
        run(cfg, m, s) == run(cfg, m, s.subrange(0, k)),
    decreases s.len(),
{
    if k < s.len() {
        assert(s.drop_last().subrange(0, k) =~= s.subrange(0, k));
        lemma_fault_sticks(cfg, m, s.drop_last(), k);
    } else {
        assert(s.subrange(0, k) =~= s);
    }
}

/// Running over `a + b` is running over `b` from where the run over `a` left off.
pub proof fn lemma_run_append(cfg: Config, m: Machine, a: Seq<char>, b: Seq<char>)
    requires
        run(cfg, m, a).fault is None,
    ensures
        run(cfg, m, a + b) == run(cfg, run(cfg, m, a).machine, b),
    decreases b.len(),
{
    if b.len() == 0 {
        assert(a + b =~= a);
    } else {
        assert((a + b).drop_last() =~= a + b.drop_last());
        lemma_run_append(cfg, m, a, b.drop_last());
    }
}

} // verus!
