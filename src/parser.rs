//! The substitution engine: a parser that consumes text and fills an output buffer.

use vstd::prelude::*;

use crate::environment::Environment;
use crate::machine::{
    emit, end_of_line, feed, finish, initial, ok, resolve, run, session, step, syntax, lemma_fault_sticks,
    Config, Failure, Machine, Outcome, State, SyntaxKind,
};
use crate::text::{chars_of, decimal_of, default_delimiter, name_char, push_decimal, space, string_of};

verus! {

/// A failed session.
pub enum ParseError {
    /// A malformed reference, with the line it was found on and the name read so far.
    Syntax { kind: SyntaxKind, line: usize, name: String },
    /// An unbound name while unbound names are errors.
    NotSet { name: String },
    /// A name bound to a value that cannot be read as text, and the cause.
    Unreadable { name: String, cause: String },
}

impl View for ParseError {
    type V = Failure;

    open spec fn view(&self) -> Failure {
        match self {
            ParseError::Syntax { kind, line, name } => Failure::Syntax(*kind, *line as nat, name@),
            ParseError::NotSet { name } => Failure::NotSet(name@),
            ParseError::Unreadable { name, cause } => Failure::Unreadable(name@, cause@),
        }
    }
}

/// The text of a failure's message.
pub open spec fn message_of(f: Failure) -> Seq<char> {
    match f {
        Failure::Syntax(SyntaxKind::AlreadyParsing, _, _) => "Variable is already being parsed"@,
        Failure::Syntax(SyntaxKind::DoubleOpenBraces, _, _) => "Double open braces"@,
        Failure::Syntax(SyntaxKind::ClosingWithoutOpening, _, _) => "Closing braces without opening"@,
        Failure::Syntax(SyntaxKind::BracesNotClosed, _, _) => "Braces not closed"@,
        Failure::Syntax(SyntaxKind::ExtraCharacter(c), _, name) => "Failed to parse variable "@ + name
            + " with extra character '"@ + seq![c] + "'"@,
        Failure::Syntax(SyntaxKind::MissingClosingBrace, line, name) =>
            "Failed to parse a variable on line "@ + decimal_of(line) + " missing a '}' after '"@
            + name + "'"@,
        Failure::NotSet(name) => "The variable "@ + name + " is not set"@,
        Failure::Unreadable(name, cause) => "failed to read contents of variable "@ + name + ": "@
            + cause,
    }
}

fn push_str(out: &mut Vec<char>, s: &str)
    ensures
        final(out)@ == old(out)@ + s@,
{
    let v = chars_of(s);
    append(out, &v);
}

impl ParseError {
    /// A sentence that says what went wrong.
    pub fn message(&self) -> (r: String)
        ensures
            r@ == message_of(self@),
    {
        let mut m: Vec<char> = Vec::new();
        match self {
            ParseError::Syntax { kind, line, name } => match kind {
                SyntaxKind::AlreadyParsing => push_str(&mut m, "Variable is already being parsed"),
                SyntaxKind::DoubleOpenBraces => push_str(&mut m, "Double open braces"),
                SyntaxKind::ClosingWithoutOpening => push_str(&mut m, "Closing braces without opening"),
                SyntaxKind::BracesNotClosed => push_str(&mut m, "Braces not closed"),
                SyntaxKind::ExtraCharacter(c) => {
                    push_str(&mut m, "Failed to parse variable ");
                    push_str(&mut m, name.as_str());
                    push_str(&mut m, " with extra character '");
                    m.push(*c);
                    push_str(&mut m, "'");
                },
                SyntaxKind::MissingClosingBrace => {
                    push_str(&mut m, "Failed to parse a variable on line ");
                    push_decimal(*line, &mut m);
                    push_str(&mut m, " missing a '}' after '");
                    push_str(&mut m, name.as_str());
                    push_str(&mut m, "'");
                },
            },
            ParseError::NotSet { name } => {
                push_str(&mut m, "The variable ");
                push_str(&mut m, name.as_str());
                push_str(&mut m, " is not set");
            },
            ParseError::Unreadable { name, cause } => {
                push_str(&mut m, "failed to read contents of variable ");
                push_str(&mut m, name.as_str());
                push_str(&mut m, ": ");
                push_str(&mut m, cause.as_str());
            },
        }
        proof {
            assert(m@ =~= message_of(self@));
        }
        string_of(&m)
    }
}

/// The exec result `r`, with machine `m` after the call, is the outcome `o`.
pub open spec fn agrees(m: Machine, r: Result<(), ParseError>, o: Outcome) -> bool {
    &&& m == o.machine
    &&& match r {
        Ok(_) => o.fault is None,
        Err(e) => o.fault == Some(e@),
    }
}

/// A substitution session over one input.
pub struct Parser {
    environment: Environment,
    fail_when_not_found: bool,
    delimiter: char,
    current_variable_name: Vec<char>,
    state: State,
    output: Vec<char>,
    line: usize,
    fresh: bool,
}

fn append(out: &mut Vec<char>, v: &Vec<char>)
    ensures
        final(out)@ == old(out)@ + v@,
{
    let mut i: usize = 0;
    while i < v.len()
        invariant
            i <= v@.len(),
            out@ == old(out)@ + v@.subrange(0, i as int),
        decreases v@.len() - i,
    {
        out.push(v[i]);
        i = i + 1;
        assert(v@.subrange(0, i as int) =~= v@.subrange(0, i - 1).push(v@[i - 1]));
    }
    assert(v@.subrange(0, i as int) =~= v@);
}

impl Parser {
    /// The configuration, as mathematics.
    pub closed spec fn config(&self) -> Config {
        Config {
            delimiter: self.delimiter,
            fail_when_not_found: self.fail_when_not_found,
            env: self.environment@,
        }
    }

    /// The session so far, as mathematics.
    pub closed spec fn machine(&self) -> Machine {
        Machine {
            state: self.state,
            name: self.current_variable_name@,
            out: self.output@,
            line: self.line as nat,
            fresh: self.fresh,
        }
    }

    /// A session that resolves names in `environment`; with `fail_when_not_found` an unbound
    /// name is an error, otherwise it stands for the empty string. References begin with
    /// `delimiter`, `$` where none is given.
    pub fn new(environment: Environment, fail_when_not_found: bool, delimiter: Option<char>) -> (r:
        Parser)
        ensures
            r.machine() == initial(),
            r.config() == (Config {
                delimiter: match delimiter {
                    Some(d) => d,
                    None => '$',
                },
                fail_when_not_found,
                env: environment@,
            }),
    {
        let delimiter = match delimiter {
            Some(d) => d,
            None => default_delimiter(),
        };
        let r = Parser {
            environment,
            fail_when_not_found,
            delimiter,
            current_variable_name: Vec::new(),
            state: State::TextOutput,
            output: Vec::new(),
            line: 0,
            fresh: true,
        };
        assert(r.machine().name =~= Seq::<char>::empty());
        assert(r.machine().out =~= Seq::<char>::empty());
        r
    }

    fn reset_state(&mut self)
        ensures
            final(self).config() == old(self).config(),
            final(self).machine() == (Machine {
                state: State::TextOutput,
                name: Seq::empty(),
                ..old(self).machine()
            }),
    {
        self.state = State::TextOutput;
        self.current_variable_name.clear();
    }

    fn write_char(&mut self, c: char)
        ensures
            final(self).config() == old(self).config(),
            final(self).machine() == emit(old(self).machine(), c),
    {
        self.output.push(c);
    }

    fn syntax_error(&self, kind: SyntaxKind) -> (r: Result<(), ParseError>)
        ensures
            agrees(self.machine(), r, syntax(self.machine(), kind)),
    {
        Err(ParseError::Syntax { kind, line: self.line, name: string_of(&self.current_variable_name) })
    }

    fn write_variable(&mut self) -> (r: Result<(), ParseError>)
        ensures
            final(self).config() == old(self).config(),
            agrees(final(self).machine(), r, resolve(old(self).config(), old(self).machine())),
    {
        let r = match self.environment.lookup(&self.current_variable_name) {
            Some(Ok(v)) => {
                append(&mut self.output, v);
                Ok(())
            },
            Some(Err(cause)) => Err(
                ParseError::Unreadable {
                    name: string_of(&self.current_variable_name),
                    cause: string_of(cause),
                },
            ),
            None => {
                if self.fail_when_not_found {
                    Err(ParseError::NotSet { name: string_of(&self.current_variable_name) })
                } else {
                    Ok(())
                }
            },
        };
        self.reset_state();
        r
    }

    fn parse_char(&mut self, c: char) -> (r: Result<(), ParseError>)
        ensures
            final(self).config() == old(self).config(),
            agrees(final(self).machine(), r, step(old(self).config(), old(self).machine(), c)),
    {
        if c == self.delimiter {
            match self.state {
                State::TextOutput => {
                    self.state = State::ParsingVariable;
                    Ok(())
                },
                State::ParsingVariable => self.syntax_error(SyntaxKind::AlreadyParsing),
                State::OpenBraces => self.syntax_error(SyntaxKind::ExtraCharacter(c)),
            }
        } else if c == '{' {
            match self.state {
                State::TextOutput => {
                    self.write_char(c);
                    Ok(())
                },
                State::ParsingVariable => {
                    self.state = State::OpenBraces;
                    Ok(())
                },
                State::OpenBraces => self.syntax_error(SyntaxKind::DoubleOpenBraces),
            }
        } else if c == '}' {
            match self.state {
                State::TextOutput => {
                    self.write_char(c);
                    Ok(())
                },
                State::ParsingVariable => self.syntax_error(SyntaxKind::ClosingWithoutOpening),
                State::OpenBraces => self.write_variable(),
            }
        } else {
            match self.state {
                State::TextOutput => {
                    self.write_char(c);
                    Ok(())
                },
                State::ParsingVariable => {
                    if name_char(c) {
                        self.current_variable_name.push(c);
                        Ok(())
                    } else {
                        let r = self.write_variable();
                        if r.is_err() {
                            return r;
                        }
                        self.write_char(c);
                        Ok(())
                    }
                },
                State::OpenBraces => {
                    if space(c) {
                        self.syntax_error(SyntaxKind::BracesNotClosed)
                    } else if name_char(c) {
                        self.current_variable_name.push(c);
                        Ok(())
                    } else {
                        self.syntax_error(SyntaxKind::ExtraCharacter(c))
                    }
                },
            }
        }
    }

    fn end_line(&mut self) -> (r: Result<(), ParseError>)
        ensures
            final(self).config() == old(self).config(),
            agrees(final(self).machine(), r, end_of_line(old(self).config(), old(self).machine())),
    {
        if self.state == State::ParsingVariable {
            self.write_variable()
        } else {
            Ok(())
        }
    }

    fn feed_char(&mut self, c: char) -> (r: Result<(), ParseError>)
        ensures
            final(self).config() == old(self).config(),
            agrees(final(self).machine(), r, feed(old(self).config(), old(self).machine(), c)),
    {
        if self.fresh {
            if self.line < usize::MAX {
                self.line = self.line + 1;
            }
            self.fresh = false;
        }
        let r = self.parse_char(c);
        if r.is_err() || c != '\n' {
            return r;
        }
        self.fresh = true;
        self.end_line()
    }

    /// Scans `text` as the continuation of the input. The characters after the first failure
    /// are not scanned.
    pub fn feed(&mut self, text: &str) -> (r: Result<(), ParseError>)
        ensures
            final(self).config() == old(self).config(),
            agrees(final(self).machine(), r, run(old(self).config(), old(self).machine(), text@)),
    {
        let chars = chars_of(text);
        let mut i: usize = 0;
        assert(chars@.subrange(0, 0) =~= Seq::<char>::empty());
        while i < chars.len()
            invariant
                i <= chars@.len(),
                chars@ == text@,
                self.config() == old(self).config(),
                run(old(self).config(), old(self).machine(), chars@.subrange(0, i as int)) == ok(
                    self.machine(),
                ),
            decreases chars@.len() - i,
        {
            let r = self.feed_char(chars[i]);
            proof {
                let s = chars@.subrange(0, i + 1);
                assert(s.drop_last() =~= chars@.subrange(0, i as int));
                assert(s.last() == chars@[i as int]);
            }
            if r.is_err() {
                proof {
                    lemma_fault_sticks(old(self).config(), old(self).machine(), chars@, i + 1);
                }
                return r;
            }
            i = i + 1;
        }
        assert(chars@.subrange(0, i as int) =~= chars@);
        Ok(())
    }

    /// Ends the input: a pending unbraced reference is resolved, and open braces are an error.
    pub fn finish(&mut self) -> (r: Result<(), ParseError>)
        ensures
            final(self).config() == old(self).config(),
            agrees(final(self).machine(), r, finish(old(self).config(), old(self).machine())),
    {
        let r = self.end_line();
        if r.is_err() {
            return r;
        }
        if self.state != State::TextOutput {
            return self.syntax_error(SyntaxKind::MissingClosingBrace);
        }
        Ok(())
    }

    /// Scans the whole of `input` and ends it. On failure the output holds what was written
    /// before it.
    pub fn process(&mut self, input: &str) -> (r: Result<(), ParseError>)
        ensures
            final(self).config() == old(self).config(),
            agrees(final(self).machine(), r, session(old(self).config(), old(self).machine(), input@)),
    {
        let r = self.feed(input);
        if r.is_err() {
            return r;
        }
        self.finish()
    }

    /// The output written so far and not yet taken.
    pub fn output(&self) -> (r: String)
        ensures
            r@ == self.machine().out,
    {
        string_of(&self.output)
    }

    /// Hands out the output written so far and empties the buffer.
    pub fn take_output(&mut self) -> (r: String)
        ensures
            r@ == old(self).machine().out,
            final(self).config() == old(self).config(),
            final(self).machine() == (Machine { out: Seq::empty(), ..old(self).machine() }),
    {
        let r = string_of(&self.output);
        self.output.clear();
        r
    }
}

} // verus!
