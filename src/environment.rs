//! A snapshot of name/value bindings that variable references are resolved against.

use vstd::prelude::*;

use crate::text::chars_of;

verus! {

/// One binding: a name and its value, or, where the value exists but cannot be read as text,
/// the reason it cannot.
pub struct Binding {
    pub name: Vec<char>,
    pub value: Result<Vec<char>, Vec<char>>,
}

impl View for Binding {
    type V = (Seq<char>, Result<Seq<char>, Seq<char>>);

    open spec fn view(&self) -> (Seq<char>, Result<Seq<char>, Seq<char>>) {
        (
            self.name@,
            match self.value {
                Ok(v) => Ok(v@),
                Err(cause) => Err(cause@),
            },
        )
    }
}

/// What a lookup finds: `None` when the name is unbound, `Some(Err(cause))` when it is bound
/// to a value that cannot be read for that cause, `Some(Ok(v))` when it is bound to `v`.
pub open spec fn lookup(bindings: Seq<(Seq<char>, Result<Seq<char>, Seq<char>>)>, name: Seq<char>) -> Option<
    Result<Seq<char>, Seq<char>>,
>
    decreases bindings.len(),
{
    if bindings.len() == 0 {
        None
    } else if bindings.last().0 == name {
        Some(bindings.last().1)
    } else {
        lookup(bindings.drop_last(), name)
    }
}

/// The bindings, the latest binding of a name hiding earlier ones.
pub struct Environment {
    bindings: Vec<Binding>,
}

impl View for Environment {
    type V = Seq<(Seq<char>, Result<Seq<char>, Seq<char>>)>;

    closed spec fn view(&self) -> Seq<(Seq<char>, Result<Seq<char>, Seq<char>>)> {
        self.bindings@.map_values(|b: Binding| b@)
    }
}

fn same_chars(a: &Vec<char>, b: &Vec<char>) -> (r: bool)
    ensures
        r == (a@ == b@),
{
    if a.len() != b.len() {
        return false;
    }
    let mut i: usize = 0;
    while i < a.len()
        invariant
            a@.len() == b@.len(),
            i <= a@.len(),
            forall|k: int| 0 <= k < i ==> a@[k] == b@[k],
        decreases a@.len() - i,
    {
        if a[i] != b[i] {
            return false;
        }
        i = i + 1;
    }
    assert(a@ =~= b@);
    true
}

impl Environment {
    /// An environment with no bindings.
    pub fn new() -> (r: Environment)
        ensures
            r@ == Seq::<(Seq<char>, Result<Seq<char>, Seq<char>>)>::empty(),
    {
        let r = Environment { bindings: Vec::new() };
        assert(r@ =~= Seq::<(Seq<char>, Result<Seq<char>, Seq<char>>)>::empty());
        r
    }

    /// Binds `name` to `value`.
    pub fn set(&mut self, name: &str, value: &str)
        ensures
            final(self)@ == old(self)@.push((name@, Ok::<Seq<char>, Seq<char>>(value@))),
            lookup(final(self)@, name@) == Some(Ok::<Seq<char>, Seq<char>>(value@)),
    {
        let b = Binding { name: chars_of(name), value: Ok(chars_of(value)) };
        self.bindings.push(b);
        assert(self@ =~= old(self)@.push((name@, Ok::<Seq<char>, Seq<char>>(value@))));
    }

    /// Binds `name` to a value that cannot be read as text, for the reason `cause`.
    pub fn set_unreadable(&mut self, name: &str, cause: &str)
        ensures
            final(self)@ == old(self)@.push((name@, Err::<Seq<char>, Seq<char>>(cause@))),
            lookup(final(self)@, name@) == Some(Err::<Seq<char>, Seq<char>>(cause@)),
    {
        let b = Binding { name: chars_of(name), value: Err(chars_of(cause)) };
        self.bindings.push(b);
        assert(self@ =~= old(self)@.push((name@, Err::<Seq<char>, Seq<char>>(cause@))));
    }

    /// Finds the latest binding of `name`.
    pub fn lookup(&self, name: &Vec<char>) -> (r: Option<Result<&Vec<char>, &Vec<char>>>)
        ensures
            match r {
                None => lookup(self@, name@) == None::<Result<Seq<char>, Seq<char>>>,
                Some(Err(cause)) => lookup(self@, name@) == Some(
                    Err::<Seq<char>, Seq<char>>(cause@),
                ),
                Some(Ok(v)) => lookup(self@, name@) == Some(Ok::<Seq<char>, Seq<char>>(v@)),
            },
    {
        let mut i: usize = self.bindings.len();
        assert(self@.subrange(0, i as int) =~= self@);
        while i > 0
            invariant
                i <= self.bindings@.len(),
                lookup(self@, name@) == lookup(self@.subrange(0, i as int), name@),
            decreases i,
        {
            let b = &self.bindings[i - 1];
            proof {
                let s = self@.subrange(0, i as int);
                assert(s.last() == b@);
                assert(s.drop_last() =~= self@.subrange(0, i - 1));
            }
            if same_chars(&b.name, name) {
                return match &b.value {
                    Ok(v) => Some(Ok(v)),
                    Err(cause) => Some(Err(cause)),
                };
            }
            i = i - 1;
        }
        None
    }
}

} // verus!
