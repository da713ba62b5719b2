//! The variable store: one flat, mutable mapping from variable name to
//! runtime value. `define` binds unconditionally, `assign` overwrites an
//! existing binding only, and `get` fails with a line-tagged error when the
//! name is unbound. Its ghost model is a `Map<Seq<char>, ValueV>`.

use crate::ast::{Literal, ValueV};
use crate::interpreter::RuntimeError;
use crate::scanner::Token;
use crate::ErrV;
use vstd::prelude::*;

verus! {

/// The message carried by an access to an unbound variable name.
pub open spec fn undefined_var_msg(name: Seq<char>) -> Seq<char> {
    "Undefined variable "@ + name
}

/// The mapping an association list denotes: later entries would win, though
/// the store keeps names unique.
pub open spec fn assoc_map(s: Seq<(String, Literal)>) -> Map<Seq<char>, ValueV>
    decreases s.len(),
{
    if s.len() == 0 {
        Map::<Seq<char>, ValueV>::empty()
    } else {
        assoc_map(s.drop_last()).insert(s.last().0@, s.last().1@)
    }
}

/// No two entries bind the same name.
pub open spec fn unique_names(s: Seq<(String, Literal)>) -> bool {
    forall|i: int, j: int|
        0 <= i < j < s.len() ==> (#[trigger] s[i]).0@ != (#[trigger] s[j]).0@
}

/// The keys of the denoted map are exactly the entry names.
pub proof fn lemma_assoc_contains(s: Seq<(String, Literal)>, k: Seq<char>)
    ensures
        assoc_map(s).contains_key(k) <==> exists|i: int|
            0 <= i < s.len() && (#[trigger] s[i]).0@ == k,
    decreases s.len(),
{
    if s.len() > 0 {
        lemma_assoc_contains(s.drop_last(), k);
        if s.last().0@ != k && assoc_map(s).contains_key(k) {
            let i = choose|i: int| 0 <= i < s.drop_last().len() && (#[trigger] s.drop_last()[i]).0@ == k;
            assert(s[i].0@ == k);
        }
        if exists|i: int| 0 <= i < s.len() && (#[trigger] s[i]).0@ == k {
            let i = choose|i: int| 0 <= i < s.len() && (#[trigger] s[i]).0@ == k;
            if i < s.len() - 1 {
                assert(s.drop_last()[i].0@ == k);
            }
        }
    }
}

/// With unique names, each entry's value is what the map assigns its name.
pub proof fn lemma_assoc_value(s: Seq<(String, Literal)>, i: int)
    requires
        unique_names(s),
        0 <= i < s.len(),
    ensures
        assoc_map(s).contains_key(s[i].0@),
        assoc_map(s)[s[i].0@] == s[i].1@,
    decreases s.len(),
{
    if i < s.len() - 1 {
        lemma_assoc_value(s.drop_last(), i);
        assert(s.drop_last()[i] == s[i]);
        assert(s.last().0@ != s[i].0@);
    }
}

/// Replacing entry `i` by a pair with the same name updates the map at that
/// name alone.
pub proof fn lemma_assoc_update(s: Seq<(String, Literal)>, i: int, p: (String, Literal))
    requires
        unique_names(s),
        0 <= i < s.len(),
        p.0@ == s[i].0@,
    ensures
        assoc_map(s.update(i, p)) =~= assoc_map(s).insert(p.0@, p.1@),
    decreases s.len(),
{
    if i == s.len() - 1 {
        assert(s.update(i, p).drop_last() =~= s.drop_last());
        assert(s.update(i, p).last() == p);
    } else {
        assert(s.update(i, p).drop_last() =~= s.drop_last().update(i, p));
        assert(s.drop_last()[i] == s[i]);
        lemma_assoc_update(s.drop_last(), i, p);
        assert(s.update(i, p).last() == s.last());
        assert(s.last().0@ != p.0@);
    }
}

/// Appending an entry updates the map at its name alone.
pub proof fn lemma_assoc_push(s: Seq<(String, Literal)>, p: (String, Literal))
    ensures
        assoc_map(s.push(p)) =~= assoc_map(s).insert(p.0@, p.1@),
{
    assert(s.push(p).drop_last() =~= s);
    assert(s.push(p).last() == p);
}

/// The variable store: an association list with unique names.
pub struct Environment {
    pub values: Vec<(String, Literal)>,
}

impl View for Environment {
    type V = Map<Seq<char>, ValueV>;

    open spec fn view(&self) -> Map<Seq<char>, ValueV> {
        assoc_map(self.values@)
    }
}

impl Environment {
    /// The store's internal invariant: no name is bound twice.
    pub open spec fn wf(&self) -> bool {
        unique_names(self.values@)
    }

    /// An empty store.
    pub fn new() -> (r: Environment)
        ensures
            r@ == Map::<Seq<char>, ValueV>::empty(),
            r.wf(),
    {
        Environment { values: Vec::new() }
    }

    /// The position of the entry binding `name`, if any.
    fn index_of(&self, name: &String) -> (r: Option<usize>)
        ensures
            match r {
                Some(i) => i < self.values@.len() && self.values@[i as int].0@ == name@,
                None => forall|i: int|
                    0 <= i < self.values@.len() ==> (#[trigger] self.values@[i]).0@ != name@,
            },
    {
        let mut i: usize = 0;
        let n = self.values.len();
        while i < n
            invariant
                i <= n,
                n == self.values@.len(),
                forall|k: int| 0 <= k < i ==> (#[trigger] self.values@[k]).0@ != name@,
            decreases n - i,
        {
            if self.values[i].0 == *name {
                return Some(i);
            }
            i += 1;
        }
        None
    }

    /// Binds `name` to `value`, inserting or overwriting; never fails.
    pub fn define(&mut self, name: &Token, value: Literal)
        requires
            old(self).wf(),
        ensures
            final(self).wf(),
            final(self)@ == old(self)@.insert(name.lexeme@, value@),
    {
        let entry = (name.lexeme.clone(), value);
        match self.index_of(&name.lexeme) {
            Some(i) => {
                proof {
                    lemma_assoc_update(self.values@, i as int, entry);
                }
                self.values.set(i, entry);
                proof {
                    assert(unique_names(self.values@));
                }
            },
            None => {
                proof {
                    lemma_assoc_push(self.values@, entry);
                }
                self.values.push(entry);
                proof {
                    assert(unique_names(self.values@)) by {
                        assert(forall|k: int|
                            0 <= k < self.values@.len() - 1 ==> (#[trigger] self.values@[k]).0@
                                != name.lexeme@);
                    }
                }
            },
        }
    }

    /// The value bound to `name`, or an undefined-variable error carrying
    /// the name token's line.
    pub fn get(&self, name: &Token) -> (r: Result<Literal, RuntimeError>)
        requires
            self.wf(),
        ensures
            match r {
                Ok(v) => self@.contains_key(name.lexeme@) && v@ == self@[name.lexeme@],
                Err(e) => !self@.contains_key(name.lexeme@) && e@ == (ErrV {
                    line: name.line as nat,
                    message: undefined_var_msg(name.lexeme@),
                }),
            },
    {
        match self.index_of(&name.lexeme) {
            Some(i) => {
                proof {
                    lemma_assoc_value(self.values@, i as int);
                }
                Ok(self.values[i].1.clone())
            },
            None => {
                proof {
                    lemma_assoc_contains(self.values@, name.lexeme@);
                }
                Err(
                    RuntimeError(
                        name.line,
                        String::from_str("Undefined variable ").concat(name.lexeme.as_str()),
                    ),
                )
            },
        }
    }

    /// Overwrites the binding of `name`, which must already exist; an
    /// assignment never implicitly declares.
    pub fn assign(&mut self, name: &Token, value: Literal) -> (r: Result<(), RuntimeError>)
        requires
            old(self).wf(),
        ensures
            final(self).wf(),
            match r {
                Ok(_) => old(self)@.contains_key(name.lexeme@) && final(self)@ == old(self)@.insert(name.lexeme@, value@),
                Err(e) => {
                    &&& !old(self)@.contains_key(name.lexeme@)
                    &&& *final(self) == *old(self)
                    &&& e@ == (ErrV {
                        line: name.line as nat,
                        message: undefined_var_msg(name.lexeme@),
                    })
                },
            },
    {
        let entry = (name.lexeme.clone(), value);
        match self.index_of(&name.lexeme) {
            Some(i) => {
                proof {
                    lemma_assoc_value(self.values@, i as int);
                    lemma_assoc_update(self.values@, i as int, entry);
                }
                self.values.set(i, entry);
                proof {
                    assert(unique_names(self.values@));
                }
                Ok(())
            },
            None => {
                proof {
                    lemma_assoc_contains(self.values@, name.lexeme@);
                }
                Err(
                    RuntimeError(
                        name.line,
                        String::from_str("Undefined variable ").concat(name.lexeme.as_str()),
                    ),
                )
            },
        }
    }
}

} // verus!
