use vstd::prelude::*;

use crate::command::{Command, CommandModel};
use crate::text::str_eq;

verus! {

/// A variable binding's payload.
pub struct Variable {
    pub value: String,
}

impl Variable {
    /// A copy of the bound text.
    pub fn value(&self) -> (r: String)
        ensures
            r == self.value,
    {
        self.value.clone()
    }
}

impl Clone for Variable {
    fn clone(&self) -> (res: Self)
        ensures
            res == *self,
    {
        Variable { value: self.value.clone() }
    }
}

/// A name bound in the identifier namespace.  An alias stores a command
/// template whose arguments come before any call-site arguments.
pub enum Identifier {
    Alias { substitute: Command },
}

impl View for Identifier {
    type V = CommandModel;

    open spec fn view(&self) -> CommandModel {
        match self {
            Identifier::Alias { substitute } => substitute@,
        }
    }
}

impl Clone for Identifier {
    fn clone(&self) -> (res: Self)
        ensures
            res@ == self@,
    {
        match self {
            Identifier::Alias { substitute } => Identifier::Alias {
                substitute: substitute.clone(),
            },
        }
    }
}

/// Looks a name up in one scope's variable bindings, newest binding first.
pub open spec fn assoc_var(entries: Seq<(String, Variable)>, name: Seq<char>) -> Option<Seq<char>>
    decreases entries.len(),
{
    if entries.len() == 0 {
        None
    } else if entries.last().0@ == name {
        Some(entries.last().1.value@)
    } else {
        assoc_var(entries.drop_last(), name)
    }
}

/// Looks a name up in one scope's identifier bindings, newest binding first.
pub open spec fn assoc_ident(entries: Seq<(String, Identifier)>, name: Seq<char>) -> Option<
    CommandModel,
>
    decreases entries.len(),
{
    if entries.len() == 0 {
        None
    } else if entries.last().0@ == name {
        Some(entries.last().1@)
    } else {
        assoc_ident(entries.drop_last(), name)
    }
}

/// Two independent namespaces — variables and identifiers — each read
/// through to an outer scope on a miss.  Writes always target the innermost
/// scope; lookups never create outer bindings.
pub struct Environment {
    pub variables: Vec<(String, Variable)>,
    pub identifiers: Vec<(String, Identifier)>,
    pub outer: Option<Box<Environment>>,
}

impl Environment {
    /// The text bound to a variable name, searching innermost-first.
    pub open spec fn spec_find_var(self, name: Seq<char>) -> Option<Seq<char>>
        decreases self,
    {
        match assoc_var(self.variables@, name) {
            Some(v) => Some(v),
            None => match self.outer {
                Some(o) => o.spec_find_var(name),
                None => None,
            },
        }
    }

    /// The alias template bound to a name, searching innermost-first.
    pub open spec fn spec_find_ident(self, name: Seq<char>) -> Option<CommandModel>
        decreases self,
    {
        match assoc_ident(self.identifiers@, name) {
            Some(c) => Some(c),
            None => match self.outer {
                Some(o) => o.spec_find_ident(name),
                None => None,
            },
        }
    }

    /// A fresh scope with no bindings of its own whose reads delegate to the
    /// given outer scope.
    pub fn new_empty(outer: Option<Box<Environment>>) -> (env: Environment)
        ensures
            env.variables@ == Seq::<(String, Variable)>::empty(),
            env.identifiers@ == Seq::<(String, Identifier)>::empty(),
            env.outer == outer,
            forall|n: Seq<char>|
                env.spec_find_var(n) == match outer {
                    Some(o) => o.spec_find_var(n),
                    None => None,
                },
            forall|n: Seq<char>|
                env.spec_find_ident(n) == match outer {
                    Some(o) => o.spec_find_ident(n),
                    None => None,
                },
    {
        let env = Environment { variables: Vec::new(), identifiers: Vec::new(), outer };
        env
    }

    /// Binds a variable in this scope, shadowing any outer binding of the
    /// same name and leaving every other lookup unchanged.
    pub fn add_var(&mut self, name: String, value: String)
        ensures
            final(self).spec_find_var(name@) == Some(value@),
            forall|n: Seq<char>|
                n != name@ ==> final(self).spec_find_var(n) == old(self).spec_find_var(n),
            forall|n: Seq<char>| final(self).spec_find_ident(n) == old(self).spec_find_ident(n),
            final(self).outer == old(self).outer,
            final(self).identifiers == old(self).identifiers,
    {
        let ghost gname = name@;
        let ghost gvalue = value@;
        self.variables.push((name, Variable { value }));
        proof {
            assert(self.variables@.drop_last() =~= old(self).variables@);
            assert(self.variables@.last().0@ == gname);
            assert(assoc_var(self.variables@, gname) == Some(gvalue));
            assert forall|n: Seq<char>| n != gname implies #[trigger] self.spec_find_var(n) == old(
                self,
            ).spec_find_var(n) by {
                assert(assoc_var(self.variables@, n) == assoc_var(old(self).variables@, n));
            }
            assert forall|n: Seq<char>| #[trigger]
                self.spec_find_ident(n) == old(self).spec_find_ident(n) by {}
        }
    }

    /// The innermost binding of a variable name, or its nearest outer
    /// binding, or nothing.
    pub fn find_var(&self, name: &String) -> (r: Option<&Variable>)
        ensures
            match r {
                Some(v) => self.spec_find_var(name@) == Some(v.value@),
                None => self.spec_find_var(name@) is None,
            },
        decreases *self,
    {
        let n = self.variables.len();
        let mut idx = n;
        proof {
            assert(self.variables@.take(n as int) =~= self.variables@);
        }
        while idx > 0
            invariant
                idx <= n,
                n == self.variables@.len(),
                assoc_var(self.variables@, name@) == assoc_var(
                    self.variables@.take(idx as int),
                    name@,
                ),
            decreases idx,
        {
            let k = idx - 1;
            if str_eq(self.variables[k].0.as_str(), name.as_str()) {
                proof {
                    assert(self.variables@.take(idx as int).last() == self.variables@[k as int]);
                }
                return Some(&self.variables[k].1);
            }
            proof {
                assert(self.variables@.take(idx as int).last() == self.variables@[k as int]);
                assert(self.variables@.take(idx as int).drop_last() =~= self.variables@.take(
                    k as int,
                ));
            }
            idx = k;
        }
        match &self.outer {
            Some(o) => o.find_var(name),
            None => None,
        }
    }

    /// Binds an identifier in this scope, shadowing any outer binding of the
    /// same name and leaving every other lookup unchanged.
    pub fn add_ident(&mut self, name: String, obj: Identifier)
        ensures
            final(self).spec_find_ident(name@) == Some(obj@),
            forall|n: Seq<char>|
                n != name@ ==> final(self).spec_find_ident(n) == old(self).spec_find_ident(n),
            forall|n: Seq<char>| final(self).spec_find_var(n) == old(self).spec_find_var(n),
            final(self).outer == old(self).outer,
            final(self).variables == old(self).variables,
    {
        let ghost gname = name@;
        let ghost gobj = obj@;
        self.identifiers.push((name, obj));
        proof {
            assert(self.identifiers@.drop_last() =~= old(self).identifiers@);
            assert(self.identifiers@.last().0@ == gname);
            assert(assoc_ident(self.identifiers@, gname) == Some(gobj));
            assert forall|n: Seq<char>| n != gname implies #[trigger] self.spec_find_ident(n)
                == old(self).spec_find_ident(n) by {
                assert(assoc_ident(self.identifiers@, n) == assoc_ident(old(self).identifiers@, n));
            }
            assert forall|n: Seq<char>| #[trigger]
                self.spec_find_var(n) == old(self).spec_find_var(n) by {}
        }
    }

    /// The innermost binding of an identifier name, or its nearest outer
    /// binding, or nothing.
    pub fn find_ident(&self, name: &String) -> (r: Option<&Identifier>)
        ensures
            match r {
                Some(id) => self.spec_find_ident(name@) == Some(id@),
                None => self.spec_find_ident(name@) is None,
            },
        decreases *self,
    {
        let n = self.identifiers.len();
        let mut idx = n;
        proof {
            assert(self.identifiers@.take(n as int) =~= self.identifiers@);
        }
        while idx > 0
            invariant
                idx <= n,
                n == self.identifiers@.len(),
                assoc_ident(self.identifiers@, name@) == assoc_ident(
                    self.identifiers@.take(idx as int),
                    name@,
                ),
            decreases idx,
        {
            let k = idx - 1;
            if str_eq(self.identifiers[k].0.as_str(), name.as_str()) {
                proof {
                    assert(self.identifiers@.take(idx as int).last()
                        == self.identifiers@[k as int]);
                }
                return Some(&self.identifiers[k].1);
            }
            proof {
                assert(self.identifiers@.take(idx as int).last() == self.identifiers@[k as int]);
                assert(self.identifiers@.take(idx as int).drop_last() =~= self.identifiers@.take(
                    k as int,
                ));
            }
            idx = k;
        }
        match &self.outer {
            Some(o) => o.find_ident(name),
            None => None,
        }
    }
}

} // verus!
