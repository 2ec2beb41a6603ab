//! The generator's session state: the table of declared function
//! signatures that lowering resolves call names against, and the stack of
//! variable bindings visible in the scope being lowered.
//!
//! The signature table records every prototype declared so far (by an
//! `extern` declaration, a `def`, or a just-lowered function), so that
//! later calls can resolve forward and backward references.  Re-declaring
//! a name with the same parameter count replaces the old entry; a
//! differing parameter count is an error.
//!
//! The binding stack grows as `var`, `for` and parameter bindings enter
//! scope and is cut back to its old depth when the scope ends;
//! [`lemma_scope_restoration`] states that this returns every name,
//! shadowed or not, to the binding it had before.

use vstd::prelude::*;

use crate::ast::{Prototype, PrototypeS};
use crate::error::{Error, ErrorS};

verus! {

/// The ghost value of a prototype table: name and signature pairs in
/// declaration order.
pub open spec fn view_protos(ps: Seq<(Vec<u8>, Prototype)>) -> Seq<(Seq<u8>, PrototypeS)>
    decreases ps,
{
    if ps.len() == 0 {
        Seq::empty()
    } else {
        view_protos(ps.drop_last()).push((ps.last().0@, ps.last().1@))
    }
}

/// Appending an entry extends the ghost table by its view.
pub proof fn lemma_view_protos_push(ps: Seq<(Vec<u8>, Prototype)>, p: (Vec<u8>, Prototype))
    ensures
        view_protos(ps.push(p)) == view_protos(ps).push((p.0@, p.1@)),
{
    assert(ps.push(p).drop_last() =~= ps);
    assert(ps.push(p).last() == p);
}

/// The signature a name resolves to: the last registered entry wins.
pub open spec fn proto_of(ps: Seq<(Seq<u8>, PrototypeS)>, name: Seq<u8>) -> Option<PrototypeS>
    decreases ps,
{
    if ps.len() == 0 {
        None
    } else if ps.last().0 == name {
        Some(ps.last().1)
    } else {
        proto_of(ps.drop_last(), name)
    }
}

/// Appending an entry makes its name resolve to it and leaves every other
/// name as it was.
pub proof fn lemma_proto_of_push(
    ps: Seq<(Seq<u8>, PrototypeS)>,
    p: (Seq<u8>, PrototypeS),
    name: Seq<u8>,
)
    ensures
        proto_of(ps.push(p), name) == if p.0 == name {
            Some(p.1)
        } else {
            proto_of(ps, name)
        },
{
    assert(ps.push(p).drop_last() =~= ps);
    assert(ps.push(p).last() == p);
}

/// Whether two byte strings are equal.
fn bytes_eq(a: &Vec<u8>, b: &Vec<u8>) -> (r: bool)
    ensures
        r == (a@ == b@),
{
    if a.len() != b.len() {
        proof {
            assert(a@ != b@);
        }
        return false;
    }
    let mut i: usize = 0;
    while i < a.len()
        invariant
            i <= a@.len(),
            a@.len() == b@.len(),
            forall|j: int| 0 <= j < i ==> a@[j] == b@[j],
        decreases a@.len() - i,
    {
        if a[i] != b[i] {
            return false;
        }
        i += 1;
    }
    proof {
        assert(a@ =~= b@);
    }
    true
}

/// The storage slot a name is bound to: the last binding wins, so a new
/// binding of the same name shadows the old one.
pub open spec fn val_of(vs: Seq<(Seq<u8>, int)>, name: Seq<u8>) -> Option<int>
    decreases vs,
{
    if vs.len() == 0 {
        None
    } else if vs.last().0 == name {
        Some(vs.last().1)
    } else {
        val_of(vs.drop_last(), name)
    }
}

/// The ghost value of the binding stack.
pub open spec fn view_vals(vs: Seq<(Vec<u8>, usize)>) -> Seq<(Seq<u8>, int)>
    decreases vs,
{
    if vs.len() == 0 {
        Seq::empty()
    } else {
        view_vals(vs.drop_last()).push((vs.last().0@, vs.last().1 as int))
    }
}

/// Appending a binding extends the ghost stack by its view.
pub proof fn lemma_view_vals_push(vs: Seq<(Vec<u8>, usize)>, p: (Vec<u8>, usize))
    ensures
        view_vals(vs.push(p)) == view_vals(vs).push((p.0@, p.1 as int)),
{
    assert(vs.push(p).drop_last() =~= vs);
    assert(vs.push(p).last() == p);
}

/// Appending a binding makes its name resolve to it and leaves every other
/// name as it was.
pub proof fn lemma_val_of_push(vs: Seq<(Seq<u8>, int)>, p: (Seq<u8>, int), name: Seq<u8>)
    ensures
        val_of(vs.push(p), name) == if p.0 == name {
            Some(p.1)
        } else {
            val_of(vs, name)
        },
{
    assert(vs.push(p).drop_last() =~= vs);
    assert(vs.push(p).last() == p);
}

/// Truncating the ghost stack truncates its view.
pub proof fn lemma_view_vals_subrange(vs: Seq<(Vec<u8>, usize)>, n: int)
    requires
        0 <= n <= vs.len(),
    ensures
        view_vals(vs.subrange(0, n)) == view_vals(vs).subrange(0, n),
    decreases vs.len() - n,
{
    lemma_view_vals_len(vs);
    if n == vs.len() {
        assert(vs.subrange(0, n) =~= vs);
        assert(view_vals(vs).subrange(0, n) =~= view_vals(vs));
    } else {
        lemma_view_vals_len(vs.drop_last());
        lemma_view_vals_subrange(vs.drop_last(), n);
        assert(vs.drop_last().subrange(0, n) =~= vs.subrange(0, n));
        assert(view_vals(vs).subrange(0, n) =~= view_vals(vs.drop_last()).subrange(0, n));
    }
}

/// The length of the viewed binding stack.
pub proof fn lemma_view_vals_len(vs: Seq<(Vec<u8>, usize)>)
    ensures
        view_vals(vs).len() == vs.len(),
    decreases vs,
{
    if vs.len() > 0 {
        lemma_view_vals_len(vs.drop_last());
    }
}

/// Scoping restoration law: however many bindings a scope pushed on top of
/// a stack, cutting the stack back to its old depth returns every name to
/// the binding it had before the scope was entered.
pub proof fn lemma_scope_restoration(vs: Seq<(Seq<u8>, int)>, pushed: Seq<(Seq<u8>, int)>)
    ensures
        forall|name: Seq<u8>| val_of((vs + pushed).subrange(0, vs.len() as int), name) == val_of(
            vs,
            name,
        ),
{
    assert((vs + pushed).subrange(0, vs.len() as int) =~= vs);
}

/// The generator's session state.
pub struct Generator {
    function_prototypes: Vec<(Vec<u8>, Prototype)>,
    values: Vec<(Vec<u8>, usize)>,
}

impl Generator {
    /// The declared signatures, in declaration order.
    pub closed spec fn protos(&self) -> Seq<(Seq<u8>, PrototypeS)> {
        view_protos(self.function_prototypes@)
    }

    /// The visible bindings, innermost last.
    pub closed spec fn vals(&self) -> Seq<(Seq<u8>, int)> {
        view_vals(self.values@)
    }

    /// A fresh session with no declared signatures and no bindings.
    pub fn new() -> (g: Generator)
        ensures
            g.protos() == Seq::<(Seq<u8>, PrototypeS)>::empty(),
            g.vals() == Seq::<(Seq<u8>, int)>::empty(),
    {
        let g = Generator { function_prototypes: Vec::new(), values: Vec::new() };
        proof {
            assert(g.protos() =~= Seq::<(Seq<u8>, PrototypeS)>::empty());
            assert(g.vals() =~= Seq::<(Seq<u8>, int)>::empty());
        }
        g
    }

    /// How many bindings are on the stack: the mark to cut back to when the
    /// scope now being entered ends.
    pub fn scope_depth(&self) -> (n: usize)
        ensures
            n == self.vals().len(),
    {
        proof {
            lemma_view_vals_len(self.values@);
        }
        self.values.len()
    }

    /// Binds a name to a storage slot, shadowing any previous binding.
    pub fn bind(&mut self, name: Vec<u8>, slot: usize)
        ensures
            final(self).vals() == old(self).vals().push((name@, slot as int)),
            final(self).protos() == old(self).protos(),
    {
        proof {
            lemma_view_vals_push(self.values@, (name, slot));
        }
        self.values.push((name, slot));
    }

    /// The storage slot a name is bound to, if it is in scope.
    pub fn value_of(&self, name: &Vec<u8>) -> (r: Option<usize>)
        ensures
            match r {
                Some(v) => val_of(self.vals(), name@) == Some(v as int),
                None => val_of(self.vals(), name@) is None,
            },
    {
        let ghost whole = self.values@;
        let mut found: Option<usize> = None;
        let mut i: usize = 0;
        while i < self.values.len()
            invariant
                i <= whole.len(),
                self.values@ == whole,
                match found {
                    Some(v) => val_of(view_vals(whole.subrange(0, i as int)), name@) == Some(
                        v as int,
                    ),
                    None => val_of(view_vals(whole.subrange(0, i as int)), name@) is None,
                },
            decreases whole.len() - i,
        {
            proof {
                assert(whole.subrange(0, i + 1) =~= whole.subrange(0, i as int).push(
                    whole[i as int],
                ));
                lemma_view_vals_push(whole.subrange(0, i as int), whole[i as int]);
                lemma_val_of_push(
                    view_vals(whole.subrange(0, i as int)),
                    (whole[i as int].0@, whole[i as int].1 as int),
                    name@,
                );
            }
            if bytes_eq(&self.values[i].0, name) {
                found = Some(self.values[i].1);
            }
            i += 1;
        }
        proof {
            assert(whole.subrange(0, whole.len() as int) =~= whole);
        }
        found
    }

    /// Leaves a scope: cuts the binding stack back to the depth it had when
    /// the scope was entered, so every name resolves as it did before.
    pub fn restore_to(&mut self, depth: usize)
        requires
            depth <= old(self).vals().len(),
        ensures
            final(self).vals() == old(self).vals().subrange(0, depth as int),
            final(self).protos() == old(self).protos(),
    {
        proof {
            lemma_view_vals_len(self.values@);
            lemma_view_vals_subrange(self.values@, depth as int);
        }
        self.values.truncate(depth);
    }

    /// The parameter count the name resolves to, if it is declared.
    pub fn lookup_arity(&self, name: &Vec<u8>) -> (r: Option<usize>)
        ensures
            match r {
                Some(n) => proto_of(self.protos(), name@) matches Some(p) && p.parameters.len()
                    == n,
                None => proto_of(self.protos(), name@) is None,
            },
    {
        let ghost whole = self.function_prototypes@;
        let mut found: Option<usize> = None;
        let mut i: usize = 0;
        while i < self.function_prototypes.len()
            invariant
                i <= whole.len(),
                self.function_prototypes@ == whole,
                match found {
                    Some(n) => proto_of(view_protos(whole.subrange(0, i as int)), name@) matches Some(
                        p,
                    ) && p.parameters.len() == n,
                    None => proto_of(view_protos(whole.subrange(0, i as int)), name@) is None,
                },
            decreases whole.len() - i,
        {
            let (k, p) = &self.function_prototypes[i];
            proof {
                assert(whole.subrange(0, i + 1) =~= whole.subrange(0, i as int).push(
                    whole[i as int],
                ));
                lemma_view_protos_push(whole.subrange(0, i as int), whole[i as int]);
                lemma_proto_of_push(
                    view_protos(whole.subrange(0, i as int)),
                    (whole[i as int].0@, whole[i as int].1@),
                    name@,
                );
                crate::ast::lemma_view_names_len(whole[i as int].1.parameters@);
            }
            if bytes_eq(k, name) {
                found = Some(p.parameters.len());
            }
            i += 1;
        }
        proof {
            assert(whole.subrange(0, whole.len() as int) =~= whole);
        }
        found
    }

    /// Checks a call against the callee's declared signature: the name
    /// must resolve, and the argument count must equal the signature's
    /// parameter count, neither padded nor truncated.
    pub fn check_call(&self, name: &Vec<u8>, n_args: usize) -> (r: Result<(), Error>)
        ensures
            match r {
                Ok(_) => proto_of(self.protos(), name@) matches Some(p) && p.parameters.len()
                    == n_args,
                Err(e) => match proto_of(self.protos(), name@) {
                    None => e@ == ErrorS::UndefinedFunction(name@),
                    Some(p) => p.parameters.len() != n_args && e@ == ErrorS::WrongArgumentCount,
                },
            },
    {
        match self.lookup_arity(name) {
            None => Err(Error::UndefinedFunction(crate::lexer::clone_bytes(name))),
            Some(n) => if n == n_args {
                Ok(())
            } else {
                Err(Error::WrongArgumentCount)
            },
        }
    }

    /// Declares a signature.  A name never seen, or seen with the same
    /// parameter count, is (re-)registered, the new entry shadowing the
    /// old; a parameter count differing from the declared one is an error
    /// and leaves the table as it was.
    pub fn prototype(&mut self, proto: Prototype) -> (r: Result<(), Error>)
        ensures
            match r {
                Ok(_) => {
                    &&& match proto_of(old(self).protos(), proto@.function_name) {
                        Some(p) => p.parameters.len() == proto@.parameters.len(),
                        None => true,
                    }
                    &&& final(self).protos() == old(self).protos().push(
                        (proto@.function_name, proto@),
                    )
                },
                Err(e) => {
                    &&& e@ == ErrorS::FunctionRedefWithDifferentParams
                    &&& match proto_of(old(self).protos(), proto@.function_name) {
                        Some(p) => p.parameters.len() != proto@.parameters.len(),
                        None => false,
                    }
                    &&& final(self).protos() == old(self).protos()
                },
            },
    {
        match self.lookup_arity(&proto.function_name) {
            Some(n) => {
                proof {
                    crate::ast::lemma_view_names_len(proto.parameters@);
                }
                if n != proto.parameters.len() {
                    return Err(Error::FunctionRedefWithDifferentParams);
                }
            },
            None => {},
        }
        let ghost pre = self.function_prototypes@;
        let name = crate::lexer::clone_bytes(&proto.function_name);
        proof {
            lemma_view_protos_push(pre, (name, proto));
        }
        self.function_prototypes.push((name, proto));
        Ok(())
    }
}

} // verus!
