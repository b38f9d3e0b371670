//! Ownership of LLVM objects: every value, type and builder handed to Python
//! is owned by a context, or by a module inside a context. Objects may only be
//! combined when their owners agree.

use vstd::prelude::*;

verus! {

/// The owner of an LLVM object, by identity: a context, or a module together
/// with the context that the module lives in.
#[derive(Clone, Copy, Debug, PartialEq, Eq, Structural)]
pub enum Owner {
    Context(u64),
    Module { module: u64, context: u64 },
}

/// Why owners could not be merged.
#[derive(Clone, Copy, Debug, PartialEq, Eq, Structural)]
pub enum OwnerError {
    /// Some values are from different contexts or modules.
    Mismatch,
}

impl OwnerError {
    /// The message shown to Python callers.
    pub fn message(&self) -> (r: &'static str)
        ensures
            r@ == "Some values are from different contexts or modules."@,
    {
        "Some values are from different contexts or modules."
    }
}

/// The context of an owner.
pub open spec fn owner_context(o: Owner) -> u64 {
    match o {
        Owner::Context(c) => c,
        Owner::Module { module: _, context } => context,
    }
}

/// One step of merging: the owner merged so far (if any) with the next one.
pub open spec fn merge_step(acc: Option<Owner>, o: Owner) -> Option<Owner> {
    match acc {
        None => Some(o),
        Some(Owner::Context(c1)) => match o {
            Owner::Context(c2) => if c1 == c2 { Some(Owner::Context(c1)) } else { None },
            Owner::Module { module, context } => if c1 == context { Some(o) } else { None },
        },
        Some(Owner::Module { module: m1, context: c1 }) => match o {
            Owner::Context(c2) => if c1 == c2 { acc } else { None },
            Owner::Module { module: m2, context: _ } => if m1 == m2 { acc } else { None },
        },
    }
}

/// Merges a sequence of owners from left to right; `Ok(None)` for the empty
/// sequence and `Err` as soon as two owners disagree.
pub open spec fn merge_all(s: Seq<Owner>) -> Result<Option<Owner>, OwnerError>
    decreases s.len(),
{
    if s.len() == 0 {
        Ok(None)
    } else {
        match merge_all(s.drop_last()) {
            Ok(acc) => match merge_step(acc, s.last()) {
                Some(o) => Ok(Some(o)),
                None => Err(OwnerError::Mismatch),
            },
            Err(e) => Err(e),
        }
    }
}

/// Every module in the sequence has one context: two module owners with the
/// same module name the same context.
pub open spec fn modules_consistent(s: Seq<Owner>) -> bool {
    forall|i: int, j: int|
        0 <= i < s.len() && 0 <= j < s.len() && (s[i] is Module) && (s[j] is Module) && s[i]->module
            == s[j]->module ==> #[trigger] owner_context(s[i]) == #[trigger] owner_context(s[j])
}

/// All owners share one context and all module owners are the same module.
pub open spec fn compatible(s: Seq<Owner>) -> bool {
    &&& forall|i: int, j: int|
        0 <= i < s.len() && 0 <= j < s.len() ==> #[trigger] owner_context(s[i]) == #[trigger] owner_context(s[j])
    &&& forall|i: int, j: int|
        0 <= i < s.len() && 0 <= j < s.len() && (#[trigger] s[i] is Module) && (#[trigger] s[j] is Module) ==> s[i]->module
            == s[j]->module
}

/// Some owner in the sequence is a module.
pub open spec fn has_module(s: Seq<Owner>) -> bool {
    exists|i: int| 0 <= i < s.len() && (#[trigger] s[i] is Module)
}

impl Owner {
    /// The context that this owner belongs to.
    pub fn context(&self) -> (r: u64)
        ensures
            r == owner_context(*self),
    {
        match self {
            Owner::Context(c) => *c,
            Owner::Module { module: _, context } => *context,
        }
    }

    /// Merges owners into one that lives at least as long as each of them:
    /// the module if a module is among them, else the context. Fails when the
    /// owners use more than one context or more than one module.
    pub fn merge(owners: &Vec<Owner>) -> (r: Result<Owner, OwnerError>)
        requires
            owners.len() > 0,
        ensures
            match merge_all(owners@) {
                Ok(Some(o)) => r == Ok::<Owner, OwnerError>(o),
                Ok(None) => false,
                Err(e) => r == Err::<Owner, OwnerError>(e),
            },
    {
        let mut acc: Option<Owner> = None;
        let mut i: usize = 0;
        while i < owners.len()
            invariant
                0 <= i <= owners.len(),
                merge_all(owners@.take(i as int)) == Ok::<Option<Owner>, OwnerError>(acc),
                i > 0 ==> acc is Some,
            decreases owners.len() - i,
        {
            let o = owners[i];
            let next = match acc {
                None => Some(o),
                Some(Owner::Context(c1)) => match o {
                    Owner::Context(c2) => if c1 == c2 { Some(Owner::Context(c1)) } else { None },
                    Owner::Module { module: _, context } => if c1 == context { Some(o) } else { None },
                },
                Some(Owner::Module { module: m1, context: c1 }) => match o {
                    Owner::Context(c2) => if c1 == c2 { acc } else { None },
                    Owner::Module { module: m2, context: _ } => if m1 == m2 { acc } else { None },
                },
            };
            assert(owners@.take(i + 1).drop_last() == owners@.take(i as int));
            match next {
                Some(n) => {
                    acc = Some(n);
                },
                None => {
                    proof {
                        lemma_merge_error_persists(owners@, i as int + 1);
                    }
                    return Err(OwnerError::Mismatch);
                },
            }
            i = i + 1;
        }
        assert(owners@.take(owners.len() as int) == owners@);
        match acc {
            Some(o) => Ok(o),
            None => Ok(owners[0]),
        }
    }
}

/// Once merging a prefix fails, merging any longer prefix fails the same way.
proof fn lemma_merge_error_persists(s: Seq<Owner>, k: int)
    requires
        0 <= k <= s.len(),
        merge_all(s.take(k)) is Err,
    ensures
        merge_all(s) is Err,
    decreases s.len() - k,
{
    if k < s.len() {
        assert(s.take(k + 1).drop_last() == s.take(k));
        lemma_merge_error_persists(s, k + 1);
    } else {
        assert(s.take(k) == s);
    }
}

/// Merging a nonempty sequence of owners gives an owner when it succeeds,
/// and that owner lives in the context of the first owner merged.
pub proof fn lemma_merge_keeps_context(s: Seq<Owner>)
    requires
        s.len() > 0,
    ensures
        merge_all(s) is Ok ==> merge_all(s)->Ok_0 is Some,
        merge_all(s) matches Ok(Some(o)) ==> owner_context(o) == owner_context(s[0]),
    decreases s.len(),
{
    if s.len() == 1 {
        assert(s.drop_last() =~= Seq::<Owner>::empty());
    } else {
        lemma_merge_keeps_context(s.drop_last());
        assert(s.drop_last()[0] == s[0]);
    }
}

/// For any owners at all: when they share one context and name at most one
/// module, merging succeeds, with that module, or the shared context when no
/// module is among them.
pub proof fn lemma_merge_compatible(s: Seq<Owner>)
    requires
        s.len() > 0,
        compatible(s),
    ensures
        merge_all(s) matches Ok(Some(o)) && (has_module(s) ==> forall|i: int|
            0 <= i < s.len() && (#[trigger] s[i] is Module) ==> o == s[i]) && (!has_module(s) ==> o == s[0]),
{
    assert(modules_consistent(s));
    lemma_merge_characterization(s);
}

/// Merging succeeds exactly when all owners share one context and at most one
/// module is among them; the merged owner is then that module, or the shared
/// context when no module is among them.
pub proof fn lemma_merge_characterization(s: Seq<Owner>)
    requires
        s.len() > 0,
        modules_consistent(s),
    ensures
        merge_all(s) is Ok <==> compatible(s),
        compatible(s) ==> (merge_all(s) matches Ok(Some(o)) && (has_module(s) ==> forall|i: int|
            0 <= i < s.len() && (#[trigger] s[i] is Module) ==> o == s[i]) && (!has_module(s) ==> o
            == s[0])),
    decreases s.len(),
{
    if s.len() == 1 {
        assert(s.drop_last().len() == 0);
        assert(s.last() == s[0]);
        assert(merge_all(s.drop_last()) == Ok::<Option<Owner>, OwnerError>(None));
        assert(merge_all(s) == Ok::<Option<Owner>, OwnerError>(Some(s[0])));
        assert forall|i: int, j: int| 0 <= i < s.len() && 0 <= j < s.len() implies #[trigger] owner_context(s[i])
            == #[trigger] owner_context(s[j]) by {
            assert(i == 0 && j == 0);
        }
        assert forall|i: int, j: int|
            0 <= i < s.len() && 0 <= j < s.len() && (#[trigger] s[i] is Module) && (#[trigger] s[j] is Module) implies s[i]->module
            == s[j]->module by {
            assert(i == 0 && j == 0);
        }
    } else {
        let p = s.drop_last();
        let x = s.last();
        let n = p.len() as int;
        assert(s[n] == x);
        assert forall|i: int| 0 <= i < n implies #[trigger] p[i] == s[i] by {}
        assert(modules_consistent(p)) by {
            assert forall|i: int, j: int|
                0 <= i < p.len() && 0 <= j < p.len() && (p[i] is Module) && (p[j] is Module) && p[i]->module
                    == p[j]->module implies #[trigger] owner_context(p[i]) == #[trigger] owner_context(p[j]) by {
                assert(p[i] == s[i] && p[j] == s[j]);
            }
        }
        lemma_merge_characterization(p);
        if compatible(s) {
            assert(compatible(p)) by {
                assert forall|i: int, j: int| 0 <= i < p.len() && 0 <= j < p.len() implies #[trigger] owner_context(p[i])
                    == #[trigger] owner_context(p[j]) by {
                    assert(p[i] == s[i] && p[j] == s[j]);
                    assert(owner_context(s[i]) == owner_context(s[j]));
                }
                assert forall|i: int, j: int|
                    0 <= i < p.len() && 0 <= j < p.len() && (#[trigger] p[i] is Module) && (#[trigger] p[j] is Module) implies p[i]->module
                    == p[j]->module by {
                    assert(p[i] == s[i] && p[j] == s[j]);
                    assert(s[i] is Module && s[j] is Module);
                }
            }
            let a = merge_all(p)->Ok_0->Some_0;
            assert(owner_context(s[0]) == owner_context(x));
            assert(owner_context(a) == owner_context(p[0])) by {
                if has_module(p) {
                    let k = choose|k: int| 0 <= k < p.len() && (#[trigger] p[k] is Module);
                    assert(a == p[k]);
                    assert(p[k] == s[k] && p[0] == s[0]);
                    assert(owner_context(s[k]) == owner_context(s[0]));
                }
            }
            assert(p[0] == s[0]);
            if x is Module {
                assert(s[n] is Module);
                if a is Module {
                    let k = choose|k: int| 0 <= k < p.len() && (#[trigger] p[k] is Module);
                    assert(p[k] == s[k]);
                    assert(s[k] is Module);
                    assert(s[k]->module == s[n]->module);
                } else {
                    assert(!has_module(p));
                }
            }
            let o = merge_step(Some(a), x)->Some_0;
            assert(merge_all(s) == Ok::<Option<Owner>, OwnerError>(Some(o)));
            if has_module(s) {
                assert forall|i: int| 0 <= i < s.len() && (#[trigger] s[i] is Module) implies o == s[i] by {
                    assert(owner_context(s[i]) == owner_context(s[0]));
                    if i < n {
                        assert(p[i] == s[i]);
                        assert(has_module(p));
                        assert(a == p[i]);
                        if x is Module {
                            assert(s[n] is Module);
                            assert(s[i]->module == s[n]->module);
                        }
                    } else {
                        assert(i == n);
                        if has_module(p) {
                            let k = choose|k: int| 0 <= k < p.len() && (#[trigger] p[k] is Module);
                            assert(p[k] == s[k]);
                            assert(a == p[k]);
                            assert(s[k] is Module);
                            assert(s[k]->module == s[n]->module);
                            assert(owner_context(s[k]) == owner_context(s[n]));
                        }
                    }
                }
            } else {
                assert(!(x is Module)) by {
                    if x is Module {
                        assert(s[n] is Module);
                    }
                }
                assert(!has_module(p)) by {
                    if has_module(p) {
                        let k = choose|k: int| 0 <= k < p.len() && (#[trigger] p[k] is Module);
                        assert(p[k] == s[k]);
                        assert(s[k] is Module);
                    }
                }
            }
        } else {
            if merge_all(p) is Ok {
                let a = merge_all(p)->Ok_0->Some_0;
                assert(p[0] == s[0]);
                assert(owner_context(a) == owner_context(p[0])) by {
                    if has_module(p) {
                        let k = choose|k: int| 0 <= k < p.len() && (#[trigger] p[k] is Module);
                        assert(a == p[k]);
                        assert(owner_context(p[k]) == owner_context(p[0]));
                    }
                }
                if merge_step(Some(a), x) is Some {
                    // The last owner agrees with everything before it, so the
                    // whole sequence would be compatible.
                    assert(owner_context(x) == owner_context(a)) by {
                        if (a is Module) && (x is Module) {
                            let k = choose|k: int| 0 <= k < p.len() && (#[trigger] p[k] is Module);
                            assert(a == p[k]);
                            assert(p[k] == s[k]);
                            assert(s[k] is Module && s[n] is Module);
                        }
                    }
                    assert(compatible(s)) by {
                        assert forall|i: int, j: int| 0 <= i < s.len() && 0 <= j < s.len() implies #[trigger] owner_context(s[i])
                            == #[trigger] owner_context(s[j]) by {
                            if i < n { assert(p[i] == s[i]); assert(owner_context(p[i]) == owner_context(p[0])); }
                            if j < n { assert(p[j] == s[j]); assert(owner_context(p[j]) == owner_context(p[0])); }
                        }
                        assert forall|i: int, j: int|
                            0 <= i < s.len() && 0 <= j < s.len() && (#[trigger] s[i] is Module) && (#[trigger] s[j] is Module) implies s[i]->module
                            == s[j]->module by {
                            if i < n && j < n {
                                assert(p[i] == s[i] && p[j] == s[j]);
                                assert(p[i] is Module && p[j] is Module);
                            } else if i < n {
                                assert(p[i] == s[i]);
                                assert(p[i] is Module);
                                assert(has_module(p));
                                assert(a == p[i]);
                            } else if j < n {
                                assert(p[j] == s[j]);
                                assert(p[j] is Module);
                                assert(has_module(p));
                                assert(a == p[j]);
                            }
                        }
                    }
                }
            }
        }
    }
}

/// Objects that come from different contexts were combined.
#[derive(Clone, Copy, Debug, PartialEq, Eq, Structural)]
pub enum ContextError {
    Different,
}

impl ContextError {
    /// The message shown to Python callers.
    pub fn message(&self) -> (r: &'static str)
        ensures
            r@ == "Some objects come from a different context."@,
    {
        "Some objects come from a different context."
    }
}

/// Whether all items of a sequence are equal to each other.
pub open spec fn all_same(s: Seq<u64>) -> bool {
    forall|i: int, j: int| 0 <= i < s.len() && 0 <= j < s.len() ==> s[i] == s[j]
}

/// Whether all the given items are the same, comparing each with the one
/// before it.
pub fn is_all_same(items: &Vec<u64>) -> (r: bool)
    ensures
        r == all_same(items@),
{
    let mut i: usize = 1;
    while i < items.len()
        invariant
            1 <= i,
            items.len() > 0 ==> i <= items.len(),
            forall|k: int| 0 <= k < i && k < items.len() ==> #[trigger] items@[k] == items@[0],
        decreases items.len() - i,
    {
        if items[i] != items[i - 1] {
            return false;
        }
        i = i + 1;
    }
    true
}

/// Succeeds when all the given contexts are the same context.
pub fn require_same(contexts: &Vec<u64>) -> (r: Result<(), ContextError>)
    ensures
        r is Ok <==> all_same(contexts@),
{
    if is_all_same(contexts) {
        Ok(())
    } else {
        Err(ContextError::Different)
    }
}

/// Why two modules could not be linked.
#[derive(Clone, Copy, Debug, PartialEq, Eq, Structural)]
pub enum LinkError {
    /// The modules live in different contexts.
    DifferentContexts,
}

impl LinkError {
    /// The message shown to Python callers.
    pub fn message(&self) -> (r: &'static str)
        ensures
            r@ == "Cannot link modules from different contexts. Modules are untouched."@,
    {
        "Cannot link modules from different contexts. Modules are untouched."
    }
}

/// Checks that a module may be linked into another: both live in one context.
pub fn check_link(context: u64, other_context: u64) -> (r: Result<(), LinkError>)
    ensures
        r is Ok <==> context == other_context,
        r is Err ==> r == Err::<(), LinkError>(LinkError::DifferentContexts),
{
    if context != other_context {
        Err(LinkError::DifferentContexts)
    } else {
        Ok(())
    }
}

} // verus!
