//! The capability linker as a typed registry: a mapping from
//! (namespace, function name) to a host-function signature, built
//! before instantiation and validated against the module's declared
//! import signatures at link time.

use vstd::prelude::*;
use crate::values::ValKind;
use crate::errors::HostError;

verus! {

/// The declared parameter and result kinds of one function boundary.
pub struct FuncSig {
    pub params: Vec<ValKind>,
    pub results: Vec<ValKind>,
}

/// Whether two signatures declare the same kinds in the same order.
pub open spec fn spec_sig_matches(a: FuncSig, b: FuncSig) -> bool {
    a.params@ == b.params@ && a.results@ == b.results@
}

/// Compares two kind lists.
fn kinds_eq(a: &Vec<ValKind>, b: &Vec<ValKind>) -> (r: bool)
    ensures
        r == (a@ == b@),
{
    if a.len() != b.len() {
        return false;
    }
    let mut i: usize = 0;
    while i < a.len()
        invariant
            i <= a@.len(),
            a@.len() == b@.len(),
            forall|j: int| 0 <= j < i ==> a@[j] == b@[j],
        decreases a@.len() - i,
    {
        if a[i] != b[i] {
            return false;
        }
        i = i + 1;
    }
    proof {
        assert(a@ =~= b@);
    }
    true
}

/// Compares two signatures.
pub fn sig_eq(a: &FuncSig, b: &FuncSig) -> (r: bool)
    ensures
        r == spec_sig_matches(*a, *b),
{
    kinds_eq(&a.params, &b.params) && kinds_eq(&a.results, &b.results)
}

/// One host function offered to guest modules: its import name and its
/// signature.
pub struct HostFuncEntry {
    pub namespace: String,
    pub name: String,
    pub sig: FuncSig,
}

/// The first signature registered under the given import name, if any.
pub open spec fn spec_lookup_in(es: Seq<HostFuncEntry>, ns: Seq<char>, nm: Seq<char>) -> Option<
    FuncSig,
>
    decreases es.len(),
{
    if es.len() == 0 {
        Option::None
    } else if es[0].namespace@ == ns && es[0].name@ == nm {
        Option::Some(es[0].sig)
    } else {
        spec_lookup_in(es.skip(1), ns, nm)
    }
}

/// The import namespace a guest module is instantiated against: each
/// registered host function under its (namespace, name) key, keys
/// unique.
pub struct Registry {
    pub entries: Vec<HostFuncEntry>,
}

impl Registry {
    /// No import name is registered twice.
    pub open spec fn wf(self) -> bool {
        forall|i: int, j: int|
            0 <= i < j < self.entries@.len() ==> !((#[trigger] self.entries@[i]).namespace@
                == (#[trigger] self.entries@[j]).namespace@ && self.entries@[i].name@
                == self.entries@[j].name@)
    }

    /// What this registry offers under an import name.
    pub open spec fn spec_lookup(self, ns: Seq<char>, nm: Seq<char>) -> Option<FuncSig> {
        spec_lookup_in(self.entries@, ns, nm)
    }

    /// An empty namespace.
    pub fn new() -> (r: Registry)
        ensures
            r.wf(),
            r.entries@.len() == 0,
    {
        Registry { entries: Vec::new() }
    }

    /// The index of the entry registered under the import name, if any.
    fn find(&self, ns: &String, nm: &String) -> (r: Option<usize>)
        ensures
            match r {
                Option::Some(i) => i < self.entries@.len() && self.entries@[i as int].namespace@
                    == ns@ && self.entries@[i as int].name@ == nm@ && (forall|j: int|
                    0 <= j < i ==> !(self.entries@[j].namespace@ == ns@
                        && #[trigger] self.entries@[j].name@ == nm@)),
                Option::None => forall|j: int|
                    0 <= j < self.entries@.len() ==> !(self.entries@[j].namespace@ == ns@
                        && #[trigger] self.entries@[j].name@ == nm@),
            },
    {
        let mut i: usize = 0;
        while i < self.entries.len()
            invariant
                i <= self.entries@.len(),
                forall|j: int|
                    0 <= j < i ==> !(self.entries@[j].namespace@ == ns@
                        && #[trigger] self.entries@[j].name@ == nm@),
            decreases self.entries@.len() - i,
        {
            let e = &self.entries[i];
            if e.namespace == *ns && e.name == *nm {
                return Option::Some(i);
            }
            i = i + 1;
        }
        Option::None
    }

    /// Registers one host function. Fails when the import name is
    /// already taken; the namespace is unchanged then.
    pub fn register(&mut self, entry: HostFuncEntry) -> (r: Result<(), HostError>)
        requires
            old(self).wf(),
        ensures
            final(self).wf(),
            match r {
                Ok(()) => {
                    &&& old(self).spec_lookup(entry.namespace@, entry.name@) is None
                    &&& final(self).entries@ == old(self).entries@.push(entry)
                },
                Err(e) => {
                    &&& old(self).spec_lookup(entry.namespace@, entry.name@) is Some
                    &&& *final(self) == *old(self)
                    &&& e matches HostError::LinkError { namespace, name } && namespace@
                        == entry.namespace@ && name@ == entry.name@
                },
            },
    {
        proof {
            lemma_lookup_found(self.entries@, entry.namespace@, entry.name@);
        }
        match self.find(&entry.namespace, &entry.name) {
            Option::Some(_) => Err(
                HostError::LinkError {
                    namespace: entry.namespace.clone(),
                    name: entry.name.clone(),
                },
            ),
            Option::None => {
                let ghost before = self.entries@;
                let ghost key_ns = entry.namespace@;
                let ghost key_nm = entry.name@;
                self.entries.push(entry);
                proof {
                    let es = self.entries@;
                    assert forall|i: int, j: int| 0 <= i < j < es.len() implies !((
                    #[trigger] es[i]).namespace@ == (#[trigger] es[j]).namespace@ && es[i].name@
                        == es[j].name@) by {
                        if j < before.len() {
                            assert(es[i] == before[i] && es[j] == before[j]);
                        } else {
                            assert(es[j].namespace@ == key_ns && es[j].name@ == key_nm);
                            assert(es[i] == before[i]);
                        }
                    }
                }
                Ok(())
            },
        }
    }

    /// Looks an import name up, as instantiation does for each declared
    /// import of the module.
    pub fn lookup(&self, ns: &String, nm: &String) -> (r: Option<&FuncSig>)
        ensures
            match r {
                Option::Some(s) => self.spec_lookup(ns@, nm@) == Option::Some(*s),
                Option::None => self.spec_lookup(ns@, nm@) is None,
            },
    {
        proof {
            lemma_lookup_found(self.entries@, ns@, nm@);
        }
        match self.find(ns, nm) {
            Option::Some(i) => {
                proof {
                    lemma_lookup_at(self.entries@, ns@, nm@, i as int);
                }
                Option::Some(&self.entries[i].sig)
            },
            Option::None => Option::None,
        }
    }

    /// Whether one declared import of the module is satisfied: the
    /// registry offers its name with the exact declared signature.
    pub open spec fn spec_import_satisfied(self, req: HostFuncEntry) -> bool {
        self.spec_lookup(req.namespace@, req.name@) matches Option::Some(s) && spec_sig_matches(
            s,
            req.sig,
        )
    }

    /// Validates a module's declared imports against the namespace, as
    /// link time does: every import must be present with its declared
    /// signature, and the first unsatisfied one is the link failure.
    pub fn validate_imports(&self, imports: &Vec<HostFuncEntry>) -> (r: Result<(), HostError>)
        ensures
            match r {
                Ok(()) => forall|i: int|
                    0 <= i < imports@.len() ==> self.spec_import_satisfied(#[trigger] imports@[i]),
                Err(e) => exists|i: int|
                    {
                        &&& 0 <= i < imports@.len()
                        &&& !self.spec_import_satisfied(#[trigger] imports@[i])
                        &&& (forall|j: int|
                            0 <= j < i ==> self.spec_import_satisfied(#[trigger] imports@[j]))
                        &&& e matches HostError::LinkError { namespace, name } && namespace@
                            == imports@[i].namespace@ && name@ == imports@[i].name@
                    },
            },
    {
        let mut i: usize = 0;
        while i < imports.len()
            invariant
                i <= imports@.len(),
                forall|j: int|
                    0 <= j < i ==> self.spec_import_satisfied(#[trigger] imports@[j]),
            decreases imports@.len() - i,
        {
            let req = &imports[i];
            let satisfied = match self.lookup(&req.namespace, &req.name) {
                Option::Some(s) => sig_eq(s, &req.sig),
                Option::None => false,
            };
            if !satisfied {
                return Err(
                    HostError::LinkError {
                        namespace: req.namespace.clone(),
                        name: req.name.clone(),
                    },
                );
            }
            i = i + 1;
        }
        Ok(())
    }
}

/// Relates a positional find to the recursive first-match lookup: a
/// hit at the first matching index yields that entry's signature, and
/// no match anywhere yields nothing.
proof fn lemma_lookup_at(es: Seq<HostFuncEntry>, ns: Seq<char>, nm: Seq<char>, i: int)
    requires
        0 <= i < es.len(),
        es[i].namespace@ == ns,
        es[i].name@ == nm,
        forall|j: int| 0 <= j < i ==> !(es[j].namespace@ == ns && #[trigger] es[j].name@ == nm),
    ensures
        spec_lookup_in(es, ns, nm) == Option::Some(es[i].sig),
    decreases i,
{
    if i > 0 {
        lemma_lookup_at(es.skip(1), ns, nm, i - 1);
        assert(forall|j: int| 0 <= j < es.len() - 1 ==> #[trigger] es.skip(1)[j] == es[j + 1]);
    }
}

/// A lookup misses exactly when no entry carries the import name.
proof fn lemma_lookup_found(es: Seq<HostFuncEntry>, ns: Seq<char>, nm: Seq<char>)
    ensures
        spec_lookup_in(es, ns, nm) is Some <==> exists|j: int|
            0 <= j < es.len() && es[j].namespace@ == ns && #[trigger] es[j].name@ == nm,
    decreases es.len(),
{
    if es.len() > 0 {
        lemma_lookup_found(es.skip(1), ns, nm);
        assert(forall|j: int| 0 <= j < es.len() - 1 ==> #[trigger] es.skip(1)[j] == es[j + 1]);
        if !(es[0].namespace@ == ns && es[0].name@ == nm) {
            if exists|j: int| 0 <= j < es.len() && es[j].namespace@ == ns && #[trigger] es[j].name@
                == nm {
                let j = choose|j: int|
                    0 <= j < es.len() && es[j].namespace@ == ns && #[trigger] es[j].name@ == nm;
                assert(j > 0);
                assert(es.skip(1)[j - 1].namespace@ == ns && es.skip(1)[j - 1].name@ == nm);
            }
        }
    }
}

} // verus!
