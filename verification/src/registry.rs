//! The evaluator registry: a process-wide, append-only catalogue mapping
//! instruction names to factories, populated once at process start and
//! read-only thereafter. Instruction names are unique; a duplicate
//! registration is a startup defect and is reported, never silently
//! overwritten.

use vstd::prelude::*;

verus! {

broadcast use vstd::std_specs::vec::group_vec_axioms, vstd::seq::group_seq_axioms;

/// The construction function of one built-in instruction.
#[derive(Debug, Clone, Copy, PartialEq, Eq, Structural)]
pub enum InstructionKind {
    /// The ordering comparison over primitive columns.
    GtePrimitive,
    /// Struct-field projection.
    FieldRef,
}

/// One registration record: an instruction name and its factory.
#[derive(Debug)]
pub struct EvaluatorFactory {
    pub name: String,
    pub kind: InstructionKind,
}

/// The registry of instruction factories.
#[derive(Debug)]
pub struct Registry {
    entries: Vec<EvaluatorFactory>,
}

/// Index of the first entry with the given name, or `-1`.
pub open spec fn find_entry(entries: Seq<EvaluatorFactory>, name: Seq<char>) -> int
    decreases entries.len(),
{
    if entries.len() == 0 {
        -1
    } else if entries[0].name@ == name {
        0
    } else {
        let r = find_entry(entries.subrange(1, entries.len() as int), name);
        if r < 0 {
            -1
        } else {
            r + 1
        }
    }
}

pub proof fn lemma_find_entry(entries: Seq<EvaluatorFactory>, name: Seq<char>)
    ensures
        find_entry(entries, name) >= 0 <==> exists|i: int|
            0 <= i < entries.len() && entries[i].name@ == name,
        find_entry(entries, name) >= 0 ==> 0 <= find_entry(entries, name) < entries.len()
            && entries[find_entry(entries, name)].name@ == name && forall|j: int|
            0 <= j < find_entry(entries, name) ==> entries[j].name@ != name,
    decreases entries.len(),
{
    if entries.len() == 0 {
    } else if entries[0].name@ == name {
    } else {
        let rest = entries.subrange(1, entries.len() as int);
        lemma_find_entry(rest, name);
        assert(forall|i: int| 1 <= i < entries.len() ==> entries[i] == rest[i - 1]);
        if exists|i: int| 0 <= i < entries.len() && entries[i].name@ == name {
            let w = choose|i: int| 0 <= i < entries.len() && entries[i].name@ == name;
            assert(rest[w - 1].name@ == name);
        }
        if exists|i: int| 0 <= i < rest.len() && rest[i].name@ == name {
            let w = choose|i: int| 0 <= i < rest.len() && rest[i].name@ == name;
            assert(entries[w + 1].name@ == name);
        }
    }
}

/// What looking a name up yields: the factory of the first entry with
/// that name.
pub open spec fn lookup_spec(entries: Seq<EvaluatorFactory>, name: Seq<char>) -> Option<
    InstructionKind,
> {
    if find_entry(entries, name) >= 0 {
        Some(entries[find_entry(entries, name)].kind)
    } else {
        None
    }
}

/// Reported when two factories are registered under one name.
#[derive(Debug, PartialEq, Eq)]
pub enum RegistrationError {
    DuplicateName { name: String },
}

impl Registry {
    pub closed spec fn entries_spec(&self) -> Seq<EvaluatorFactory> {
        self.entries@
    }

    /// All registered names are distinct.
    pub open spec fn wf(&self) -> bool {
        forall|i: int, j: int|
            0 <= i < j < self.entries_spec().len() ==> (#[trigger] self.entries_spec()[i].name@)
                != (#[trigger] self.entries_spec()[j].name@)
    }

    /// An empty registry.
    pub fn new() -> (r: Registry)
        ensures
            r.entries_spec() == Seq::<EvaluatorFactory>::empty(),
            r.wf(),
    {
        let r = Registry { entries: Vec::new() };
        proof {
            assert(r.entries_spec() =~= Seq::<EvaluatorFactory>::empty());
        }
        r
    }

    /// Add one factory under a fresh name. A second registration under the
    /// same name is detected and reported; the registry is left unchanged
    /// by it.
    #[verifier::loop_isolation(false)]
    pub fn register(&mut self, name: String, kind: InstructionKind) -> (r: Result<
        (),
        RegistrationError,
    >)
        requires
            old(self).wf(),
        ensures
            final(self).wf(),
            match r {
                Ok(()) => {
                    &&& forall|i: int|
                        0 <= i < old(self).entries_spec().len() ==> (#[trigger] old(
                            self,
                        ).entries_spec()[i].name@) != name@
                    &&& final(self).entries_spec().len() == old(self).entries_spec().len()
                        + 1
                    &&& final(self).entries_spec().subrange(
                        0,
                        old(self).entries_spec().len() as int,
                    ) == old(self).entries_spec()
                    &&& final(self).entries_spec().last().name@ == name@
                    &&& final(self).entries_spec().last().kind == kind
                },
                Err(RegistrationError::DuplicateName { name: dup }) => {
                    &&& dup@ == name@
                    &&& exists|i: int|
                        0 <= i < old(self).entries_spec().len() && (#[trigger] old(
                            self,
                        ).entries_spec()[i].name@) == name@
                    &&& final(self).entries_spec() == old(self).entries_spec()
                },
            },
    {
        let mut i: usize = 0;
        let n = self.entries.len();
        while i < n
            invariant
                n == self.entries@.len(),
                0 <= i <= n,
                forall|j: int| 0 <= j < i ==> (#[trigger] self.entries@[j].name@) != name@,
            decreases n - i,
        {
            if self.entries[i].name == name {
                return Err(RegistrationError::DuplicateName { name });
            }
            i = i + 1;
        }
        let ghost before = self.entries@;
        self.entries.push(EvaluatorFactory { name, kind });
        proof {
            assert(self.entries@.subrange(0, before.len() as int) =~= before);
        }
        Ok(())
    }

    /// The factory registered under `name`, if any.
    #[verifier::loop_isolation(false)]
    pub fn lookup(&self, name: &str) -> (r: Option<InstructionKind>)
        ensures
            r == lookup_spec(self.entries_spec(), name@),
    {
        proof {
            lemma_find_entry(self.entries@, name@);
        }
        let n = self.entries.len();
        let mut i: usize = 0;
        while i < n
            invariant
                n == self.entries@.len(),
                0 <= i <= n,
                forall|j: int| 0 <= j < i ==> (#[trigger] self.entries@[j].name@) != name@,
            decreases n - i,
        {
            let entry = &self.entries[i];
            if crate::parse::str_eq(entry.name.as_str(), name) {
                proof {
                    lemma_find_entry(self.entries@, name@);
                    let fe = find_entry(self.entries@, name@);
                    if fe < i {
                        assert(self.entries@[fe].name@ != name@);
                    } else if fe > i {
                        assert(self.entries@[i as int].name@ != name@);
                    }
                }
                return Some(entry.kind);
            }
            i = i + 1;
        }
        None
    }
}

/// The registry holding every built-in instruction, assembled once at
/// process start; the single extension point for adding instructions is
/// registering another factory before any plan is compiled.
pub fn default_registry() -> (r: Registry)
    ensures
        r.wf(),
        lookup_spec(r.entries_spec(), "gte_primitive"@) == Some(InstructionKind::GtePrimitive),
        lookup_spec(r.entries_spec(), "field_ref"@) == Some(InstructionKind::FieldRef),
{
    proof {
        reveal_strlit("gte_primitive");
        reveal_strlit("field_ref");
    }
    let mut r = Registry::new();
    let ok1 = r.register(String::from_str("gte_primitive"), InstructionKind::GtePrimitive);
    let ok2 = r.register(String::from_str("field_ref"), InstructionKind::FieldRef);
    proof {
        assert("gte_primitive"@.len() == 13);
        assert("field_ref"@.len() == 9);
        lemma_find_entry(r.entries_spec(), "gte_primitive"@);
        lemma_find_entry(r.entries_spec(), "field_ref"@);
    }
    r
}

} // verus!
