use vstd::prelude::*;

use crate::types::Type;

verus! {

/// A declared structure: the stable identifier assigned at registration, the
/// source name, and the named field types in declaration order.
#[derive(Debug)]
pub struct StructDef {
    pub id: u16,
    pub name: String,
    pub fields: Vec<(String, Type)>,
}

/// The built-in behaviours a native function can be registered with. The
/// evaluator interprets the marker; every behaviour is part of the verified
/// library.
#[derive(Clone, Copy, Debug, PartialEq, Eq, Structural)]
pub enum NativeHandler {
    OptionalIsNone,
    OptionalIsSome,
    OptionalUnwrap,
    OptionalUnwrapOr,
    Len,
}

/// A native function of the host: resolution data as for a user function, the
/// behaviour marker, and the estimated execution cost. The behaviours form a
/// closed set so that every one of them is verified; the cost is recorded for
/// the host's accounting, while the evaluator's own meter counts nodes.
#[derive(Debug)]
pub struct NativeFunction {
    pub name: String,
    pub for_type: Option<Type>,
    pub parameters: Vec<Type>,
    pub handler: NativeHandler,
    pub cost: u64,
    pub return_type: Option<Type>,
}

/// The registered functions and structures the host supplies to the
/// evaluator.
#[derive(Debug)]
pub struct Environment {
    pub functions: Vec<NativeFunction>,
    pub structures: Vec<StructDef>,
}

impl Environment {
    /// Create an empty environment.
    pub fn new() -> (r: Environment)
        ensures
            r.functions@.len() == 0,
            r.structures@.len() == 0,
    {
        Environment { functions: Vec::new(), structures: Vec::new() }
    }

    /// All the registered functions.
    pub fn get_functions(&self) -> (r: &Vec<NativeFunction>)
        ensures
            r == self.functions,
    {
        &self.functions
    }

    /// All the registered structures.
    pub fn get_structures(&self) -> (r: &Vec<StructDef>)
        ensures
            r == self.structures,
    {
        &self.structures
    }

    /// Register a native function.
    pub fn add_function(&mut self, function: NativeFunction)
        ensures
            final(self).functions@ == old(self).functions@.push(function),
            final(self).structures@ == old(self).structures@,
    {
        self.functions.push(function);
    }

    /// Register a native structure.
    pub fn add_structure(&mut self, structure: StructDef)
        ensures
            final(self).structures@ == old(self).structures@.push(structure),
            final(self).functions@ == old(self).functions@,
    {
        self.structures.push(structure);
    }
}

/// Errors of the registry layer.
#[derive(Debug)]
pub enum EnvironmentError {
    StructNameAlreadyUsed,
    MappingNotFound,
}

/// A name-to-identifier mapper: each registered name receives the next free
/// identifier, and a name can be registered once.
#[derive(Debug)]
pub struct IdMapper {
    pub names: Vec<String>,
}

impl IdMapper {
    pub fn new() -> (r: IdMapper)
        ensures
            r.names@.len() == 0,
    {
        IdMapper { names: Vec::new() }
    }

    /// Whether the name is registered.
    pub fn has_variable(&self, name: &String) -> (r: bool)
        ensures
            r == (exists|j: int| 0 <= j < self.names@.len() && (#[trigger] self.names@[j])@
                == name@),
    {
        let mut i: usize = 0;
        while i < self.names.len()
            invariant
                i <= self.names@.len(),
                forall|j: int| 0 <= j < i ==> (#[trigger] self.names@[j])@ != name@,
            decreases self.names@.len() - i,
        {
            if self.names[i].eq(name) {
                return true;
            }
            i = i + 1;
        }
        false
    }

    /// Register a name: a duplicate is refused, a mapper whose identifier
    /// space is exhausted refuses as well, and anything else receives the
    /// next identifier, which is its position in registration order.
    pub fn register(&mut self, name: String) -> (r: Result<u16, EnvironmentError>)
        ensures
            (exists|j: int|
                0 <= j < old(self).names@.len() && (#[trigger] old(self).names@[j])@ == name@)
                ==> (r == Err::<u16, EnvironmentError>(EnvironmentError::StructNameAlreadyUsed)
                && final(self).names@ == old(self).names@),
            (forall|j: int|
                0 <= j < old(self).names@.len() ==> (#[trigger] old(self).names@[j])@ != name@)
                ==> (old(self).names@.len() < 0x10000 ==> (r matches Ok(id) && id as nat == old(
                self,
            ).names@.len() && final(self).names@ == old(self).names@.push(name))),
            (forall|j: int|
                0 <= j < old(self).names@.len() ==> (#[trigger] old(self).names@[j])@ != name@)
                ==> (old(self).names@.len() >= 0x10000 ==> (r == Err::<u16, EnvironmentError>(
                EnvironmentError::MappingNotFound,
            ) && final(self).names@ == old(self).names@)),
    {
        if self.has_variable(&name) {
            return Err(EnvironmentError::StructNameAlreadyUsed);
        }
        if self.names.len() >= 0x10000 {
            return Err(EnvironmentError::MappingNotFound);
        }
        let id = self.names.len() as u16;
        self.names.push(name);
        Ok(id)
    }

    /// The identifier of a registered name: the position of its first
    /// occurrence. A name that is not registered, or whose position passes
    /// the identifier space, is not found.
    pub fn get(&self, name: &String) -> (r: Result<u16, EnvironmentError>)
        ensures
            r matches Ok(id) ==> ((id as int) < self.names@.len() && self.names@[id as int]@
                == name@ && (forall|j: int|
                0 <= j < id as int ==> (#[trigger] self.names@[j])@ != name@)),
            r is Err ==> r == Err::<u16, EnvironmentError>(EnvironmentError::MappingNotFound),
            self.names@.len() <= 0x10000 ==> ((exists|j: int|
                0 <= j < self.names@.len() && (#[trigger] self.names@[j])@ == name@) ==> r is Ok),
            (forall|j: int|
                0 <= j < self.names@.len() ==> (#[trigger] self.names@[j])@ != name@) ==> r
                == Err::<u16, EnvironmentError>(EnvironmentError::MappingNotFound),
    {
        let mut i: usize = 0;
        while i < self.names.len()
            invariant
                i <= self.names@.len(),
                forall|j: int| 0 <= j < i ==> (#[trigger] self.names@[j])@ != name@,
            decreases self.names@.len() - i,
        {
            if self.names[i].eq(name) {
                if i < 0x10000 {
                    return Ok(i as u16);
                } else {
                    return Err(EnvironmentError::MappingNotFound);
                }
            }
            i = i + 1;
        }
        Err(EnvironmentError::MappingNotFound)
    }
}

} // verus!
