use vstd::prelude::*;

verus! {

/// A type of the scripting language. Struct types are referred to by the
/// identifier assigned when the struct was registered; `Any` matches anything
/// during function resolution and `T` is the wildcard used when registering
/// generic native methods.
#[derive(Debug)]
pub enum Type {
    Any,
    T,

    U8,
    U16,
    U32,
    U64,
    U128,
    U256,

    String,
    Bool,
    Struct(u16),

    Array(Box<Type>),
    Optional(Box<Type>),
    Range(Box<Type>),
}

impl Type {
    /// Mathematical mirror of `primitive_byte`: the wire byte of a primitive type.
    pub open spec fn spec_primitive_byte(self) -> Option<u8> {
        match self {
            Type::U8 => Some(0u8),
            Type::U16 => Some(1u8),
            Type::U32 => Some(2u8),
            Type::U64 => Some(3u8),
            Type::U128 => Some(4u8),
            Type::U256 => Some(5u8),
            Type::Bool => Some(6u8),
            Type::String => Some(7u8),
            _ => None,
        }
    }

    /// Mathematical mirror of `primitive_type_from_byte`.
    pub open spec fn spec_primitive_type_from_byte(byte: u8) -> Option<Type> {
        match byte {
            0u8 => Some(Type::U8),
            1u8 => Some(Type::U16),
            2u8 => Some(Type::U32),
            3u8 => Some(Type::U64),
            4u8 => Some(Type::U128),
            5u8 => Some(Type::U256),
            6u8 => Some(Type::Bool),
            7u8 => Some(Type::String),
            _ => None,
        }
    }

    /// Transform a byte into a primitive type.
    pub fn primitive_type_from_byte(byte: u8) -> (r: Option<Type>)
        ensures
            r == Type::spec_primitive_type_from_byte(byte),
    {
        match byte {
            0 => Some(Type::U8),
            1 => Some(Type::U16),
            2 => Some(Type::U32),
            3 => Some(Type::U64),
            4 => Some(Type::U128),
            5 => Some(Type::U256),
            6 => Some(Type::Bool),
            7 => Some(Type::String),
            _ => None,
        }
    }

    /// Get the byte representation of a primitive type.
    pub fn primitive_byte(&self) -> (r: Option<u8>)
        ensures
            r == self.spec_primitive_byte(),
    {
        match self {
            Type::U8 => Some(0),
            Type::U16 => Some(1),
            Type::U32 => Some(2),
            Type::U64 => Some(3),
            Type::U128 => Some(4),
            Type::U256 => Some(5),
            Type::Bool => Some(6),
            Type::String => Some(7),
            _ => None,
        }
    }

    /// The containers carrying an inner type are arrays, optionals and ranges.
    pub open spec fn spec_has_inner_type(self) -> bool {
        match self {
            Type::Array(_) | Type::Optional(_) | Type::Range(_) => true,
            _ => false,
        }
    }

    /// Check whether the type has an inner type.
    pub fn has_inner_type(&self) -> (r: bool)
        ensures
            r == self.spec_has_inner_type(),
    {
        match self {
            Type::Array(_) | Type::Optional(_) | Type::Range(_) => true,
            _ => false,
        }
    }

    /// Check whether the type is a primitive type.
    pub fn is_primitive(&self) -> (r: bool)
        ensures
            r == self.spec_primitive_byte() is Some,
    {
        self.primitive_byte().is_some()
    }

    /// The inner type of a container, or the type itself otherwise.
    pub open spec fn spec_inner_type(self) -> Type {
        match self {
            Type::Array(inner) => *inner,
            Type::Optional(inner) => *inner,
            Type::Range(inner) => *inner,
            t => t,
        }
    }

    /// Get the inner type of a container type, or the type itself.
    pub fn get_inner_type(&self) -> (r: &Type)
        ensures
            *r == self.spec_inner_type(),
    {
        match self {
            Type::Array(inner) => inner,
            Type::Optional(inner) => inner,
            Type::Range(inner) => inner,
            t => t,
        }
    }

    /// Only optionals admit the null value.
    pub fn allow_null(&self) -> (r: bool)
        ensures
            r == (self matches Type::Optional(_)),
    {
        match self {
            Type::Optional(_) => true,
            _ => false,
        }
    }

    /// Mathematical mirror of `is_compatible_with`: `Any` and `T` absorb
    /// anything, containers are compatible when their inner types are, and a
    /// non-container is admitted against a container when it is compatible
    /// with the container's inner type.
    pub open spec fn spec_compatible_with(self, other: Type) -> bool
        decreases other,
    {
        match other {
            Type::Any | Type::T => true,
            Type::Range(o_inner) => match self {
                Type::Range(s_inner) => s_inner.spec_compatible_with(*o_inner),
                _ => false,
            },
            Type::Array(o_inner) => match self {
                Type::Array(s_inner) => s_inner.spec_compatible_with(*o_inner),
                _ => self == other || self.spec_compatible_with(*o_inner),
            },
            Type::Optional(o_inner) => match self {
                Type::Optional(s_inner) => s_inner.spec_compatible_with(*o_inner),
                _ => self == other || self.spec_compatible_with(*o_inner),
            },
            o => o == self || self == Type::T || self == Type::Any,
        }
    }

    /// Compatibility check used by function resolution and assignments.
    pub fn is_compatible_with(&self, other: &Type) -> (r: bool)
        ensures
            r == self.spec_compatible_with(*other),
        decreases other,
    {
        match other {
            Type::Any | Type::T => true,
            Type::Range(o_inner) => match self {
                Type::Range(s_inner) => s_inner.is_compatible_with(o_inner),
                _ => false,
            },
            Type::Array(o_inner) => match self {
                Type::Array(s_inner) => s_inner.is_compatible_with(o_inner),
                _ => same_type(self, other) || self.is_compatible_with(o_inner),
            },
            Type::Optional(o_inner) => match self {
                Type::Optional(s_inner) => s_inner.is_compatible_with(o_inner),
                _ => same_type(self, other) || self.is_compatible_with(o_inner),
            },
            o => same_type(o, self) || same_type(self, &Type::T) || same_type(self, &Type::Any),
        }
    }

    /// Mathematical mirror of `is_castable_to`: all pairs among the numeric
    /// widths and bool, and any numeric or bool to string.
    pub open spec fn spec_castable_to(self, other: Type) -> bool {
        match self {
            Type::U8 => match other {
                Type::U16 | Type::U32 | Type::U64 | Type::U128 | Type::U256 | Type::Bool
                | Type::String => true,
                _ => false,
            },
            Type::U16 => match other {
                Type::U8 | Type::U32 | Type::U64 | Type::U128 | Type::U256 | Type::Bool
                | Type::String => true,
                _ => false,
            },
            Type::U32 => match other {
                Type::U8 | Type::U16 | Type::U64 | Type::U128 | Type::U256 | Type::Bool
                | Type::String => true,
                _ => false,
            },
            Type::U64 => match other {
                Type::U8 | Type::U16 | Type::U32 | Type::U128 | Type::U256 | Type::Bool
                | Type::String => true,
                _ => false,
            },
            Type::U128 => match other {
                Type::U8 | Type::U16 | Type::U32 | Type::U64 | Type::U256 | Type::Bool
                | Type::String => true,
                _ => false,
            },
            Type::U256 => match other {
                Type::U8 | Type::U16 | Type::U32 | Type::U64 | Type::U128 | Type::Bool
                | Type::String => true,
                _ => false,
            },
            Type::Bool => match other {
                Type::U8 | Type::U16 | Type::U32 | Type::U64 | Type::U128 | Type::U256
                | Type::String => true,
                _ => false,
            },
            _ => false,
        }
    }

    /// Check whether the type can be cast to another type.
    pub fn is_castable_to(&self, other: &Type) -> (r: bool)
        ensures
            r == self.spec_castable_to(*other),
    {
        match self {
            Type::U8 => match other {
                Type::U16 | Type::U32 | Type::U64 | Type::U128 | Type::U256 | Type::Bool
                | Type::String => true,
                _ => false,
            },
            Type::U16 => match other {
                Type::U8 | Type::U32 | Type::U64 | Type::U128 | Type::U256 | Type::Bool
                | Type::String => true,
                _ => false,
            },
            Type::U32 => match other {
                Type::U8 | Type::U16 | Type::U64 | Type::U128 | Type::U256 | Type::Bool
                | Type::String => true,
                _ => false,
            },
            Type::U64 => match other {
                Type::U8 | Type::U16 | Type::U32 | Type::U128 | Type::U256 | Type::Bool
                | Type::String => true,
                _ => false,
            },
            Type::U128 => match other {
                Type::U8 | Type::U16 | Type::U32 | Type::U64 | Type::U256 | Type::Bool
                | Type::String => true,
                _ => false,
            },
            Type::U256 => match other {
                Type::U8 | Type::U16 | Type::U32 | Type::U64 | Type::U128 | Type::Bool
                | Type::String => true,
                _ => false,
            },
            Type::Bool => match other {
                Type::U8 | Type::U16 | Type::U32 | Type::U64 | Type::U128 | Type::U256
                | Type::String => true,
                _ => false,
            },
            _ => false,
        }
    }

    /// Mathematical mirror of `is_castable_to_no_loss`: strict widening among
    /// the numeric widths only.
    pub open spec fn spec_castable_to_no_loss(self, other: Type) -> bool {
        match self {
            Type::U8 => match other {
                Type::U16 | Type::U32 | Type::U64 | Type::U128 | Type::U256 => true,
                _ => false,
            },
            Type::U16 => match other {
                Type::U32 | Type::U64 | Type::U128 | Type::U256 => true,
                _ => false,
            },
            Type::U32 => match other {
                Type::U64 | Type::U128 | Type::U256 => true,
                _ => false,
            },
            Type::U64 => match other {
                Type::U128 | Type::U256 => true,
                _ => false,
            },
            Type::U128 => match other {
                Type::U256 => true,
                _ => false,
            },
            _ => false,
        }
    }

    /// Check whether a cast to the other type never loses data.
    pub fn is_castable_to_no_loss(&self, other: &Type) -> (r: bool)
        ensures
            r == self.spec_castable_to_no_loss(*other),
    {
        match self {
            Type::U8 => match other {
                Type::U16 | Type::U32 | Type::U64 | Type::U128 | Type::U256 => true,
                _ => false,
            },
            Type::U16 => match other {
                Type::U32 | Type::U64 | Type::U128 | Type::U256 => true,
                _ => false,
            },
            Type::U32 => match other {
                Type::U64 | Type::U128 | Type::U256 => true,
                _ => false,
            },
            Type::U64 => match other {
                Type::U128 | Type::U256 => true,
                _ => false,
            },
            Type::U128 => match other {
                Type::U256 => true,
                _ => false,
            },
            _ => false,
        }
    }

    /// Arrays and ranges can be iterated over.
    pub fn is_iterable(&self) -> (r: bool)
        ensures
            r == (self matches Type::Array(_) || self matches Type::Range(_)),
    {
        match self {
            Type::Array(_) => true,
            Type::Range(_) => true,
            _ => false,
        }
    }

    pub fn is_array(&self) -> (r: bool)
        ensures
            r == (self matches Type::Array(_)),
    {
        match self {
            Type::Array(_) => true,
            _ => false,
        }
    }

    pub fn is_struct(&self) -> (r: bool)
        ensures
            r == (self matches Type::Struct(_)),
    {
        match self {
            Type::Struct(_) => true,
            _ => false,
        }
    }

    pub open spec fn spec_is_number(self) -> bool {
        match self {
            Type::U8 | Type::U16 | Type::U32 | Type::U64 | Type::U128 | Type::U256 => true,
            _ => false,
        }
    }

    pub fn is_number(&self) -> (r: bool)
        ensures
            r == self.spec_is_number(),
    {
        match self {
            Type::U8 | Type::U16 | Type::U32 | Type::U64 | Type::U128 | Type::U256 => true,
            _ => false,
        }
    }

    pub fn is_optional(&self) -> (r: bool)
        ensures
            r == (self matches Type::Optional(_)),
    {
        match self {
            Type::Optional(_) => true,
            _ => false,
        }
    }

    /// Deep copy of the type.
    pub fn duplicate(&self) -> (r: Type)
        ensures
            r == *self,
        decreases self,
    {
        match self {
            Type::Any => Type::Any,
            Type::T => Type::T,
            Type::U8 => Type::U8,
            Type::U16 => Type::U16,
            Type::U32 => Type::U32,
            Type::U64 => Type::U64,
            Type::U128 => Type::U128,
            Type::U256 => Type::U256,
            Type::String => Type::String,
            Type::Bool => Type::Bool,
            Type::Struct(id) => Type::Struct(*id),
            Type::Array(inner) => Type::Array(Box::new(inner.duplicate())),
            Type::Optional(inner) => Type::Optional(Box::new(inner.duplicate())),
            Type::Range(inner) => Type::Range(Box::new(inner.duplicate())),
        }
    }
}

/// Structural equality of two types.
pub fn same_type(a: &Type, b: &Type) -> (r: bool)
    ensures
        r == (a == b),
    decreases a,
{
    match (a, b) {
        (Type::Any, Type::Any) => true,
        (Type::T, Type::T) => true,
        (Type::U8, Type::U8) => true,
        (Type::U16, Type::U16) => true,
        (Type::U32, Type::U32) => true,
        (Type::U64, Type::U64) => true,
        (Type::U128, Type::U128) => true,
        (Type::U256, Type::U256) => true,
        (Type::String, Type::String) => true,
        (Type::Bool, Type::Bool) => true,
        (Type::Struct(x), Type::Struct(y)) => x == y,
        (Type::Array(x), Type::Array(y)) => same_type(x, y),
        (Type::Optional(x), Type::Optional(y)) => same_type(x, y),
        (Type::Range(x), Type::Range(y)) => same_type(x, y),
        _ => false,
    }
}

/// The primitive byte encoding has no collisions: decoding the byte of a
/// primitive type returns that type, and every byte outside the table decodes
/// to nothing.
pub proof fn lemma_primitive_byte_bijective(t: Type, b: u8)
    ensures
        t.spec_primitive_byte() matches Some(byte) ==> Type::spec_primitive_type_from_byte(byte)
            == Some(t),
        Type::spec_primitive_type_from_byte(b) matches Some(ty) ==> ty.spec_primitive_byte()
            == Some(b),
        b > 7 ==> Type::spec_primitive_type_from_byte(b) is None,
{
}

/// Compatibility is reflexive.
pub proof fn lemma_compatible_reflexive(t: Type)
    ensures
        t.spec_compatible_with(t),
    decreases t,
{
    match t {
        Type::Array(inner) => lemma_compatible_reflexive(*inner),
        Type::Optional(inner) => lemma_compatible_reflexive(*inner),
        Type::Range(inner) => lemma_compatible_reflexive(*inner),
        _ => (),
    }
}

/// Compatibility passes through the container constructors: two arrays,
/// optionals or ranges are compatible exactly when their inner types are.
pub proof fn lemma_compatible_through_containers(a: Type, b: Type)
    ensures
        Type::Array(Box::new(a)).spec_compatible_with(Type::Array(Box::new(b)))
            == a.spec_compatible_with(b),
        Type::Optional(Box::new(a)).spec_compatible_with(Type::Optional(Box::new(b)))
            == a.spec_compatible_with(b),
        Type::Range(Box::new(a)).spec_compatible_with(Type::Range(Box::new(b)))
            == a.spec_compatible_with(b),
{
    match b {
        Type::Any | Type::T => lemma_compatible_reflexive(a),
        _ => (),
    }
}

/// Whether a type mentions no wildcard: neither `Any` nor `T` anywhere.
pub open spec fn wildcard_free(t: Type) -> bool
    decreases t,
{
    match t {
        Type::Any | Type::T => false,
        Type::Array(inner) => wildcard_free(*inner),
        Type::Optional(inner) => wildcard_free(*inner),
        Type::Range(inner) => wildcard_free(*inner),
        _ => true,
    }
}

/// Compatibility is transitive when the middle type mentions no wildcard;
/// with a wildcard in the middle it is not: everything is compatible with
/// `Any` and `Any` with everything, yet two distinct widths are not
/// compatible with each other.
pub proof fn lemma_compatible_transitive(a: Type, b: Type, c: Type)
    requires
        a.spec_compatible_with(b),
        b.spec_compatible_with(c),
        wildcard_free(b),
    ensures
        a.spec_compatible_with(c),
    decreases c,
{
    match c {
        Type::Any | Type::T => (),
        Type::Range(ci) => {
            match b {
                Type::Range(bi) => {
                    match a {
                        Type::Range(ai) => {
                            lemma_compatible_transitive(*ai, *bi, *ci);
                        },
                        _ => (),
                    }
                },
                _ => (),
            }
        },
        Type::Array(ci) => {
            match b {
                Type::Array(bi) => {
                    match a {
                        Type::Array(ai) => {
                            lemma_compatible_transitive(*ai, *bi, *ci);
                        },
                        _ => {
                            lemma_compatible_transitive(a, *bi, *ci);
                        },
                    }
                },
                _ => {
                    lemma_compatible_transitive(a, b, *ci);
                    lemma_compatible_into_inner(a, *ci);
                },
            }
        },
        Type::Optional(ci) => {
            match b {
                Type::Optional(bi) => {
                    match a {
                        Type::Optional(ai) => {
                            lemma_compatible_transitive(*ai, *bi, *ci);
                        },
                        _ => {
                            lemma_compatible_transitive(a, *bi, *ci);
                        },
                    }
                },
                _ => {
                    lemma_compatible_transitive(a, b, *ci);
                    lemma_compatible_into_inner(a, *ci);
                },
            }
        },
        _ => (),
    }
}

/// A container that is compatible with a type is so through its element: its
/// inner type is compatible with that type as well.
proof fn lemma_compatible_peel(a: Type, t: Type)
    requires
        a.spec_compatible_with(t),
    ensures
        a matches Type::Array(ai) ==> ai.spec_compatible_with(t),
        a matches Type::Optional(ai) ==> ai.spec_compatible_with(t),
    decreases t,
{
    match t {
        Type::Array(ti) => {
            match a {
                Type::Array(ai) => {
                    lemma_compatible_peel(*ai, *ti);
                },
                Type::Optional(ai) => {
                    lemma_compatible_peel(a, *ti);
                    lemma_compatible_peel(*ai, *ti);
                },
                _ => (),
            }
        },
        Type::Optional(ti) => {
            match a {
                Type::Optional(ai) => {
                    lemma_compatible_peel(*ai, *ti);
                },
                Type::Array(ai) => {
                    lemma_compatible_peel(a, *ti);
                    lemma_compatible_peel(*ai, *ti);
                },
                _ => (),
            }
        },
        _ => (),
    }
}

/// A type that is compatible with a container's inner type is compatible with
/// the container itself.
proof fn lemma_compatible_into_inner(a: Type, ci: Type)
    requires
        a.spec_compatible_with(ci),
    ensures
        a.spec_compatible_with(Type::Array(Box::new(ci))),
        a.spec_compatible_with(Type::Optional(Box::new(ci))),
{
    lemma_compatible_peel(a, ci);
}

} // verus!
