//! Widths of values and the types of declared variables.

use vstd::prelude::*;

verus! {

/// The width of a value held in a temporary.
#[derive(Clone, Copy, Debug, PartialEq, Eq, Structural, Hash)]
pub enum VarSize {
    Byte,
    Word,
    Dword,
    Quad,
}

impl VarSize {
    /// The number of bytes a value of this width occupies.
    pub open spec fn bytes(self) -> nat {
        match self {
            VarSize::Byte => 1,
            VarSize::Word => 2,
            VarSize::Dword => 4,
            VarSize::Quad => 8,
        }
    }

    /// Position of the width in the order `Byte < Word < Dword < Quad`.
    pub open spec fn rank(self) -> nat {
        match self {
            VarSize::Byte => 0,
            VarSize::Word => 1,
            VarSize::Dword => 2,
            VarSize::Quad => 3,
        }
    }

    pub fn num_bytes(&self) -> (n: u64)
        ensures
            n == self.bytes(),
    {
        match self {
            VarSize::Byte => 1,
            VarSize::Word => 2,
            VarSize::Dword => 4,
            VarSize::Quad => 8,
        }
    }
}

/// The width used when nothing else decides: that of an `int`.
pub open spec fn default_size() -> VarSize {
    VarSize::Dword
}

impl Default for VarSize {
    fn default() -> (s: VarSize)
        ensures
            s == default_size(),
    {
        VarSize::Dword
    }
}

/// The type of a declared variable.
#[derive(Debug, PartialEq, Eq)]
pub enum VarType {
    /// A fundamental integer type of the given width.
    Fund(VarSize),
    /// A pointer to a value of the inner type.
    Ptr(Box<VarType>),
    /// An array of the given number of elements of the inner type.
    Arr(Box<VarType>, u64),
}

/// Bytes occupied by a value of type `t`, as a mathematical integer.
pub open spec fn type_bytes(t: VarType) -> nat
    decreases t,
{
    match t {
        VarType::Fund(s) => s.bytes(),
        VarType::Ptr(_) => 8,
        VarType::Arr(inner, n) => type_bytes(*inner) * (n as nat),
    }
}

/// Width of the temporary that holds a value of type `t`: the width of a
/// fundamental type, a full machine word for pointers and arrays.
pub open spec fn type_size(t: VarType) -> VarSize {
    match t {
        VarType::Fund(s) => s,
        VarType::Ptr(_) => VarSize::Quad,
        VarType::Arr(_, _) => VarSize::Quad,
    }
}

impl VarType {
    /// The size of a value of this type in bytes, or `None` when it does not
    /// fit in 64 bits.
    pub fn num_bytes(&self) -> (n: Option<u64>)
        ensures
            match n {
                Some(b) => b == type_bytes(*self),
                None => type_bytes(*self) > u64::MAX,
            },
        decreases *self,
    {
        match self {
            VarType::Fund(s) => Some(s.num_bytes()),
            VarType::Ptr(_) => Some(8),
            VarType::Arr(inner, n) => {
                match inner.num_bytes() {
                    None => {
                        if *n == 0 {
                            assert(type_bytes(**inner) * 0 == 0);
                            Some(0)
                        } else {
                            assert(type_bytes(**inner) * (*n as nat) >= type_bytes(**inner))
                                by (nonlinear_arith)
                                requires
                                    *n >= 1,
                            ;
                            None
                        }
                    },
                    Some(b) => {
                        assert(type_bytes(*self) == b * (*n as nat));
                        b.checked_mul(*n)
                    },
                }
            },
        }
    }

    pub fn to_size(&self) -> (s: VarSize)
        ensures
            s == type_size(*self),
    {
        match self {
            VarType::Fund(s) => *s,
            VarType::Ptr(_) => VarSize::Quad,
            VarType::Arr(_, _) => VarSize::Quad,
        }
    }

    /// Whether two types are the same type.
    pub fn same_as(&self, other: &VarType) -> (same: bool)
        ensures
            same == (*self == *other),
        decreases *self,
    {
        match (self, other) {
            (VarType::Fund(a), VarType::Fund(b)) => *a == *b,
            (VarType::Ptr(a), VarType::Ptr(b)) => a.same_as(b),
            (VarType::Arr(a, n), VarType::Arr(b, m)) => *n == *m && a.same_as(b),
            _ => false,
        }
    }

    /// An independent copy of the type.
    pub fn duplicate(&self) -> (t: VarType)
        ensures
            t == *self,
        decreases *self,
    {
        match self {
            VarType::Fund(s) => VarType::Fund(*s),
            VarType::Ptr(inner) => VarType::Ptr(Box::new(inner.duplicate())),
            VarType::Arr(inner, n) => VarType::Arr(Box::new(inner.duplicate()), *n),
        }
    }
}

} // verus!
