//! A runtime registry for "unitary" enums: enums whose variants carry no
//! payload.  An implementor maps each variant to and from its zero-based
//! index, exposes the variant count and the two bounding variants, and can
//! walk the variants in order.  The spec functions `variant_count` and
//! `variant_index` are the mathematical model the executable methods are
//! specified against, and every implementation must prove that its indices
//! are in range and distinct.

use vstd::prelude::*;

use crate::file::NamingMode;
use crate::file::PathError;

verus! {

/// A unitary enum: every variant is payload-free and sits at a fixed,
/// zero-based index.
pub trait EnumUnitary: Sized + Copy {
    /// The number of variants.
    spec fn variant_count() -> nat;

    /// The zero-based index of this variant.
    spec fn variant_index(self) -> nat;

    /// Every variant's index lies below the variant count.
    proof fn lemma_variant_index_bound(self)
        ensures
            self.variant_index() < Self::variant_count(),
    ;

    /// Distinct variants have distinct indices.
    proof fn lemma_variant_index_injective(self, other: Self)
        ensures
            self.variant_index() == other.variant_index() ==> self == other,
    ;

    /// The number of variants.
    fn count_variants() -> (n: usize)
        ensures
            n == Self::variant_count(),
    ;

    /// The zero-based index of this variant, in the conventional
    /// numeric-conversion shape; it is always present.
    fn to_usize(self) -> (r: Option<usize>)
        ensures
            r matches Some(i) && i == self.variant_index(),
    ;

    /// The variant at index `i`, or nothing when `i` is out of range.
    fn from_usize(i: usize) -> (r: Option<Self>)
        ensures
            match r {
                Some(v) => i < Self::variant_count() && v.variant_index() == i,
                None => i >= Self::variant_count(),
            },
    ;

    /// The variant with the least index.
    fn min_value() -> (r: Self)
        ensures
            r.variant_index() == 0,
    ;

    /// The variant with the greatest index.
    fn max_value() -> (r: Self)
        ensures
            r.variant_index() + 1 == Self::variant_count(),
    ;

    /// All variants, in index order.
    fn iter_variants() -> (v: Vec<Self>)
        ensures
            v@.len() == Self::variant_count(),
            forall|k: int| 0 <= k < v@.len() ==> (#[trigger] v@[k]).variant_index() == k,
    ;

    /// The variant that follows this one, if any.
    fn next_variant(self) -> (r: Option<Self>)
        ensures
            match r {
                Some(v) => v.variant_index() == self.variant_index() + 1,
                None => self.variant_index() + 1 == Self::variant_count(),
            },
    ;

    /// The variant that precedes this one, if any.
    fn prev_variant(self) -> (r: Option<Self>)
        ensures
            match r {
                Some(v) => v.variant_index() + 1 == self.variant_index(),
                None => self.variant_index() == 0,
            },
    ;
}

impl EnumUnitary for NamingMode {
    open spec fn variant_count() -> nat {
        2
    }

    open spec fn variant_index(self) -> nat {
        match self {
            NamingMode::Suffix => 0,
            NamingMode::PreserveExtension => 1,
        }
    }

    proof fn lemma_variant_index_bound(self) {
    }

    proof fn lemma_variant_index_injective(self, other: Self) {
    }

    fn count_variants() -> usize {
        2
    }

    fn to_usize(self) -> Option<usize> {
        match self {
            NamingMode::Suffix => Some(0),
            NamingMode::PreserveExtension => Some(1),
        }
    }

    fn from_usize(i: usize) -> Option<Self> {
        if i == 0 {
            Some(NamingMode::Suffix)
        } else if i == 1 {
            Some(NamingMode::PreserveExtension)
        } else {
            None
        }
    }

    fn min_value() -> Self {
        NamingMode::Suffix
    }

    fn max_value() -> Self {
        NamingMode::PreserveExtension
    }

    fn iter_variants() -> (v: Vec<Self>)
    {
        let mut v: Vec<NamingMode> = Vec::new();
        v.push(NamingMode::Suffix);
        v.push(NamingMode::PreserveExtension);
        proof {
            assert(v@[0] == NamingMode::Suffix);
            assert(v@[1] == NamingMode::PreserveExtension);
        }
        v
    }

    fn next_variant(self) -> Option<Self> {
        match self {
            NamingMode::Suffix => Some(NamingMode::PreserveExtension),
            NamingMode::PreserveExtension => None,
        }
    }

    fn prev_variant(self) -> Option<Self> {
        match self {
            NamingMode::Suffix => None,
            NamingMode::PreserveExtension => Some(NamingMode::Suffix),
        }
    }
}

impl EnumUnitary for PathError {
    open spec fn variant_count() -> nat {
        4
    }

    open spec fn variant_index(self) -> nat {
        match self {
            PathError::InvalidEncoding => 0,
            PathError::NotAFile => 1,
            PathError::AlreadyExists => 2,
            PathError::IoFailure => 3,
        }
    }

    proof fn lemma_variant_index_bound(self) {
    }

    proof fn lemma_variant_index_injective(self, other: Self) {
    }

    fn count_variants() -> usize {
        4
    }

    fn to_usize(self) -> Option<usize> {
        match self {
            PathError::InvalidEncoding => Some(0),
            PathError::NotAFile => Some(1),
            PathError::AlreadyExists => Some(2),
            PathError::IoFailure => Some(3),
        }
    }

    fn from_usize(i: usize) -> Option<Self> {
        if i == 0 {
            Some(PathError::InvalidEncoding)
        } else if i == 1 {
            Some(PathError::NotAFile)
        } else if i == 2 {
            Some(PathError::AlreadyExists)
        } else if i == 3 {
            Some(PathError::IoFailure)
        } else {
            None
        }
    }

    fn min_value() -> Self {
        PathError::InvalidEncoding
    }

    fn max_value() -> Self {
        PathError::IoFailure
    }

    fn iter_variants() -> (v: Vec<Self>)
    {
        let mut v: Vec<PathError> = Vec::new();
        v.push(PathError::InvalidEncoding);
        v.push(PathError::NotAFile);
        v.push(PathError::AlreadyExists);
        v.push(PathError::IoFailure);
        proof {
            assert(v@[0] == PathError::InvalidEncoding);
            assert(v@[1] == PathError::NotAFile);
            assert(v@[2] == PathError::AlreadyExists);
            assert(v@[3] == PathError::IoFailure);
        }
        v
    }

    fn next_variant(self) -> Option<Self> {
        match self {
            PathError::InvalidEncoding => Some(PathError::NotAFile),
            PathError::NotAFile => Some(PathError::AlreadyExists),
            PathError::AlreadyExists => Some(PathError::IoFailure),
            PathError::IoFailure => None,
        }
    }

    fn prev_variant(self) -> Option<Self> {
        match self {
            PathError::InvalidEncoding => None,
            PathError::NotAFile => Some(PathError::InvalidEncoding),
            PathError::AlreadyExists => Some(PathError::NotAFile),
            PathError::IoFailure => Some(PathError::AlreadyExists),
        }
    }
}

/// A three-variant example of the registry, written out in full the way
/// any user enum implements it; the crate's tests exercise the trait
/// through it and its siblings below.
#[derive(Clone, Copy, Debug, PartialEq, Eq, Structural)]
pub enum Myenum1 {
    /// The first variant.
    A,
    /// The middle variant.
    B,
    /// The last variant.
    C,
}

impl Myenum1 {
    /// The number of variants.
    pub fn count() -> (n: usize)
        ensures
            n == Self::variant_count(),
    {
        3
    }
}

impl EnumUnitary for Myenum1 {
    open spec fn variant_count() -> nat {
        3
    }

    open spec fn variant_index(self) -> nat {
        match self {
            Myenum1::A => 0,
            Myenum1::B => 1,
            Myenum1::C => 2,
        }
    }

    proof fn lemma_variant_index_bound(self) {
    }

    proof fn lemma_variant_index_injective(self, other: Self) {
    }

    fn count_variants() -> usize {
        3
    }

    fn to_usize(self) -> Option<usize> {
        match self {
            Myenum1::A => Some(0),
            Myenum1::B => Some(1),
            Myenum1::C => Some(2),
        }
    }

    fn from_usize(i: usize) -> Option<Self> {
        if i == 0 {
            Some(Myenum1::A)
        } else if i == 1 {
            Some(Myenum1::B)
        } else if i == 2 {
            Some(Myenum1::C)
        } else {
            None
        }
    }

    fn min_value() -> Self {
        Myenum1::A
    }

    fn max_value() -> Self {
        Myenum1::C
    }

    fn iter_variants() -> (v: Vec<Self>)
    {
        let mut v: Vec<Myenum1> = Vec::new();
        v.push(Myenum1::A);
        v.push(Myenum1::B);
        v.push(Myenum1::C);
        proof {
            assert(v@[0] == Myenum1::A);
            assert(v@[1] == Myenum1::B);
            assert(v@[2] == Myenum1::C);
        }
        v
    }

    fn next_variant(self) -> Option<Self> {
        match self {
            Myenum1::A => Some(Myenum1::B),
            Myenum1::B => Some(Myenum1::C),
            Myenum1::C => None,
        }
    }

    fn prev_variant(self) -> Option<Self> {
        match self {
            Myenum1::A => None,
            Myenum1::B => Some(Myenum1::A),
            Myenum1::C => Some(Myenum1::B),
        }
    }
}

/// A second three-variant example of the registry.
#[derive(Clone, Copy, Debug, PartialEq, Eq, Structural)]
pub enum Myenum2 {
    /// The first variant.
    A,
    /// The middle variant.
    B,
    /// The last variant.
    C,
}

impl Myenum2 {
    /// The number of variants.
    pub fn count() -> (n: usize)
        ensures
            n == Self::variant_count(),
    {
        3
    }
}

impl EnumUnitary for Myenum2 {
    open spec fn variant_count() -> nat {
        3
    }

    open spec fn variant_index(self) -> nat {
        match self {
            Myenum2::A => 0,
            Myenum2::B => 1,
            Myenum2::C => 2,
        }
    }

    proof fn lemma_variant_index_bound(self) {
    }

    proof fn lemma_variant_index_injective(self, other: Self) {
    }

    fn count_variants() -> usize {
        3
    }

    fn to_usize(self) -> Option<usize> {
        match self {
            Myenum2::A => Some(0),
            Myenum2::B => Some(1),
            Myenum2::C => Some(2),
        }
    }

    fn from_usize(i: usize) -> Option<Self> {
        if i == 0 {
            Some(Myenum2::A)
        } else if i == 1 {
            Some(Myenum2::B)
        } else if i == 2 {
            Some(Myenum2::C)
        } else {
            None
        }
    }

    fn min_value() -> Self {
        Myenum2::A
    }

    fn max_value() -> Self {
        Myenum2::C
    }

    fn iter_variants() -> (v: Vec<Self>)
    {
        let mut v: Vec<Myenum2> = Vec::new();
        v.push(Myenum2::A);
        v.push(Myenum2::B);
        v.push(Myenum2::C);
        proof {
            assert(v@[0] == Myenum2::A);
            assert(v@[1] == Myenum2::B);
            assert(v@[2] == Myenum2::C);
        }
        v
    }

    fn next_variant(self) -> Option<Self> {
        match self {
            Myenum2::A => Some(Myenum2::B),
            Myenum2::B => Some(Myenum2::C),
            Myenum2::C => None,
        }
    }

    fn prev_variant(self) -> Option<Self> {
        match self {
            Myenum2::A => None,
            Myenum2::B => Some(Myenum2::A),
            Myenum2::C => Some(Myenum2::B),
        }
    }
}

/// A singleton example of the registry: one variant at index zero.
#[derive(Clone, Copy, Debug, PartialEq, Eq, Structural)]
pub enum Myenum3 {
    /// The only variant.
    X,
}

impl Myenum3 {
    /// The number of variants.
    pub fn count() -> (n: usize)
        ensures
            n == Self::variant_count(),
    {
        1
    }
}

impl EnumUnitary for Myenum3 {
    open spec fn variant_count() -> nat {
        1
    }

    open spec fn variant_index(self) -> nat {
        0
    }

    proof fn lemma_variant_index_bound(self) {
    }

    proof fn lemma_variant_index_injective(self, other: Self) {
    }

    fn count_variants() -> usize {
        1
    }

    fn to_usize(self) -> Option<usize> {
        Some(0)
    }

    fn from_usize(i: usize) -> Option<Self> {
        if i == 0 {
            Some(Myenum3::X)
        } else {
            None
        }
    }

    fn min_value() -> Self {
        Myenum3::X
    }

    fn max_value() -> Self {
        Myenum3::X
    }

    fn iter_variants() -> (v: Vec<Self>)
    {
        let mut v: Vec<Myenum3> = Vec::new();
        v.push(Myenum3::X);
        proof {
            assert(v@[0] == Myenum3::X);
        }
        v
    }

    fn next_variant(self) -> Option<Self> {
        None
    }

    fn prev_variant(self) -> Option<Self> {
        None
    }
}

/// A second singleton example of the registry.
#[derive(Clone, Copy, Debug, PartialEq, Eq, Structural)]
pub enum Myenum4 {
    /// The only variant.
    X,
}

impl Myenum4 {
    /// The number of variants.
    pub fn count() -> (n: usize)
        ensures
            n == Self::variant_count(),
    {
        1
    }
}

impl EnumUnitary for Myenum4 {
    open spec fn variant_count() -> nat {
        1
    }

    open spec fn variant_index(self) -> nat {
        0
    }

    proof fn lemma_variant_index_bound(self) {
    }

    proof fn lemma_variant_index_injective(self, other: Self) {
    }

    fn count_variants() -> usize {
        1
    }

    fn to_usize(self) -> Option<usize> {
        Some(0)
    }

    fn from_usize(i: usize) -> Option<Self> {
        if i == 0 {
            Some(Myenum4::X)
        } else {
            None
        }
    }

    fn min_value() -> Self {
        Myenum4::X
    }

    fn max_value() -> Self {
        Myenum4::X
    }

    fn iter_variants() -> (v: Vec<Self>)
    {
        let mut v: Vec<Myenum4> = Vec::new();
        v.push(Myenum4::X);
        proof {
            assert(v@[0] == Myenum4::X);
        }
        v
    }

    fn next_variant(self) -> Option<Self> {
        None
    }

    fn prev_variant(self) -> Option<Self> {
        None
    }
}

} // verus!
