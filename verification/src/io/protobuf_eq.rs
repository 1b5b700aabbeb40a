//! Equality as protobuf sees it: an absent optional value equals its default.
use vstd::prelude::*;

verus! {

/// Equality of values as protobuf sees them.
pub trait ProtobufEq<Rhs = Self> {
    /// Whether the values are equal as protobuf sees them.
    spec fn protobuf_eq_spec(&self, other: &Rhs) -> bool;

    /// Whether [`ProtobufEq::protobuf_eq_spec`] states the outcome of the comparison: it does
    /// not where an absent value is compared with a present one, which is equal to it when it
    /// is `==` to the default value of its type.
    spec fn protobuf_eq_stated(&self, other: &Rhs) -> bool;

    /// Whether the values are equal as protobuf sees them.
    fn protobuf_eq(&self, other: &Rhs) -> (b: bool)
        ensures
            self.protobuf_eq_stated(other) ==> b == self.protobuf_eq_spec(other),
    ;
}

impl<T: ProtobufEq> ProtobufEq<Vec<T>> for Vec<T> {
    /// Vectors are equal when they have the same length and each item of `other` equals the
    /// item of `self` at its index.
    open spec fn protobuf_eq_spec(&self, other: &Vec<T>) -> bool {
        self@.len() == other@.len() && forall|i: int| 0 <= i < self@.len() ==> #[trigger] other@[i].protobuf_eq_spec(&self@[i])
    }

    open spec fn protobuf_eq_stated(&self, other: &Vec<T>) -> bool {
        self@.len() != other@.len() || forall|i: int| 0 <= i < self@.len() ==> #[trigger] other@[i].protobuf_eq_stated(&self@[i])
    }

    fn protobuf_eq(&self, other: &Vec<T>) -> (b: bool) {
        if self.len() == other.len() {
            let mut i: usize = 0;
            while i < self.len()
                invariant
                    self@.len() == other@.len(),
                    0 <= i <= self@.len(),
                    self.protobuf_eq_stated(other) ==> forall|j: int| 0 <= j < i ==> #[trigger] other@[j].protobuf_eq_spec(&self@[j]),
                    self.protobuf_eq_stated(other) ==> forall|j: int| 0 <= j < self@.len() ==> #[trigger] other@[j].protobuf_eq_stated(&self@[j]),
                decreases self@.len() - i,
            {
                if !other[i].protobuf_eq(&self[i]) {
                    assert(self.protobuf_eq_stated(other) ==> !other@[i as int].protobuf_eq_spec(&self@[i as int]));
                    return false;
                }
                i = i + 1;
            }
            true
        } else {
            false
        }
    }
}

impl<T: ProtobufEq + Default + PartialEq> ProtobufEq<Option<T>> for Option<T> {
    /// Present values are compared as protobuf sees them and two absent values are equal; an
    /// absent value equals a present one that is `==` to the default value of `T`, which is
    /// not stated here.
    open spec fn protobuf_eq_spec(&self, other: &Option<T>) -> bool {
        match (self, other) {
            (Some(v), Some(o)) => v.protobuf_eq_spec(o),
            (None, None) => true,
            _ => false,
        }
    }

    open spec fn protobuf_eq_stated(&self, other: &Option<T>) -> bool {
        match (self, other) {
            (Some(v), Some(o)) => v.protobuf_eq_stated(o),
            (None, None) => true,
            _ => false,
        }
    }

    fn protobuf_eq(&self, other: &Option<T>) -> (b: bool) {
        match self {
            Some(v) => match other {
                Some(o) => v.protobuf_eq(o),
                None => *v == T::default(),
            },
            None => match other {
                Some(o) => T::default() == *o,
                None => true,
            },
        }
    }
}

impl ProtobufEq<bool> for bool {
    open spec fn protobuf_eq_spec(&self, other: &bool) -> bool {
        *self == *other
    }

    open spec fn protobuf_eq_stated(&self, other: &bool) -> bool {
        true
    }

    fn protobuf_eq(&self, other: &bool) -> (b: bool) {
        *self == *other
    }
}

impl ProtobufEq<u8> for u8 {
    open spec fn protobuf_eq_spec(&self, other: &u8) -> bool {
        *self == *other
    }

    open spec fn protobuf_eq_stated(&self, other: &u8) -> bool {
        true
    }

    fn protobuf_eq(&self, other: &u8) -> (b: bool) {
        *self == *other
    }
}

impl ProtobufEq<u16> for u16 {
    open spec fn protobuf_eq_spec(&self, other: &u16) -> bool {
        *self == *other
    }

    open spec fn protobuf_eq_stated(&self, other: &u16) -> bool {
        true
    }

    fn protobuf_eq(&self, other: &u16) -> (b: bool) {
        *self == *other
    }
}

impl ProtobufEq<u32> for u32 {
    open spec fn protobuf_eq_spec(&self, other: &u32) -> bool {
        *self == *other
    }

    open spec fn protobuf_eq_stated(&self, other: &u32) -> bool {
        true
    }

    fn protobuf_eq(&self, other: &u32) -> (b: bool) {
        *self == *other
    }
}

impl ProtobufEq<u64> for u64 {
    open spec fn protobuf_eq_spec(&self, other: &u64) -> bool {
        *self == *other
    }

    open spec fn protobuf_eq_stated(&self, other: &u64) -> bool {
        true
    }

    fn protobuf_eq(&self, other: &u64) -> (b: bool) {
        *self == *other
    }
}

impl ProtobufEq<i8> for i8 {
    open spec fn protobuf_eq_spec(&self, other: &i8) -> bool {
        *self == *other
    }

    open spec fn protobuf_eq_stated(&self, other: &i8) -> bool {
        true
    }

    fn protobuf_eq(&self, other: &i8) -> (b: bool) {
        *self == *other
    }
}

impl ProtobufEq<i16> for i16 {
    open spec fn protobuf_eq_spec(&self, other: &i16) -> bool {
        *self == *other
    }

    open spec fn protobuf_eq_stated(&self, other: &i16) -> bool {
        true
    }

    fn protobuf_eq(&self, other: &i16) -> (b: bool) {
        *self == *other
    }
}

impl ProtobufEq<i32> for i32 {
    open spec fn protobuf_eq_spec(&self, other: &i32) -> bool {
        *self == *other
    }

    open spec fn protobuf_eq_stated(&self, other: &i32) -> bool {
        true
    }

    fn protobuf_eq(&self, other: &i32) -> (b: bool) {
        *self == *other
    }
}

impl ProtobufEq<i64> for i64 {
    open spec fn protobuf_eq_spec(&self, other: &i64) -> bool {
        *self == *other
    }

    open spec fn protobuf_eq_stated(&self, other: &i64) -> bool {
        true
    }

    fn protobuf_eq(&self, other: &i64) -> (b: bool) {
        *self == *other
    }
}

impl ProtobufEq<String> for String {
    open spec fn protobuf_eq_spec(&self, other: &String) -> bool {
        self@ == other@
    }

    open spec fn protobuf_eq_stated(&self, other: &String) -> bool {
        true
    }

    fn protobuf_eq(&self, other: &String) -> (b: bool) {
        crate::parser::text_eq(self.as_str(), other.as_str())
    }
}

} // verus!
