//! [`Value`]: a known value, a null value, or a value that is not known yet.

use vstd::prelude::*;
use core::ops::{Deref, DerefMut};
use vstd::std_specs::cmp::PartialEqSpec;

verus! {

/// Encode either a known value, a null value, or an unknown value as specified by the Terraform protocol.
///
/// [`Value`] is closely modeled after [`Option`] where:
/// - [`Value::Value`] is equivalent to [`Option::Some`],
/// - [`Value::Null`] is equivalent to [`Option::None`],
/// - [`Value::Unknown`] has no option counterpart and represents a value that is
///   currently unknown, but will be known later on.
///
/// The variants are ordered `Value < Null < Unknown` by the derived `Ord`.
#[derive(Copy, Clone, PartialEq, PartialOrd, Eq, Ord, Hash, Debug)]
pub enum Value<T> {
    /// Value is present
    Value(T),
    /// No value is present
    Null,
    /// Value is unknown
    Unknown,
}

/// The [`Option`] that a [`Value`] stands for: `Null` and `Unknown` both give `None`.
pub open spec fn value_as_option<T>(v: Value<T>) -> Option<T> {
    match v {
        Value::Value(x) => Some(x),
        _ => None,
    }
}

/// `v` and `r` hold the same variant, with `rel` relating the two payloads.
pub open spec fn same_shape<T, U>(v: Value<T>, r: Value<U>, rel: spec_fn(T, U) -> bool) -> bool {
    match v {
        Value::Value(x) => r matches Value::Value(y) && rel(x, y),
        Value::Null => r is Null,
        Value::Unknown => r is Unknown,
    }
}

impl<T> Default for Value<T> {
    /// The default value is `Null`
    fn default() -> (r: Self)
        ensures
            r is Null,
    {
        Value::Null
    }
}

impl<T> Value<T> {
    /////////////////////////////////////////////////////////////////////////
    // Querying the contained values
    /////////////////////////////////////////////////////////////////////////
    /// Check if the value is known and present
    pub fn is_value(&self) -> (r: bool)
        ensures
            r == (*self is Value),
    {
        matches!(self, Self::Value(_))
    }

    /// Check if the value is null
    pub fn is_null(&self) -> (r: bool)
        ensures
            r == (*self is Null),
    {
        matches!(self, Self::Null)
    }

    /// Check if the value is unknown
    pub fn is_unknown(&self) -> (r: bool)
        ensures
            r == (*self is Unknown),
    {
        matches!(self, Self::Unknown)
    }

    /////////////////////////////////////////////////////////////////////////
    // Adapter for working with references
    /////////////////////////////////////////////////////////////////////////
    /// Converts from `&Value<T>` to `Value<&T>`
    pub fn as_ref(&self) -> (r: Value<&T>)
        ensures
            same_shape(*self, r, |x: T, y: &T| *y == x),
    {
        match self {
            Self::Value(x) => Value::Value(x),
            Self::Null => Value::Null,
            Self::Unknown => Value::Unknown,
        }
    }


    /// Converts from `&mut Value<T>` to `Value<&mut T>`
    pub fn as_mut(&mut self) -> (r: Value<&mut T>)
        ensures
            match *old(self) {
                Value::Value(x) => r matches Value::Value(m) && *m == x && *final(self)
                    == Value::Value(*final(m)),
                Value::Null => r is Null && *final(self) is Null,
                Value::Unknown => r is Unknown && *final(self) is Unknown,
            },
    {
        match self {
            Self::Value(x) => Value::Value(x),
            Self::Null => Value::Null,
            Self::Unknown => Value::Unknown,
        }
    }

    /// Converts from `&mut Value<T>` to `Option<&mut T>`: `Null` and `Unknown` both give `None`.
    pub fn as_mut_option(&mut self) -> (r: Option<&mut T>)
        ensures
            match *old(self) {
                Value::Value(x) => r matches Some(m) && *m == x && *final(self) == Value::Value(
                    *final(m),
                ),
                _ => r is None && *final(self) == *old(self),
            },
    {
        match self {
            Self::Value(x) => Some(x),
            _ => None,
        }
    }


    /// Converts from `&Value<T>` to `Value<&T::Target>`, dereferencing the contained value.
    pub fn as_deref(&self) -> (r: Value<&T::Target>) where T: core::ops::Deref
        ensures
            same_shape(*self, r, |x: T, y: &T::Target| call_ensures(T::deref, (&x,), y)),
    {
        match self {
            Value::Value(x) => Value::Value(x.deref()),
            Value::Null => Value::Null,
            Value::Unknown => Value::Unknown,
        }
    }

    /// Converts from `&Value<T>` to `Option<&T::Target>`: `Null` and `Unknown` both give `None`.
    pub fn as_deref_option(&self) -> (r: Option<&T::Target>) where T: core::ops::Deref
        ensures
            match *self {
                Value::Value(x) => r matches Some(y) && call_ensures(T::deref, (&x,), y),
                _ => r is None,
            },
    {
        match self {
            Self::Value(x) => Some(x.deref()),
            _ => None,
        }
    }

    /// Converts from `&mut Value<T>` to `Value<&mut T::Target>`, dereferencing the contained value.
    pub fn as_deref_mut(&mut self) -> (r: Value<&mut T::Target>) where T: core::ops::DerefMut
        ensures
            match *old(self) {
                Value::Value(_) => r is Value && *final(self) is Value,
                Value::Null => r is Null && *final(self) is Null,
                Value::Unknown => r is Unknown && *final(self) is Unknown,
            },
    {
        match self {
            Value::Value(x) => Value::Value(x.deref_mut()),
            Value::Null => Value::Null,
            Value::Unknown => Value::Unknown,
        }
    }

    /////////////////////////////////////////////////////////////////////////
    // Getting to contained values
    /////////////////////////////////////////////////////////////////////////
    /// Returns the contained [`Value::Value`] value, consuming the `self` value.
    ///
    /// It panics with `msg` on `Null` and on `Unknown`, so those are ruled out here.
    pub fn expect(self, msg: &str) -> (r: T)
        requires
            self is Value,
        ensures
            r == self->Value_0,
    {
        match self {
            Self::Value(val) => val,
            _ => { proof { assert(false); } vstd::pervasive::unreached() },
        }
    }

    /// Returns the contained [`Value::Value`] value, consuming the `self` value.
    ///
    /// `Null` and `Unknown` would panic: those inputs are ruled out.
    pub fn unwrap(self) -> (r: T)
        requires
            self is Value,
        ensures
            r == self->Value_0,
    {
        match self {
            Self::Value(x) => x,
            _ => { proof { assert(false); } vstd::pervasive::unreached() },
        }
    }

    /// Returns the contained value or a provided default.
    pub fn unwrap_or(self, default: T) -> (r: T)
        ensures
            r == (match self {
                Value::Value(x) => x,
                _ => default,
            }),
    {
        match self {
            Self::Value(x) => x,
            _ => default,
        }
    }

    /// Returns the contained value or computes it from a closure.
    pub fn unwrap_or_else<F>(self, f: F) -> (r: T) where F: FnOnce() -> T
        requires
            !(self is Value) ==> call_requires(f, ()),
        ensures
            match self {
                Value::Value(x) => r == x,
                _ => call_ensures(f, (), r),
            },
    {
        match self {
            Self::Value(x) => x,
            _ => f(),
        }
    }

    /// Returns the contained value or the default of `T`.
    pub fn unwrap_or_default(self) -> (r: T) where T: Default
        ensures
            match self {
                Value::Value(x) => r == x,
                _ => call_ensures(T::default, (), r),
            },
    {
        match self {
            Self::Value(x) => x,
            _ => T::default(),
        }
    }

    /////////////////////////////////////////////////////////////////////////
    // Transforming contained values
    /////////////////////////////////////////////////////////////////////////
    /// Maps a `Value<T>` to `Value<U>` by applying a function to a contained value.
    /// `Null` stays `Null` and `Unknown` stays `Unknown`.
    pub fn map<U, F>(self, f: F) -> (r: Value<U>) where F: FnOnce(T) -> U
        requires
            self matches Value::Value(x) ==> call_requires(f, (x,)),
        ensures
            same_shape(self, r, |x: T, y: U| call_ensures(f, (x,), y)),
    {
        match self {
            Self::Value(x) => Value::Value(f(x)),
            Self::Null => Value::Null,
            Self::Unknown => Value::Unknown,
        }
    }

    /// Calls the provided closure with a reference to the contained value (if known and present),
    /// and gives the value back unchanged.
    pub fn inspect<F>(self, f: F) -> (r: Self) where F: FnOnce(&T)
        requires
            self matches Value::Value(x) ==> call_requires(f, (&x,)),
        ensures
            r == self,
            self matches Value::Value(x) ==> call_ensures(f, (&x,), ()),
    {
        if let Self::Value(ref x) = self {
            f(x);
        }
        self
    }

    /// Returns the provided default (if not a value), or applies a function to the contained value.
    pub fn map_or<U, F>(self, default: U, f: F) -> (r: U) where F: FnOnce(T) -> U
        requires
            self matches Value::Value(x) ==> call_requires(f, (x,)),
        ensures
            match self {
                Value::Value(x) => call_ensures(f, (x,), r),
                _ => r == default,
            },
    {
        match self {
            Self::Value(x) => f(x),
            _ => default,
        }
    }

    /// Computes a default function result (if not a value), or applies a different function
    /// to the contained value.
    pub fn map_or_else<U, D, F>(self, default: D, f: F) -> (r: U) where
        F: FnOnce(T) -> U,
        D: FnOnce() -> U,
        requires
            match self {
                Value::Value(x) => call_requires(f, (x,)),
                _ => call_requires(default, ()),
            },
        ensures
            match self {
                Value::Value(x) => call_ensures(f, (x,), r),
                _ => call_ensures(default, (), r),
            },
    {
        match self {
            Self::Value(x) => f(x),
            _ => default(),
        }
    }

    /// Transforms the `Value<T>` into a [`Result<T, E>`], mapping [`Value::Value(v)`] to
    /// [`Ok(v)`] and both `Null` and `Unknown` to [`Err(err)`].
    pub fn ok_or<E>(self, err: E) -> (r: Result<T, E>)
        ensures
            r == (match self {
                Value::Value(x) => Ok::<T, E>(x),
                _ => Err(err),
            }),
    {
        match self {
            Self::Value(x) => Ok(x),
            _ => Err(err),
        }
    }

    /// Transforms the `Value<T>` into a [`Result<T, E>`], mapping [`Value::Value(v)`] to
    /// [`Ok(v)`] and both `Null` and `Unknown` to [`Err(err())`].
    pub fn ok_or_else<E, F>(self, err: F) -> (r: Result<T, E>) where F: FnOnce() -> E
        requires
            !(self is Value) ==> call_requires(err, ()),
        ensures
            match self {
                Value::Value(x) => r == Ok::<T, E>(x),
                _ => r matches Err(e) && call_ensures(err, (), e),
            },
    {
        match self {
            Self::Value(x) => Ok(x),
            _ => Err(err()),
        }
    }

    /// Converts from `Value<T>` to `Option<T>`: `Null` and `Unknown` both give `None`.
    pub fn as_option(self) -> (r: Option<T>)
        ensures
            r == value_as_option(self),
    {
        match self {
            Self::Value(x) => Some(x),
            _ => None,
        }
    }

    /// Converts from `&Value<T>` to `Option<&T>`: `Null` and `Unknown` both give `None`.
    pub fn as_ref_option(&self) -> (r: Option<&T>)
        ensures
            match *self {
                Value::Value(x) => r matches Some(y) && *y == x,
                _ => r is None,
            },
    {
        match self {
            Self::Value(x) => Some(x),
            _ => None,
        }
    }


    /// Converts from `&mut Value<T>` to `Option<&mut T::Target>`: `Null` and `Unknown` both give `None`.
    pub fn as_deref_mut_option(&mut self) -> (r: Option<&mut T::Target>) where
        T: core::ops::DerefMut,
        ensures
            (*old(self) is Value) == (r is Some),
            (*old(self) is Value) == (*final(self) is Value),
            !(*old(self) is Value) ==> *final(self) == *old(self),
    {
        match self {
            Self::Value(x) => Some(x.deref_mut()),
            _ => None,
        }
    }

    /////////////////////////////////////////////////////////////////////////
    // Iterator constructors
    /////////////////////////////////////////////////////////////////////////
    /// Returns an iterator over the possibly contained value.
    pub fn iter(&self) -> (r: Iter<'_, T>)
        ensures
            same_shape(r.val, *self, |y: &T, x: T| *y == x),
    {
        Iter { val: self.as_ref() }
    }

    /// Returns a mutable iterator over the possibly contained value.
    pub fn iter_mut(&mut self) -> (r: IterMut<'_, T>)
        ensures
            match *old(self) {
                Value::Value(x) => r.val matches Value::Value(m) && *m == x && *final(self)
                    == Value::Value(*final(m)),
                Value::Null => r.val is Null && *final(self) is Null,
                Value::Unknown => r.val is Unknown && *final(self) is Unknown,
            },
    {
        IterMut { val: self.as_mut() }
    }

    /// Returns a consuming iterator over the possibly contained value.
    pub fn into_iter(self) -> (r: IntoIter<T>)
        ensures
            r.val == self,
    {
        IntoIter { val: self }
    }

    /////////////////////////////////////////////////////////////////////////
    // Boolean operations on the values, eager and lazy
    /////////////////////////////////////////////////////////////////////////
    /// Returns `rhs` if `self` is a value, otherwise `Null` or `Unknown` as `self`.
    pub fn and<U>(self, rhs: Value<U>) -> (r: Value<U>)
        ensures
            r == (match self {
                Value::Value(_) => rhs,
                Value::Null => Value::<U>::Null,
                Value::Unknown => Value::<U>::Unknown,
            }),
    {
        match self {
            Self::Value(_) => rhs,
            Self::Null => Value::Null,
            Self::Unknown => Value::Unknown,
        }
    }

    /// Returns `f(x)` if `self` is `Value(x)`, otherwise `Null` or `Unknown` as `self`.
    pub fn and_then<U, F>(self, f: F) -> (r: Value<U>) where F: FnOnce(T) -> Value<U>
        requires
            self matches Value::Value(x) ==> call_requires(f, (x,)),
        ensures
            match self {
                Value::Value(x) => call_ensures(f, (x,), r),
                Value::Null => r is Null,
                Value::Unknown => r is Unknown,
            },
    {
        match self {
            Self::Value(x) => f(x),
            Self::Null => Value::Null,
            Self::Unknown => Value::Unknown,
        }
    }

    /// Keeps a contained value that satisfies `predicate`, turns the others into `Null`;
    /// `Null` and `Unknown` are kept as they are.
    pub fn filter<P>(self, predicate: P) -> (r: Self) where P: FnOnce(&T) -> bool
        requires
            self matches Value::Value(x) ==> call_requires(predicate, (&x,)),
        ensures
            match self {
                Value::Value(x) => exists|b: bool|
                    call_ensures(predicate, (&x,), b) && r == (if b {
                        Value::Value(x)
                    } else {
                        Value::Null
                    }),
                Value::Null => r is Null,
                Value::Unknown => r is Unknown,
            },
    {
        match self {
            Self::Value(x) => {
                if predicate(&x) {
                    Value::Value(x)
                } else {
                    Value::Null
                }
            },
            Self::Null => Value::Null,
            Self::Unknown => Value::Unknown,
        }
    }

    /// Returns `self` if it is a value or unknown, otherwise (`Null`) returns `rhs`.
    pub fn or(self, rhs: Self) -> (r: Self)
        ensures
            r == (match self {
                Value::Null => rhs,
                _ => self,
            }),
    {
        match self {
            Self::Value(x) => Value::Value(x),
            Self::Null => rhs,
            Self::Unknown => Value::Unknown,
        }
    }

    /// Returns `self` if it is a value or unknown, otherwise (`Null`) calls `f` and returns the result.
    pub fn or_else<F>(self, f: F) -> (r: Self) where F: FnOnce() -> Self
        requires
            self is Null ==> call_requires(f, ()),
        ensures
            match self {
                Value::Null => call_ensures(f, (), r),
                _ => r == self,
            },
    {
        match self {
            Self::Value(x) => Value::Value(x),
            Self::Null => f(),
            Self::Unknown => Value::Unknown,
        }
    }

    /////////////////////////////////////////////////////////////////////////
    // Misc
    /////////////////////////////////////////////////////////////////////////
    /// Takes the value out, leaving a `Null` in its place.
    pub fn take(&mut self) -> (r: Self)
        ensures
            r == *old(self),
            *final(self) is Null,
    {
        let mut r = Value::Null;
        core::mem::swap(self, &mut r);
        r
    }

    /// Replaces the content by `Value(val)`, returning the old content.
    pub fn replace(&mut self, val: T) -> (r: Self)
        ensures
            r == *old(self),
            *final(self) == Value::Value(val),
    {
        let mut r = Value::Value(val);
        core::mem::swap(self, &mut r);
        r
    }

    /// Returns `true` if the value is known, present, and equal to `x`.
    pub fn contains<U>(&self, x: &U) -> (r: bool) where U: PartialEq<T>
        ensures
            !(*self is Value) ==> !r,
            U::obeys_eq_spec() ==> (match *self {
                Value::Value(y) => r == x.eq_spec(&y),
                _ => true,
            }),
    {
        match self {
            Self::Value(y) => x.eq(y),
            _ => false,
        }
    }
}

impl<'a, T> Value<&'a T> {
    /// Maps a `Value<&T>` to a `Value<T>` by copying the contents.
    pub fn copied(self) -> (r: Value<T>) where T: Copy
        ensures
            same_shape(self, r, |x: &T, y: T| y == *x),
    {
        match self {
            Value::Value(x) => Value::Value(*x),
            Value::Null => Value::Null,
            Value::Unknown => Value::Unknown,
        }
    }

    /// Maps a `Value<&T>` to a `Value<T>` by cloning the contents.
    pub fn cloned(self) -> (r: Value<T>) where T: Clone
        ensures
            same_shape(self, r, |x: &T, y: T| cloned::<T>(*x, y)),
    {
        match self {
            Value::Value(x) => Value::Value(x.clone()),
            Value::Null => Value::Null,
            Value::Unknown => Value::Unknown,
        }
    }
}

impl<'a, T> Value<&'a mut T> {
    /// Maps a `Value<&mut T>` to a `Value<T>` by copying the contents.
    pub fn copied(self) -> (r: Value<T>) where T: Copy
        ensures
            same_shape(self, r, |x: &mut T, y: T| y == *x),
    {
        match self {
            Value::Value(x) => Value::Value(*x),
            Value::Null => Value::Null,
            Value::Unknown => Value::Unknown,
        }
    }

    /// Maps a `Value<&mut T>` to a `Value<T>` by cloning the contents.
    pub fn cloned(self) -> (r: Value<T>) where T: Clone
        ensures
            same_shape(self, r, |x: &mut T, y: T| cloned::<T>(*x, y)),
    {
        match self {
            Value::Value(x) => Value::Value(x.clone()),
            Value::Null => Value::Null,
            Value::Unknown => Value::Unknown,
        }
    }
}

impl Value<String> {
    /// Get the string slice of the value, or `""` if it is null or unknown.
    pub fn as_str(&self) -> (r: &str)
        ensures
            r@ == value_str_view(*self),
    {
        match self {
            Value::Value(x) => x.as_str(),
            _ => {
                proof {
                    reveal_strlit("");
                }
                ""
            },
        }
    }

    /// Get the bytes of the value, or an empty slice if it is null or unknown.
    pub fn as_bytes(&self) -> (r: &[u8])
        ensures
            r@ == (match *self {
                Value::Value(x) => vstd::utf8::encode_utf8(x@),
                _ => Seq::<u8>::empty(),
            }),
    {
        match self {
            Value::Value(x) => x.as_str().as_bytes(),
            _ => &[],
        }
    }

    /// An owned value with the same content: the string is kept as it is, `Null` stays
    /// `Null` and `Unknown` stays `Unknown`.
    pub fn extend(self) -> (r: Value<String>)
        ensures
            r == self,
    {
        match self {
            Value::Value(s) => Value::Value(s),
            Value::Null => Value::Null,
            Value::Unknown => Value::Unknown,
        }
    }
}

impl<'a> Value<&'a String> {
    /// Get the string slice of the referenced value, or `""` if it is null or unknown.
    pub fn as_str(&self) -> (r: &'a str)
        ensures
            r@ == (match *self {
                Value::Value(x) => x@,
                _ => Seq::<char>::empty(),
            }),
    {
        match *self {
            Value::Value(x) => x.as_str(),
            _ => {
                proof {
                    reveal_strlit("");
                }
                ""
            },
        }
    }

    /// Get the bytes of the referenced value, or an empty slice if it is null or unknown.
    pub fn as_bytes(&self) -> (r: &'a [u8])
        ensures
            r@ == (match *self {
                Value::Value(x) => vstd::utf8::encode_utf8(x@),
                _ => Seq::<u8>::empty(),
            }),
    {
        match *self {
            Value::Value(x) => x.as_str().as_bytes(),
            _ => &[],
        }
    }
}

impl<T> From<Option<T>> for Value<T> {
    /// `Some(x)` gives `Value(x)`, `None` gives `Null`
    fn from(value: Option<T>) -> (r: Self) {
        match value {
            Some(x) => Value::Value(x),
            None => Value::Null,
        }
    }
}

impl<T> vstd::std_specs::convert::FromSpecImpl<Option<T>> for Value<T> {
    open spec fn obeys_from_spec() -> bool {
        true
    }

    open spec fn from_spec(v: Option<T>) -> Self {
        value_from_option(v)
    }
}

/// The [`Value`] of an [`Option`]: `Some(x)` gives `Value(x)`, `None` gives `Null`
pub open spec fn value_from_option<T>(o: Option<T>) -> Value<T> {
    match o {
        Some(x) => Value::Value(x),
        None => Value::Null,
    }
}

/// An [`Option`] converted into a [`Value`] and back is unchanged; a [`Value`] converted into
/// an [`Option`] and back is unchanged unless it was `Unknown`, which comes back `Null`
pub proof fn law_option_round_trip<T>(o: Option<T>, v: Value<T>)
    ensures
        value_as_option(value_from_option(o)) == o,
        !(v is Unknown) ==> value_from_option(value_as_option(v)) == v,
        v is Unknown ==> value_from_option(value_as_option(v)) is Null,
{
}

/// What a nullable block stored as a list gives back: no element gives `Null`, one element
/// gives that element, and more are refused
pub open spec fn value_of_list<T>(v: Seq<Value<T>>) -> Result<Value<T>, Seq<char>> {
    if v.len() == 0 {
        Ok(Value::Null)
    } else if v.len() == 1 {
        Ok(v[0])
    } else {
        Err("Try to store multiple elements in a single Value"@)
    }
}

/// The list of at most one element that stores a nullable value: its value when there is
/// one, no element for `Null` and `Unknown`
pub fn value_to_list<T>(value: Value<T>) -> (r: Vec<T>)
    ensures
        match value {
            Value::Value(x) => r@ == seq![x],
            _ => r@.len() == 0,
        },
{
    let mut out: Vec<T> = Vec::new();
    if let Value::Value(x) = value {
        out.push(x);
    }
    out
}

/// The nullable value stored as a list of at most one element (see [`value_of_list`])
pub fn value_from_list<T>(list: Vec<Value<T>>) -> (r: Result<Value<T>, String>)
    ensures
        match (r, value_of_list(list@)) {
            (Ok(x), Ok(y)) => x == y,
            (Err(e), Err(f)) => e@ == f,
            _ => false,
        },
{
    let mut list = list;
    if list.len() > 1 {
        return Err(String::from_str("Try to store multiple elements in a single Value"));
    }
    match list.pop() {
        Some(x) => Ok(x),
        None => Ok(Value::Null),
    }
}

/// A value that is not unknown, stored as a list and read back, is unchanged
pub proof fn law_list_round_trip<T>(v: Value<T>, stored: Seq<T>)
    requires
        !(v is Unknown),
        match v {
            Value::Value(x) => stored == seq![x],
            _ => stored.len() == 0,
        },
    ensures
        value_of_list(stored.map_values(|x: T| Value::Value(x))) == Ok::<Value<T>, Seq<char>>(v),
{
}

/// Dynamically typed value
#[derive(Debug)]
pub enum ValueAny {
    String(String),
    Number(i64),
    Bool(bool),
    List(Vec<ValueAny>),
    /// Map of values by key (`Map` in the Terraform type system)
    MapOf(std::collections::BTreeMap<String, ValueAny>),
    Null,
    Unknown,
}

/// A scalar that a decoder hands over for a dynamic value
#[derive(Debug)]
pub enum Scalar {
    Bool(bool),
    /// A signed integer, of any width
    Signed(i128),
    /// An unsigned integer, of any width
    Unsigned(u128),
    Char(char),
    Text(String),
    Bytes(Vec<u8>),
    /// A null (none or unit)
    Nothing,
}

/// Why a scalar gives no dynamic value
#[derive(Debug)]
pub enum ScalarError {
    /// An integer outside the range of `i64`
    OutOfRange,
    /// Bytes that are not UTF-8, with the text of the decoding error
    InvalidUtf8(String),
}

/// The text of the error of `std::str::from_utf8` on bytes that are not UTF-8
pub uninterp spec fn utf8_error_text(b: Seq<u8>) -> Seq<char>;

/// The text of UTF-8 bytes (`std::str::from_utf8`), the error given by its text.
///
/// Trusted: std documents that the bytes are accepted iff they are valid UTF-8, and then
/// decoded; the text of the error is named [`utf8_error_text`] of the bytes.
#[verifier::external_body]
pub(crate) fn utf8_text(bytes: &[u8]) -> (r: Result<String, String>)
    ensures
        r is Ok <==> vstd::utf8::valid_utf8(bytes@),
        r matches Ok(s) ==> s@ == vstd::utf8::decode_utf8(bytes@),
        r matches Err(e) ==> e@ == utf8_error_text(bytes@),
{
    match std::str::from_utf8(bytes) {
        Ok(text) => Ok(text.to_owned()),
        Err(err) => Err(err.to_string()),
    }
}

/// The text of one character (`char::to_string`).
///
/// Trusted: std documents that it is the string of that character alone.
#[verifier::external_body]
fn char_text(c: char) -> (r: String)
    ensures
        r@ == seq![c],
{
    c.to_string()
}

/// The dynamic value of a scalar: booleans and texts as they are, a character as a text of
/// one character, bytes as the text they encode in UTF-8, integers as numbers when they fit
/// in an `i64`, and null
pub fn value_any_from_scalar(s: Scalar) -> (r: Result<ValueAny, ScalarError>)
    ensures
        match s {
            Scalar::Bool(b) => r matches Ok(ValueAny::Bool(c)) && c == b,
            Scalar::Signed(v) => if i64::MIN <= v <= i64::MAX {
                r matches Ok(ValueAny::Number(n)) && n == v
            } else {
                r matches Err(ScalarError::OutOfRange)
            },
            Scalar::Unsigned(v) => if v <= i64::MAX {
                r matches Ok(ValueAny::Number(n)) && n == v
            } else {
                r matches Err(ScalarError::OutOfRange)
            },
            Scalar::Char(c) => r matches Ok(ValueAny::String(t)) && t@ == seq![c],
            Scalar::Text(t) => r matches Ok(ValueAny::String(u)) && u@ == t@,
            Scalar::Bytes(b) => if vstd::utf8::valid_utf8(b@) {
                r matches Ok(ValueAny::String(u)) && u@ == vstd::utf8::decode_utf8(b@)
            } else {
                r matches Err(ScalarError::InvalidUtf8(e)) && e@ == utf8_error_text(b@)
            },
            Scalar::Nothing => r matches Ok(ValueAny::Null),
        },
{
    match s {
        Scalar::Bool(b) => Ok(ValueAny::Bool(b)),
        Scalar::Signed(v) => if i64::MIN as i128 <= v && v <= i64::MAX as i128 {
            Ok(ValueAny::Number(v as i64))
        } else {
            Err(ScalarError::OutOfRange)
        },
        Scalar::Unsigned(v) => if v <= i64::MAX as u128 {
            Ok(ValueAny::Number(v as i64))
        } else {
            Err(ScalarError::OutOfRange)
        },
        Scalar::Char(c) => Ok(ValueAny::String(char_text(c))),
        Scalar::Text(t) => Ok(ValueAny::String(t)),
        Scalar::Bytes(b) => match utf8_text(b.as_slice()) {
            Ok(t) => Ok(ValueAny::String(t)),
            Err(e) => Err(ScalarError::InvalidUtf8(e)),
        },
        Scalar::Nothing => Ok(ValueAny::Null),
    }
}

impl Default for ValueAny {
    /// The default dynamic value is `Null`
    fn default() -> (r: Self)
        ensures
            r is Null,
    {
        ValueAny::Null
    }
}

/// Struct without any field
#[derive(Copy, Clone, PartialEq, PartialOrd, Eq, Ord, Debug, Hash, Default)]
pub struct StructEmpty {}

pub type ValueEmpty = Value<StructEmpty>;
pub type ValueString = Value<String>;
pub type ValueNumber = Value<i64>;
pub type ValueBool = Value<bool>;
pub type ValueList<T> = Value<Vec<T>>;

/// The characters of a string value: those of the string, or none if it is null or unknown.
pub open spec fn value_str_view(v: Value<String>) -> Seq<char> {
    match v {
        Value::Value(x) => x@,
        _ => Seq::<char>::empty(),
    }
}

/// Iterator over a reference to the content of a [`Value`]: yields at most one item.
#[derive(Debug)]
pub struct Iter<'a, A: 'a> {
    pub val: Value<&'a A>,
}

impl<'a, A> Iter<'a, A> {
    /// Yields the contained reference once, then `None`.
    pub fn next(&mut self) -> (r: Option<&'a A>)
        ensures
            r == value_as_option(old(self).val),
            final(self).val is Null,
    {
        self.val.take().as_option()
    }

    /// Number of items left: exactly `(1, Some(1))` while a value is held, `(0, Some(0))` otherwise.
    pub fn size_hint(&self) -> (r: (usize, Option<usize>))
        ensures
            r == (if self.val is Value {
                (1usize, Some(1usize))
            } else {
                (0usize, Some(0usize))
            }),
    {
        match self.val {
            Value::Value(_) => (1, Some(1)),
            _ => (0, Some(0)),
        }
    }
}

/// Iterator over a mutable reference to the content of a [`Value`]: yields at most one item.
#[derive(Debug)]
pub struct IterMut<'a, A: 'a> {
    pub val: Value<&'a mut A>,
}

impl<'a, A> IterMut<'a, A> {
    /// Yields the contained mutable reference once, then `None`.
    pub fn next(&mut self) -> (r: Option<&'a mut A>)
        ensures
            r == value_as_option(old(self).val),
            final(self).val is Null,
    {
        self.val.take().as_option()
    }
}

/// Consuming iterator over the content of a [`Value`]: yields at most one item.
#[derive(Debug)]
pub struct IntoIter<A> {
    pub val: Value<A>,
}

impl<A> IntoIter<A> {
    /// Yields the contained value once, then `None`.
    pub fn next(&mut self) -> (r: Option<A>)
        ensures
            r == value_as_option(old(self).val),
            final(self).val is Null,
    {
        self.val.take().as_option()
    }

    /// Number of items left: exactly `(1, Some(1))` while a value is held, `(0, Some(0))` otherwise.
    pub fn size_hint(&self) -> (r: (usize, Option<usize>))
        ensures
            r == (if self.val is Value {
                (1usize, Some(1usize))
            } else {
                (0usize, Some(0usize))
            }),
    {
        match self.val {
            Value::Value(_) => (1, Some(1)),
            _ => (0, Some(0)),
        }
    }
}

} // verus!
