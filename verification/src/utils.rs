//! Helpers on options: gathering several options into one, spreading one into several,
//! and reporting a missing result in diagnostics.

use vstd::prelude::*;

use crate::diagnostics::{one_more_error, Diagnostics};

verus! {

/// Turn a tuple of options into an option of a tuple: `Some` when every component is `Some`
pub trait OptionFactor {
    type Output;

    fn factor(self) -> Self::Output;
}

/// Turn an option of a tuple into a tuple of options: all `None` when the option is `None`
pub trait OptionExpand {
    type Output;

    fn expand(self) -> Self::Output;
}

/// Report in diagnostics that a result is missing
pub trait CollectDiagnostics {
    type Output;

    fn collect_diagnostics(self, diags: &mut Diagnostics) -> Self::Output;
}

impl<T> CollectDiagnostics for Option<T> {
    type Output = Self;

    /// A `None` with no error reported yet gets the root error "Internal error"
    fn collect_diagnostics(self, diags: &mut Diagnostics) -> (r: Self::Output)
        ensures
            r == self,
            (self is None && old(diags)@.errors.len() == 0) ==> one_more_error(
                old(diags)@,
                final(diags)@,
                "Internal error"@,
                Seq::empty(),
                Seq::empty(),
            ),
            !(self is None && old(diags)@.errors.len() == 0) ==> final(diags)@ == old(diags)@,
    {
        if self.is_none() && diags.errors.len() == 0 {
            diags.root_error_short("Internal error");
        }
        self
    }
}

impl<T> CollectDiagnostics for Result<T, String> {
    type Output = Option<T>;

    /// An error is reported as the root error "Internal error" with the message as detail
    fn collect_diagnostics(self, diags: &mut Diagnostics) -> (r: Self::Output)
        ensures
            match self {
                Ok(v) => r == Some(v) && final(diags)@ == old(diags)@,
                Err(e) => r is None && one_more_error(
                    old(diags)@,
                    final(diags)@,
                    "Internal error"@,
                    e@,
                    Seq::empty(),
                ),
            },
    {
        match self {
            Ok(value) => Some(value),
            Err(err) => {
                diags.root_error("Internal error", err.as_str());
                None
            },
        }
    }
}

impl<A, B> OptionFactor for (Option<A>, Option<B>) {
    type Output = Option<(A, B)>;

    fn factor(self) -> (r: Self::Output)
        ensures
            r == (match self {
                (Some(a), Some(b)) => Some((a, b)),
                _ => None,
            }),
    {
        match self {
            (Some(a), Some(b)) => Some((a, b)),
            _ => None,
        }
    }
}

impl<A, B, C> OptionFactor for (Option<A>, Option<B>, Option<C>) {
    type Output = Option<(A, B, C)>;

    fn factor(self) -> (r: Self::Output)
        ensures
            r == (match self {
                (Some(a), Some(b), Some(c)) => Some((a, b, c)),
                _ => None,
            }),
    {
        match self {
            (Some(a), Some(b), Some(c)) => Some((a, b, c)),
            _ => None,
        }
    }
}

impl<A, B, C, D> OptionFactor for (Option<A>, Option<B>, Option<C>, Option<D>) {
    type Output = Option<(A, B, C, D)>;

    fn factor(self) -> (r: Self::Output)
        ensures
            r == (match self {
                (Some(a), Some(b), Some(c), Some(d)) => Some((a, b, c, d)),
                _ => None,
            }),
    {
        match self {
            (Some(a), Some(b), Some(c), Some(d)) => Some((a, b, c, d)),
            _ => None,
        }
    }
}

impl<A, B, C, D, E> OptionFactor for (Option<A>, Option<B>, Option<C>, Option<D>, Option<E>) {
    type Output = Option<(A, B, C, D, E)>;

    fn factor(self) -> (r: Self::Output)
        ensures
            r == (match self {
                (Some(a), Some(b), Some(c), Some(d), Some(e)) => Some((a, b, c, d, e)),
                _ => None,
            }),
    {
        match self {
            (Some(a), Some(b), Some(c), Some(d), Some(e)) => Some((a, b, c, d, e)),
            _ => None,
        }
    }
}

impl<A, B> OptionExpand for Option<(A, B)> {
    type Output = (Option<A>, Option<B>);

    fn expand(self) -> (r: Self::Output)
        ensures
            r == (match self {
                Some((a, b)) => (Some(a), Some(b)),
                None => (None, None),
            }),
    {
        match self {
            Some((a, b)) => (Some(a), Some(b)),
            None => (None, None),
        }
    }
}

impl<A, B, C> OptionExpand for Option<(A, B, C)> {
    type Output = (Option<A>, Option<B>, Option<C>);

    fn expand(self) -> (r: Self::Output)
        ensures
            r == (match self {
                Some((a, b, c)) => (Some(a), Some(b), Some(c)),
                None => (None, None, None),
            }),
    {
        match self {
            Some((a, b, c)) => (Some(a), Some(b), Some(c)),
            None => (None, None, None),
        }
    }
}

} // verus!
