use core::marker::PhantomData;
use vstd::prelude::*;

use crate::adapter::{FlatMap, Flatten, Ignore, Keep, Map2, Mapped};

verus! {

/// A parser turns a state into a new state and a value, or fails with an error.
///
/// `ready` says that every function the parser holds accepts whatever it may be
/// handed; `yields(s, r)` says that `r` is an outcome that running the parser on
/// `s` may have. The functions held by a parser are closures, which Verus treats
/// as relations, so `yields` is a relation too.
pub trait Parser: Sized {
    type Value;

    type State;

    type Error;

    /// By default nothing is known: a parser may need anything, and may have
    /// any outcome.
    open spec fn ready(&self) -> bool {
        true
    }

    open spec fn yields(
        &self,
        state: Self::State,
        result: Result<(Self::State, Self::Value), Self::Error>,
    ) -> bool {
        true
    }

    fn do_pars(&self, state: Self::State) -> (result: Result<(Self::State, Self::Value), Self::Error>)
        requires
            self.ready(),
        ensures
            self.yields(state, result),
    ;
}

/// The ways of building a parser out of this one; every parser has them.
pub trait Combinators: Parser {
    /// Runs `self`, builds a parser from its value with `f` and runs that one
    /// on the state that `self` leaves.
    fn flat_map<P, F>(self, f: F) -> (r: FlatMap<Self, F>) where
        P: Parser<State = Self::State, Error = Self::Error>,
        F: Fn(Self::Value) -> P,
        ensures
            r.inner.inner.parser == self,
            r.inner.inner.f == f,
    ;

    /// Transforms the value of a successful parse with `f`.
    fn map<T2, F>(self, f: F) -> (r: Mapped<Self, F>) where F: Fn(Self::Value) -> T2
        ensures
            r.parser == self,
            r.f == f,
    ;

    /// Runs `self`, then `parser`, and combines both values with `f`.
    fn map2<T2, P, F>(self, parser: P, f: F) -> (r: Map2<Self, P, F>) where
        F: Fn(Self::Value, P::Value) -> T2,
        P: Parser<State = Self::State, Error = Self::Error>,
        ensures
            r.parser1 == self,
            r.parser2 == parser,
            r.f == f,
    ;

    /// Runs `self`, whose value is a function, then `arg_parser`, and applies
    /// the function to the value of `arg_parser`.
    fn keep<P>(self, arg_parser: P) -> (r: Keep<Self, P>) where
        P: Parser<State = Self::State, Error = Self::Error>,
        ensures
            r.parser1 == self,
            r.parser2 == arg_parser,
    ;

    /// Runs `self`, then `ignore_parser`, and keeps the value of `self`.
    fn ignore<P>(self, ignore_parser: P) -> (r: Ignore<Self, P>) where
        P: Parser<State = Self::State, Error = Self::Error>,
        ensures
            r.parser1 == self,
            r.parser2 == ignore_parser,
    ;

    /// Runs `self`, whose value is a parser, and then that parser.
    fn flatten(self) -> (r: Flatten<Self>)
        ensures
            r.inner == self,
    ;
}

impl<Q: Parser> Combinators for Q {
    fn flat_map<P, F>(self, f: F) -> (r: FlatMap<Self, F>) where
        P: Parser<State = Self::State, Error = Self::Error>,
        F: Fn(Self::Value) -> P,
    {
        FlatMap { inner: Flatten { inner: Mapped { parser: self, f } } }
    }

    fn map<T2, F>(self, f: F) -> (r: Mapped<Self, F>) where F: Fn(Self::Value) -> T2 {
        Mapped { parser: self, f }
    }

    fn map2<T2, P, F>(self, parser: P, f: F) -> (r: Map2<Self, P, F>) where
        F: Fn(Self::Value, P::Value) -> T2,
        P: Parser<State = Self::State, Error = Self::Error>,
    {
        Map2 { parser1: self, parser2: parser, f }
    }

    fn keep<P>(self, arg_parser: P) -> (r: Keep<Self, P>) where
        P: Parser<State = Self::State, Error = Self::Error>,
    {
        Keep { parser1: self, parser2: arg_parser }
    }

    fn ignore<P>(self, ignore_parser: P) -> (r: Ignore<Self, P>) where
        P: Parser<State = Self::State, Error = Self::Error>,
    {
        Ignore { parser1: self, parser2: ignore_parser }
    }

    fn flatten(self) -> (r: Flatten<Self>) {
        Flatten { inner: self }
    }
}

/// The parser that consumes nothing and always succeeds with a clone of `value`.
pub struct Succeed<S, T: Clone, E> {
    pub value: T,
    pub state_type: PhantomData<S>,
    pub error_type: PhantomData<E>,
}

impl<S, T: Clone, E> Succeed<S, T, E> {
    pub fn with(value: T) -> (r: Self)
        ensures
            r.value == value,
    {
        Succeed { value, state_type: PhantomData, error_type: PhantomData }
    }
}

impl<S, T: Clone, E> Clone for Succeed<S, T, E> {
    fn clone(&self) -> (r: Self)
        ensures
            cloned(self.value, r.value),
    {
        Succeed { value: self.value.clone(), state_type: PhantomData, error_type: PhantomData }
    }
}

impl<T: Clone, S, E> Parser for Succeed<S, T, E> {
    type Value = T;

    type State = S;

    type Error = E;

    open spec fn ready(&self) -> bool {
        true
    }

    open spec fn yields(&self, state: S, result: Result<(S, T), E>) -> bool {
        match result {
            Ok((s, v)) => s == state && cloned(self.value, v),
            Err(_) => false,
        }
    }

    fn do_pars(&self, state: S) -> (result: Result<(S, T), E>) {
        Ok((state, self.value.clone()))
    }
}

} // verus!
