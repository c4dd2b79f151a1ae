use vstd::prelude::*;

use crate::parser::Parser;

verus! {

/// What `Mapped` makes of the outcome `r1` of its inner parser: the same state
/// and a value that `f` returns for the inner value, or the same error.
pub open spec fn map_step<S, V, W, E, F: Fn(V) -> W>(
    r1: Result<(S, V), E>,
    f: F,
    r: Result<(S, W), E>,
) -> bool {
    match r1 {
        Ok((s1, v)) => match r {
            Ok((s, w)) => s == s1 && f.ensures((v,), w),
            Err(_) => false,
        },
        Err(e) => r == Err::<(S, W), E>(e),
    }
}

/// Applies `f` to the value of `parser`.
pub struct Mapped<P, F> {
    pub parser: P,
    pub f: F,
}

impl<T, P: Parser, F> Mapped<P, F> where F: Fn(P::Value) -> T {
    /// The outcomes that running this parser from `state` may have.
    pub open spec fn outcome(&self, state: P::State, result: Result<(P::State, T), P::Error>) -> bool {
        exists|r1: Result<(P::State, P::Value), P::Error>|
            #[trigger] self.parser.yields(state, r1) && map_step(r1, self.f, result)
    }

    pub fn new(parser: P, f: F) -> (r: Self)
        ensures
            r.parser == parser,
            r.f == f,
    {
        Mapped { parser, f }
    }
}

impl<T, P: Parser, F> Parser for Mapped<P, F> where F: Fn(P::Value) -> T {
    type Value = T;

    type State = P::State;

    type Error = P::Error;

    open spec fn ready(&self) -> bool {
        &&& self.parser.ready()
        &&& forall|v: P::Value| self.f.requires((v,))
    }

    open spec fn yields(&self, state: P::State, result: Result<(P::State, T), P::Error>) -> bool {
        self.outcome(state, result)
    }

    fn do_pars(&self, state: P::State) -> (result: Result<(P::State, T), P::Error>) {
        let r1 = self.parser.do_pars(state);
        let ghost g1 = r1;
        let result = match r1 {
            Ok((new_state, t1)) => {
                let t = (self.f)(t1);
                Ok((new_state, t))
            },
            Err(e) => Err(e),
        };
        assert(map_step(g1, self.f, result));
        result
    }
}

/// What `Map2` makes of the outcome `r2` of its second parser, given the value
/// `v1` of the first: the same state and a value that `f` returns for both
/// values, or the same error.
pub open spec fn map2_step<S, V1, V2, W, E, F: Fn(V1, V2) -> W>(
    v1: V1,
    r2: Result<(S, V2), E>,
    f: F,
    r: Result<(S, W), E>,
) -> bool {
    match r2 {
        Ok((s2, v2)) => match r {
            Ok((s, w)) => s == s2 && f.ensures((v1, v2), w),
            Err(_) => false,
        },
        Err(e) => r == Err::<(S, W), E>(e),
    }
}

/// Runs `parser1`, then `parser2` on the state it leaves, and combines the two
/// values with `f`. A failure of `parser1` is the outcome, and `parser2` does
/// not run.
pub struct Map2<P1, P2, F> {
    pub parser1: P1,
    pub parser2: P2,
    pub f: F,
}

impl<T, P1: Parser, P2, F> Map2<P1, P2, F> where
    F: Fn(P1::Value, P2::Value) -> T,
    P2: Parser<State = P1::State, Error = P1::Error>,
 {
    /// The outcomes that running this parser from `state` may have.
    pub open spec fn outcome(&self, state: P1::State, result: Result<(P1::State, T), P1::Error>) -> bool {
        exists|r1: Result<(P1::State, P1::Value), P1::Error>|
            #[trigger] self.parser1.yields(state, r1) && match r1 {
                Err(e) => result == Err::<(P1::State, T), P1::Error>(e),
                Ok((s1, v1)) => exists|r2: Result<(P1::State, P2::Value), P1::Error>|
                    #[trigger] self.parser2.yields(s1, r2) && map2_step(v1, r2, self.f, result),
            }
    }

    pub fn new(parser1: P1, parser2: P2, f: F) -> (r: Self)
        ensures
            r.parser1 == parser1,
            r.parser2 == parser2,
            r.f == f,
    {
        Map2 { parser1, parser2, f }
    }
}

impl<T, P1: Parser, P2, F> Parser for Map2<P1, P2, F> where
    F: Fn(P1::Value, P2::Value) -> T,
    P2: Parser<State = P1::State, Error = P1::Error>,
 {
    type Value = T;

    type State = P1::State;

    type Error = P1::Error;

    open spec fn ready(&self) -> bool {
        &&& self.parser1.ready()
        &&& self.parser2.ready()
        &&& forall|v1: P1::Value, v2: P2::Value| self.f.requires((v1, v2))
    }

    open spec fn yields(&self, state: P1::State, result: Result<(P1::State, T), P1::Error>) -> bool {
        self.outcome(state, result)
    }

    fn do_pars(&self, state: P1::State) -> (result: Result<(P1::State, T), P1::Error>) {
        let r1 = self.parser1.do_pars(state);
        match r1 {
            Err(e) => Err(e),
            Ok((state2, v1)) => {
                let ghost gv1 = v1;
                let r2 = self.parser2.do_pars(state2);
                let ghost g2 = r2;
                let result = match r2 {
                    Ok((new_state, v2)) => {
                        let t = (self.f)(v1, v2);
                        Ok((new_state, t))
                    },
                    Err(e) => Err(e),
                };
                assert(map2_step(gv1, g2, self.f, result));
                result
            },
        }
    }
}

/// Runs `parser1`, whose value is a function, then `parser2`, and applies the
/// function to the value of `parser2`.
pub struct Keep<P1, P2> {
    pub parser1: P1,
    pub parser2: P2,
}

impl<T, P1, P2, G> Keep<P1, P2> where
    P1: Parser<Value = G>,
    G: Fn(P2::Value) -> T,
    P2: Parser<State = P1::State, Error = P1::Error>,
 {
    /// The outcomes that running this parser from `state` may have.
    pub open spec fn outcome(&self, state: P1::State, result: Result<(P1::State, T), P1::Error>) -> bool {
        exists|r1: Result<(P1::State, G), P1::Error>|
            #[trigger] self.parser1.yields(state, r1) && match r1 {
                Err(e) => result == Err::<(P1::State, T), P1::Error>(e),
                Ok((s1, g)) => exists|r2: Result<(P1::State, P2::Value), P1::Error>|
                    #[trigger] self.parser2.yields(s1, r2) && keep_step(g, r2, result),
            }
    }

    pub fn new(parser1: P1, parser2: P2) -> (r: Self)
        ensures
            r.parser1 == parser1,
            r.parser2 == parser2,
    {
        Keep { parser1, parser2 }
    }
}

/// What `Keep` makes of the outcome `r2` of its second parser, given the
/// function `g` that the first one returned.
pub open spec fn keep_step<S, A, T, E, G: Fn(A) -> T>(
    g: G,
    r2: Result<(S, A), E>,
    r: Result<(S, T), E>,
) -> bool {
    match r2 {
        Ok((s2, a)) => match r {
            Ok((s, t)) => s == s2 && g.ensures((a,), t),
            Err(_) => false,
        },
        Err(e) => r == Err::<(S, T), E>(e),
    }
}

impl<T, P1, P2, G> Parser for Keep<P1, P2> where
    P1: Parser<Value = G>,
    G: Fn(P2::Value) -> T,
    P2: Parser<State = P1::State, Error = P1::Error>,
 {
    type Value = T;

    type State = P1::State;

    type Error = P1::Error;

    open spec fn ready(&self) -> bool {
        &&& self.parser1.ready()
        &&& self.parser2.ready()
        &&& forall|s: P1::State, s1: P1::State, g: G, a: P2::Value|
            #[trigger] self.parser1.yields(s, Ok((s1, g))) ==> #[trigger] g.requires((a,))
    }

    open spec fn yields(&self, state: P1::State, result: Result<(P1::State, T), P1::Error>) -> bool {
        self.outcome(state, result)
    }

    fn do_pars(&self, state: P1::State) -> (result: Result<(P1::State, T), P1::Error>) {
        let ghost s0 = state;
        let r1 = self.parser1.do_pars(state);
        match r1 {
            Err(e) => Err(e),
            Ok((state2, g)) => {
                let ghost gs2 = state2;
                let r2 = self.parser2.do_pars(state2);
                let ghost g2 = r2;
                let result = match r2 {
                    Ok((new_state, a)) => {
                        assert(self.parser1.yields(s0, Ok((gs2, g))));
                        let t = g(a);
                        Ok((new_state, t))
                    },
                    Err(e) => Err(e),
                };
                assert(keep_step(g, g2, result));
                result
            },
        }
    }
}

/// What `Ignore` makes of the outcome `r2` of its second parser, given the
/// value `v1` of the first: that value on the state that `r2` leaves.
pub open spec fn ignore_step<S, V1, V2, E>(
    v1: V1,
    r2: Result<(S, V2), E>,
    r: Result<(S, V1), E>,
) -> bool {
    match r2 {
        Ok((s2, _)) => r == Ok::<(S, V1), E>((s2, v1)),
        Err(e) => r == Err::<(S, V1), E>(e),
    }
}

/// Runs `parser1`, then `parser2`, and keeps the value of `parser1`.
pub struct Ignore<P1, P2> {
    pub parser1: P1,
    pub parser2: P2,
}

impl<P1: Parser, P2: Parser<State = P1::State, Error = P1::Error>> Ignore<P1, P2> {
    /// The outcomes that running this parser from `state` may have.
    pub open spec fn outcome(
        &self,
        state: P1::State,
        result: Result<(P1::State, P1::Value), P1::Error>,
    ) -> bool {
        exists|r1: Result<(P1::State, P1::Value), P1::Error>|
            #[trigger] self.parser1.yields(state, r1) && match r1 {
                Err(e) => result == Err::<(P1::State, P1::Value), P1::Error>(e),
                Ok((s1, v1)) => exists|r2: Result<(P1::State, P2::Value), P1::Error>|
                    #[trigger] self.parser2.yields(s1, r2) && ignore_step(v1, r2, result),
            }
    }

    pub fn new(parser1: P1, parser2: P2) -> (r: Self)
        ensures
            r.parser1 == parser1,
            r.parser2 == parser2,
    {
        Ignore { parser1, parser2 }
    }
}

impl<P1: Parser, P2: Parser<State = P1::State, Error = P1::Error>> Parser for Ignore<P1, P2> {
    type Value = P1::Value;

    type State = P1::State;

    type Error = P1::Error;

    open spec fn ready(&self) -> bool {
        &&& self.parser1.ready()
        &&& self.parser2.ready()
    }

    open spec fn yields(
        &self,
        state: P1::State,
        result: Result<(P1::State, P1::Value), P1::Error>,
    ) -> bool {
        self.outcome(state, result)
    }

    fn do_pars(&self, state: P1::State) -> (result: Result<(P1::State, P1::Value), P1::Error>) {
        let r1 = self.parser1.do_pars(state);
        match r1 {
            Err(e) => Err(e),
            Ok((state2, v1)) => {
                let ghost gv1 = v1;
                let r2 = self.parser2.do_pars(state2);
                let ghost g2 = r2;
                let result = match r2 {
                    Ok((new_state, _)) => Ok((new_state, v1)),
                    Err(e) => Err(e),
                };
                assert(ignore_step(gv1, g2, result));
                result
            },
        }
    }
}

/// Runs `inner`, whose value is a parser, and then that parser on the state
/// that `inner` leaves.
pub struct Flatten<P> {
    pub inner: P,
}

impl<P1: Parser, P2> Flatten<P2> where P2: Parser<Value = P1, State = P1::State, Error = P1::Error> {
    /// The outcomes that running this parser from `state` may have.
    pub open spec fn outcome(
        &self,
        state: P1::State,
        result: Result<(P1::State, P1::Value), P1::Error>,
    ) -> bool {
        exists|r1: Result<(P1::State, P1), P1::Error>|
            #[trigger] self.inner.yields(state, r1) && match r1 {
                Err(e) => result == Err::<(P1::State, P1::Value), P1::Error>(e),
                Ok((s1, p)) => p.yields(s1, result),
            }
    }

    pub fn new(parser: P2) -> (r: Self)
        ensures
            r.inner == parser,
    {
        Flatten { inner: parser }
    }
}

impl<P1: Parser, P2> Parser for Flatten<P2> where
    P2: Parser<Value = P1, State = P1::State, Error = P1::Error>,
 {
    type Value = P1::Value;

    type State = P1::State;

    type Error = P1::Error;

    open spec fn ready(&self) -> bool {
        &&& self.inner.ready()
        &&& forall|s: P1::State, s1: P1::State, p: P1|
            #[trigger] self.inner.yields(s, Ok((s1, p))) ==> p.ready()
    }

    open spec fn yields(
        &self,
        state: P1::State,
        result: Result<(P1::State, P1::Value), P1::Error>,
    ) -> bool {
        self.outcome(state, result)
    }

    fn do_pars(&self, state: P1::State) -> (result: Result<(P1::State, P1::Value), P1::Error>) {
        let ghost s0 = state;
        let r1 = self.inner.do_pars(state);
        match r1 {
            Err(e) => Err(e),
            Ok((new_state, p1)) => {
                assert(self.inner.yields(s0, Ok((new_state, p1))));
                p1.do_pars(new_state)
            },
        }
    }
}

/// The parser that `parser.flat_map(f)` builds.
pub open spec fn flat_map_of<P, F>(parser: P, f: F) -> FlatMap<P, F> {
    FlatMap { inner: Flatten { inner: Mapped { parser, f } } }
}

/// Runs `parser`, builds a parser from its value with `f`, and runs that one
/// on the state that `parser` leaves: `parser.map(f).flatten()`.
pub struct FlatMap<P, F> {
    pub inner: Flatten<Mapped<P, F>>,
}

impl<P1: Parser, P2, F> FlatMap<P1, F> where
    P2: Parser<State = P1::State, Error = P1::Error>,
    F: Fn(P1::Value) -> P2,
 {
    pub fn new(parser: P1, f: F) -> (r: Self)
        ensures
            r.inner.inner.parser == parser,
            r.inner.inner.f == f,
    {
        FlatMap { inner: Flatten::new(Mapped::new(parser, f)) }
    }
}

impl<P1: Parser, P2, F> Parser for FlatMap<P1, F> where
    P2: Parser<State = P1::State, Error = P1::Error>,
    F: Fn(P1::Value) -> P2,
 {
    type Value = P2::Value;

    type State = P1::State;

    type Error = P1::Error;

    open spec fn ready(&self) -> bool {
        self.inner.ready()
    }

    open spec fn yields(
        &self,
        state: P1::State,
        result: Result<(P1::State, P2::Value), P1::Error>,
    ) -> bool {
        self.inner.yields(state, result)
    }

    fn do_pars(&self, state: P1::State) -> (result: Result<(P1::State, P2::Value), P1::Error>) {
        self.inner.do_pars(state)
    }
}

} // verus!
