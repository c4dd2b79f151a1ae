use vstd::prelude::*;

use crate::adapter::{flat_map_of, map_step, FlatMap, Map2, Mapped};
use crate::location::Location;
use crate::parser::{Parser, Succeed};
use crate::text_parser::Chop;
use crate::text_state::{lemma_location_monotonic, location_after, max_text_len, TextState};

verus! {

/// `Succeed::with(v).map(f)` reads nothing and succeeds, from any state, with
/// what `f` makes of a clone of `v`; it has no other outcome.
pub proof fn lemma_succeed_map<S, T: Clone, E, U, F: Fn(T) -> U>(
    p: Succeed<S, T, E>,
    f: F,
    s: S,
    r: Result<(S, U), E>,
)
    ensures
        (Mapped { parser: p, f }).yields(s, r) <==> (r is Ok && r->Ok_0.0 == s && exists|v2: T|
            cloned(p.value, v2) && #[trigger] f.ensures((v2,), r->Ok_0.1)),
{
    let m = Mapped { parser: p, f };
    if m.yields(s, r) {
        let r1 = choose|r1: Result<(S, T), E>| #[trigger] p.yields(s, r1) && map_step(r1, f, r);
        let v2 = r1->Ok_0.1;
        assert(cloned(p.value, v2) && f.ensures((v2,), r->Ok_0.1));
    }
    if r is Ok && r->Ok_0.0 == s && exists|v2: T|
        cloned(p.value, v2) && #[trigger] f.ensures((v2,), r->Ok_0.1) {
        let v2 = choose|v2: T| cloned(p.value, v2) && #[trigger] f.ensures((v2,), r->Ok_0.1);
        let r1 = Ok::<(S, T), E>((s, v2));
        assert(p.yields(s, r1) && map_step(r1, f, r));
        assert(exists|x: Result<(S, T), E>| p.yields(s, x) && map_step(x, f, r));
        assert(m.parser == p && m.f == f);
        assert(m.outcome(s, r));
        assert(m.yields(s, r));
    }
}

/// Where cloning `v` gives `v` back (as for integers), `Succeed::with(v).map(f)`
/// reads nothing and succeeds, from any state, with what `f` makes of `v`
/// itself; it has no other outcome.
pub proof fn lemma_succeed_map_exact<S, T: Clone, E, U, F: Fn(T) -> U>(
    p: Succeed<S, T, E>,
    f: F,
    s: S,
    r: Result<(S, U), E>,
)
    requires
        forall|v2: T| #[trigger] cloned(p.value, v2) ==> v2 == p.value,
    ensures
        (Mapped { parser: p, f }).yields(s, r) <==> (r is Ok && r->Ok_0.0 == s && f.ensures(
            (p.value,),
            r->Ok_0.1,
        )),
{
    lemma_succeed_map(p, f, s, r);
    if r is Ok && r->Ok_0.0 == s && f.ensures((p.value,), r->Ok_0.1) {
        assert(cloned(p.value, p.value));
    }
}

/// When the first parser of `map2` fails on `s` with `e`, the combination
/// fails on `s` with `e` too, and has no other outcome, whatever the second
/// parser and the function are.
pub proof fn lemma_map2_short_circuit<P1, P2, T, F>(p: Map2<P1, P2, F>, s: P1::State, e: P1::Error) where
    P1: Parser,
    P2: Parser<State = P1::State, Error = P1::Error>,
    F: Fn(P1::Value, P2::Value) -> T,

    requires
        p.parser1.yields(s, Err(e)),
        forall|r1: Result<(P1::State, P1::Value), P1::Error>|
            #[trigger] p.parser1.yields(s, r1) ==> r1 == Err::<(P1::State, P1::Value), P1::Error>(e),
    ensures
        forall|r: Result<(P1::State, T), P1::Error>|
            #[trigger] p.yields(s, r) <==> r == Err::<(P1::State, T), P1::Error>(e),
{
    assert forall|r: Result<(P1::State, T), P1::Error>|
        #[trigger] p.yields(s, r) <==> r == Err::<(P1::State, T), P1::Error>(e) by {
        if r == Err::<(P1::State, T), P1::Error>(e) {
            assert(p.parser1.yields(s, Err(e)));
        }
    }
}

/// Flat-mapping is associative: `p.flat_map(f).flat_map(g)` has the same
/// outcomes from every state as `p.flat_map(h)`, where `h` builds
/// `f(v).flat_map(g)` from `v`.
pub proof fn lemma_flat_map_associative<P, Q, R, F, G, H>(
    p: P,
    f: F,
    g: G,
    h: H,
    s: P::State,
    r: Result<(P::State, R::Value), P::Error>,
) where
    P: Parser,
    Q: Parser<State = P::State, Error = P::Error>,
    R: Parser<State = P::State, Error = P::Error>,
    F: Fn(P::Value) -> Q,
    G: Fn(Q::Value) -> R,
    H: Fn(P::Value) -> FlatMap<Q, G>,

    requires
        forall|v: P::Value, k: FlatMap<Q, G>|
            #[trigger] h.ensures((v,), k) ==> exists|q: Q| #[trigger]
                f.ensures((v,), q) && k == flat_map_of(q, g),
        forall|v: P::Value, q: Q| #[trigger]
            f.ensures((v,), q) ==> h.ensures((v,), flat_map_of(q, g)),
    ensures
        flat_map_of(flat_map_of(p, f), g).yields(s, r) <==> flat_map_of(p, h).yields(s, r),
{
    let pf = flat_map_of(p, f);
    let a = flat_map_of(pf, g);
    let b = flat_map_of(p, h);
    let mf = Mapped { parser: p, f };
    let mg = Mapped { parser: pf, f: g };
    let mh = Mapped { parser: p, f: h };
    assert(mf.parser == p && mf.f == f && mh.parser == p && mh.f == h);
    assert(mg.parser == pf && mg.f == g && a.inner.inner == mg && b.inner.inner == mh);
    assert(pf.inner.inner == mf);
    if a.yields(s, r) {
        let r1 = choose|r1: Result<(P::State, R), P::Error>|
            #[trigger] mg.yields(s, r1) && match r1 {
                Err(e) => r == Err::<(P::State, R::Value), P::Error>(e),
                Ok((s1, q2)) => q2.yields(s1, r),
            };
        let r0 = choose|r0: Result<(P::State, Q::Value), P::Error>|
            #[trigger] pf.yields(s, r0) && map_step(r0, g, r1);
        let ra = choose|ra: Result<(P::State, Q), P::Error>|
            #[trigger] mf.yields(s, ra) && match ra {
                Err(e) => r0 == Err::<(P::State, Q::Value), P::Error>(e),
                Ok((s1, q)) => q.yields(s1, r0),
            };
        let rp = choose|rp: Result<(P::State, P::Value), P::Error>|
            #[trigger] p.yields(s, rp) && map_step(rp, f, ra);
        match rp {
            Err(e) => {
                let rb = Err::<(P::State, FlatMap<Q, G>), P::Error>(e);
                assert(p.yields(s, rp));
                assert(map_step(rp, h, rb));
                assert(p.yields(s, rp) && map_step(rp, h, rb));
                assert(mh.yields(s, rb));
                assert(b.inner.yields(s, r));
            },
            Ok((s1, v)) => {
                let q = ra->Ok_0.1;
                let k = flat_map_of(q, g);
                let rb = Ok::<(P::State, FlatMap<Q, G>), P::Error>((s1, k));
                assert(f.ensures((v,), q));
                assert(map_step(rp, h, rb));
                assert(mh.yields(s, rb));
                let mq = Mapped { parser: q, f: g };
                assert(mq.parser == q && mq.f == g && k.inner.inner == mq);
                assert(q.yields(s1, r0) && map_step(r0, g, r1));
                assert(mq.yields(s1, r1));
                assert(k.inner.yields(s1, r));
                assert(b.inner.yields(s, r));
            },
        }
    }
    if b.yields(s, r) {
        let rb = choose|rb: Result<(P::State, FlatMap<Q, G>), P::Error>|
            #[trigger] mh.yields(s, rb) && match rb {
                Err(e) => r == Err::<(P::State, R::Value), P::Error>(e),
                Ok((s1, k)) => k.yields(s1, r),
            };
        let rp = choose|rp: Result<(P::State, P::Value), P::Error>|
            #[trigger] p.yields(s, rp) && map_step(rp, h, rb);
        match rp {
            Err(e) => {
                let ra = Err::<(P::State, Q), P::Error>(e);
                let r0 = Err::<(P::State, Q::Value), P::Error>(e);
                let r1 = Err::<(P::State, R), P::Error>(e);
                assert(map_step(rp, f, ra));
                assert(mf.yields(s, ra));
                assert(pf.inner.yields(s, r0));
                assert(pf.yields(s, r0));
                assert(map_step(r0, g, r1));
                assert(mg.yields(s, r1));
                assert(a.inner.yields(s, r));
            },
            Ok((s1, v)) => {
                let k = rb->Ok_0.1;
                assert(h.ensures((v,), k));
                let q = choose|q: Q| #[trigger] f.ensures((v,), q) && k == flat_map_of(q, g);
                let mq = Mapped { parser: q, f: g };
                assert(mq.parser == q && mq.f == g && k.inner.inner == mq);
                let rc = choose|rc: Result<(P::State, R), P::Error>|
                    #[trigger] mq.yields(s1, rc) && match rc {
                        Err(e) => r == Err::<(P::State, R::Value), P::Error>(e),
                        Ok((s2, q2)) => q2.yields(s2, r),
                    };
                let r0 = choose|r0: Result<(P::State, Q::Value), P::Error>|
                    #[trigger] q.yields(s1, r0) && map_step(r0, g, rc);
                let ra = Ok::<(P::State, Q), P::Error>((s1, q));
                assert(map_step(rp, f, ra));
                assert(mf.yields(s, ra));
                assert(pf.inner.yields(s, r0));
                assert(pf.yields(s, r0));
                assert(map_step(r0, g, rc));
                assert(mg.yields(s, rc));
                assert(a.inner.yields(s, r));
            },
        }
    }
}

/// A chop never fails; from a cursor whose whole rest `f` accepts, it reads
/// to the end of the text.
pub proof fn lemma_chop_total<F: Fn(char) -> bool, E>(
    p: Chop<F, E>,
    s: TextState,
    r: Result<(TextState, String), E>,
)
    requires
        p.yields(s, r),
    ensures
        r is Ok,
        (forall|j: int, b: bool|
            s.pos() <= j < s.text().len() && #[trigger] p.f.ensures((s.text()[j],), b) ==> b)
            ==> r->Ok_0.0.pos() == s.text().len(),
{
}

/// The location that `k` steps from the start of `text` reach; a step at the
/// end of the text stays where it is.
pub open spec fn location_after_steps(text: Seq<char>, k: nat) -> Location {
    location_after(
        text,
        if k <= text.len() {
            k
        } else {
            text.len()
        },
    )
}

/// Each step from the start of a text moves the byte offset strictly forward
/// while characters remain, and leaves the location as it is at the end; so
/// along any run of steps the byte offset never decreases.
pub proof fn lemma_advance_monotonic(text: Seq<char>, k: nat, m: nat)
    requires
        text.len() <= max_text_len(),
        k <= m,
    ensures
        k < text.len() ==> location_after_steps(text, k).byte_offset < location_after_steps(
            text,
            k + 1,
        ).byte_offset,
        k >= text.len() ==> location_after_steps(text, k + 1) == location_after_steps(text, k),
        location_after_steps(text, k).byte_offset <= location_after_steps(text, m).byte_offset,
{
    if k < text.len() {
        lemma_location_monotonic(text, k, k + 1);
    }
    let a: nat = if k <= text.len() { k } else { text.len() };
    let b: nat = if m <= text.len() { m } else { text.len() };
    if a < b {
        lemma_location_monotonic(text, a, b);
    }
}

} // verus!
