use parsec::{Combinators, Parser, Succeed};

type Succ<T> = Succeed<(), T, ()>;

#[test]
fn simple_flat_map() {
    let p = Succ::with(2).flat_map(|v| Succ::with(v + 3));
    let (_, final_val) = p.do_pars(()).expect("parsing did succeed");
    assert_eq!(5, final_val)
}

#[test]
fn succeed_map_keeps_state_and_applies_function() {
    let p = Succeed::<u32, i64, String>::with(20).map(|v| v * 2 + 1);
    assert_eq!(Ok((7u32, 41i64)), p.do_pars(7));
}

struct Fail;

impl Parser for Fail {
    type Value = i64;
    type State = u32;
    type Error = String;

    fn do_pars(&self, _state: u32) -> Result<(u32, i64), String> {
        Err(String::from("first failed"))
    }
}

struct Step;

impl Parser for Step {
    type Value = i64;
    type State = u32;
    type Error = String;

    fn do_pars(&self, state: u32) -> Result<(u32, i64), String> {
        Ok((state + 1, state as i64))
    }
}

struct Refuse;

impl Parser for Refuse {
    type Value = i64;
    type State = u32;
    type Error = String;

    fn do_pars(&self, _state: u32) -> Result<(u32, i64), String> {
        Err(String::from("second failed"))
    }
}

#[test]
fn map2_reports_first_error_unchanged() {
    let p = Fail.map2(Step, |a: i64, b: i64| a + b);
    assert_eq!(Err(String::from("first failed")), p.do_pars(3));
    let q = Fail.map2(Refuse, |a: i64, b: i64| a + b);
    assert_eq!(Err(String::from("first failed")), q.do_pars(3));
}

#[test]
fn map2_runs_both_in_order() {
    let p = Step.map2(Step, |a: i64, b: i64| a * 10 + b);
    assert_eq!(Ok((5u32, 34i64)), p.do_pars(3));
    let q = Step.map2(Refuse, |a: i64, b: i64| a + b);
    assert_eq!(Err(String::from("second failed")), q.do_pars(3));
}

#[test]
fn keep_and_ignore_thread_the_state() {
    let p = Succeed::<u32, fn(i64) -> i64, String>::with(|x: i64| x + 100).keep(Step).ignore(Step);
    assert_eq!(Ok((2u32, 100i64)), p.do_pars(0));
}

#[test]
fn flatten_runs_the_parsed_parser() {
    let p = Succeed::<u32, Succeed<u32, i64, String>, String>::with(Succeed::with(9)).flatten();
    assert_eq!(Ok((4u32, 9i64)), p.do_pars(4));
}

#[test]
fn flat_map_is_associative_on_examples() {
    let left = Step
        .flat_map(|v: i64| Succeed::<u32, i64, String>::with(v * 2))
        .flat_map(|w: i64| Succeed::<u32, i64, String>::with(w + 1));
    let right = Step.flat_map(|v: i64| {
        Succeed::<u32, i64, String>::with(v * 2)
            .flat_map(|w: i64| Succeed::<u32, i64, String>::with(w + 1))
    });
    for s in 0u32..5 {
        assert_eq!(left.do_pars(s), right.do_pars(s));
    }
    assert_eq!(Ok((6u32, 11i64)), left.do_pars(5));
    let failing = Fail.flat_map(|v: i64| Succeed::<u32, i64, String>::with(v));
    assert_eq!(Err(String::from("first failed")), failing.do_pars(0));
}
