use vstd::prelude::*;

use crate::error::Error;
use crate::execution::frontend::FrontendRequest;
use crate::syntax::evaluate::{eval_step, evaluate, EvalState, TimeFields};
use crate::syntax::expression::ParsedExpr;
use crate::syntax::parse::{
    matches_source, parse_from_str, parsed_wf, script_scan, spans_within, statements_match,
};

verus! {

/// Interpreter for test scripts: the parsed statements, a cursor, and the
/// evaluation state. Each step evaluates one statement and advances the
/// cursor.
#[derive(Debug)]
pub struct Interpreter {
    pub ast: Vec<ParsedExpr>,
    pub index: usize,
    pub state: EvalState,
}

impl Interpreter {
    /// Parse a script into an interpreter at its first statement, or hand
    /// back every parse error carried over into the run-time error type.
    /// The script parses exactly when its scan finds every statement
    /// readable and every argument within its kind and range.
    pub fn try_from_str(script: &str) -> (r: Result<Interpreter, Vec<Error>>)
        ensures
            r is Ok <==> !(script_scan(script@, 0).0 || script_scan(script@, 0).1),
            r matches Ok(it) ==> {
                &&& it.index == 0
                &&& it.state.hpmode == false
                &&& statements_match(script@, it.ast@)
                &&& forall|i: int|
                    0 <= i < it.ast@.len() ==> spans_within(#[trigger] it.ast@[i], script@.len())
                        && parsed_wf(it.ast@[i].expr) && matches_source(it.ast@[i], script@)
            },
            r matches Err(errs) ==> errs@.len() > 0 && (forall|i: int|
                0 <= i < errs@.len() ==> (#[trigger] errs@[i]).reason is SyntaxError),
    {
        match parse_from_str(script) {
            Ok(ast) => Ok(Self { ast, index: 0, state: EvalState::new() }),
            Err(parse_errors) => {
                let mut errors: Vec<Error> = Vec::new();
                let mut i: usize = 0;
                let n = parse_errors.len();
                let mut remaining = parse_errors;
                while i < n
                    invariant
                        0 <= i <= n,
                        errors@.len() == i,
                        remaining@.len() == n - i,
                        forall|j: int|
                            0 <= j < i ==> (#[trigger] errors@[j]).reason is SyntaxError,
                    decreases n - i,
                {
                    let e = remaining.remove(0);
                    errors.push(Error::from(e));
                    i += 1;
                }
                Err(errors)
            },
        }
    }

    /// Evaluate the statement under the cursor and move past it; `None`
    /// once every statement has run. The statements themselves never
    /// change.
    pub fn next(&mut self) -> (r: Option<Result<FrontendRequest, Error>>)
        ensures
            old(self).index >= old(self).ast@.len() ==> r is None && *final(self) == *old(self),
            old(self).index < old(self).ast@.len() ==> {
                &&& final(self).index == old(self).index + 1
                &&& final(self).ast == old(self).ast
                &&& r matches Some(res) && exists|now: TimeFields|
                    now.wf() && #[trigger] eval_step(
                        old(self).ast@[old(self).index as int],
                        old(self).state.hpmode,
                        now,
                        final(self).state.hpmode,
                        res,
                    )
            },
    {
        if self.index < self.ast.len() {
            let ghost pre = *self;
            let i = self.index;
            self.index = i + 1;
            let res = evaluate(&self.ast[i], &mut self.state);
            proof {
                let now = choose|now: TimeFields|
                    now.wf() && #[trigger] eval_step(
                        pre.ast@[i as int],
                        pre.state.hpmode,
                        now,
                        self.state.hpmode,
                        res,
                    );
                assert(now.wf() && eval_step(
                    pre.ast@[i as int],
                    pre.state.hpmode,
                    now,
                    self.state.hpmode,
                    res,
                ));
            }
            Some(res)
        } else {
            None
        }
    }

    /// Restart the interpreter from the beginning of the script, with the
    /// evaluation state fresh.
    pub fn restart(&mut self)
        ensures
            final(self).index == 0,
            final(self).state.hpmode == false,
            final(self).ast == old(self).ast,
    {
        self.index = 0;
        self.state = EvalState::new();
    }
}

} // verus!
