//! The runner-facing contract for executing rendered SQLite statements.
//!
//! No SQLite binding is chosen here. A runner is anything that can execute
//! raw SQL and prepared statements with bind values; schema application only
//! decides which statement goes through which entry point, and in what order.
use vstd::prelude::*;
use crate::sqlite_schema::{SQLiteValuePlan, ValueView, values_view};
use crate::sqlite_schema_sqlgen::{RenderedSchemaStatement, StatementView, statements_view};
use crate::text::owned;

verus! {

/// A binding-neutral execution failure.
#[derive(Debug, Clone, PartialEq, Eq)]
pub enum SQLiteRunnerError {
    ExecutionFailed { message: String },
}

impl SQLiteRunnerError {
    pub open(crate) spec fn spec_message(&self) -> Seq<char> {
        match self {
            SQLiteRunnerError::ExecutionFailed { message } => message@,
        }
    }

    pub fn execution_failed(message: &str) -> (r: Self)
        ensures
            r.spec_message() == message@,
    {
        SQLiteRunnerError::ExecutionFailed { message: owned(message) }
    }

    pub fn message(&self) -> (r: &str)
        ensures
            r@ == self.spec_message(),
    {
        match self {
            SQLiteRunnerError::ExecutionFailed { message } => message.as_str(),
        }
    }
}

/// One statement as a runner received it, with the runner's answer.
pub ghost enum RunnerCall {
    Execute(Seq<char>, Result<(), SQLiteRunnerError>),
    ExecuteWithValues(Seq<char>, Seq<ValueView>, Result<(), SQLiteRunnerError>),
}

/// Minimal SQLite execution contract, implemented by the users of the
/// library: `execute` runs raw SQL such as DDL, `execute_with_values` runs a
/// prepared statement with its bind values kept apart from the SQL text.
/// Either may fail.
///
/// A runner may keep a log of its calls: `keeps_call_log` says that it does,
/// and `calls` is then every statement handed to it so far, in order, with
/// what it answered; each call adds exactly one entry. Both default to a
/// runner that keeps no log (`false`, and an empty log), which is what a
/// runner built outside Verus gets; for such a runner nothing is promised
/// of the log. A call never changes whether a runner keeps its log.
pub trait SQLiteRunner {
    closed spec fn keeps_call_log(&self) -> bool {
        false
    }

    closed spec fn calls(&self) -> Seq<RunnerCall> {
        Seq::empty()
    }

    fn execute(&mut self, sql: &str) -> (r: Result<(), SQLiteRunnerError>)
        ensures
            final(self).keeps_call_log() == old(self).keeps_call_log(),
            old(self).keeps_call_log() ==> final(self).calls() == old(self).calls().push(
                RunnerCall::Execute(sql@, r),
            ),
    ;

    fn execute_with_values(&mut self, sql: &str, values: &[SQLiteValuePlan]) -> (r: Result<
        (),
        SQLiteRunnerError,
    >)
        ensures
            final(self).keeps_call_log() == old(self).keeps_call_log(),
            old(self).keeps_call_log() ==> final(self).calls() == old(self).calls().push(
                RunnerCall::ExecuteWithValues(sql@, values_view(values@), r),
            ),
    ;
}

/// What a runner answered to a call.
pub open spec fn call_result(c: RunnerCall) -> Result<(), SQLiteRunnerError> {
    match c {
        RunnerCall::Execute(_, r) => r,
        RunnerCall::ExecuteWithValues(_, _, r) => r,
    }
}

/// `c` is how the statement `s` reaches a runner: raw SQL through
/// `execute`, an insert through `execute_with_values` with its bind values
/// unchanged.
pub open spec fn call_for(c: RunnerCall, s: StatementView) -> bool {
    match (c, s) {
        (RunnerCall::Execute(sql, _), StatementView::Sql(text)) => sql == text,
        (RunnerCall::ExecuteWithValues(sql, values, _), StatementView::Insert(text, binds)) => sql
            == text && values == binds,
        _ => false,
    }
}

/// `log` is what applying `statements` handed to a runner, ending in `r`:
/// a prefix of the statements in order, each call answered `Ok` but the
/// last; on success every statement was handed over and the last answer was
/// `Ok`; on failure the last call answered with the returned error.
pub open spec fn applied(
    statements: Seq<StatementView>,
    log: Seq<RunnerCall>,
    r: Result<(), SQLiteRunnerError>,
) -> bool {
    &&& log.len() <= statements.len()
    &&& forall|i: int| 0 <= i < log.len() ==> call_for(#[trigger] log[i], statements[i])
    &&& forall|i: int| 0 <= i < log.len() - 1 ==> (#[trigger] call_result(log[i])) is Ok
    &&& match r {
        Ok(()) => log.len() == statements.len() && (log.len() == 0 || call_result(log.last()) is Ok),
        Err(e) => log.len() > 0 && call_result(log.last()) == Err::<(), SQLiteRunnerError>(e),
    }
}

/// Applies rendered schema statements through a runner, in order: raw SQL
/// through `execute`, inserts through `execute_with_values` with their bind
/// values unchanged. It stops at the first failure and returns it; with no
/// statements nothing is executed and the result is `Ok`.
pub fn apply_schema_statements<R: SQLiteRunner>(
    runner: &mut R,
    statements: &[RenderedSchemaStatement],
) -> (r: Result<(), SQLiteRunnerError>)
    ensures
        final(runner).keeps_call_log() == old(runner).keeps_call_log(),
        old(runner).keeps_call_log() ==> final(runner).calls().len() >= old(runner).calls().len()
            && final(runner).calls().take(old(runner).calls().len() as int) == old(runner).calls()
            && applied(
            statements_view(statements@),
            final(runner).calls().skip(old(runner).calls().len() as int),
            r,
        ),
        statements@.len() == 0 ==> r is Ok,
        r is Err ==> statements@.len() > 0,
{
    let ghost keeps = runner.keeps_call_log();
    let ghost start = runner.calls();
    let ghost stmts = statements_view(statements@);
    let mut i: usize = 0;
    while i < statements.len()
        invariant
            i <= statements@.len(),
            stmts == statements_view(statements@),
            keeps == old(runner).keeps_call_log(),
            runner.keeps_call_log() == keeps,
            start == old(runner).calls(),
            keeps ==> runner.calls().len() == start.len() + i,
            keeps ==> runner.calls().take(start.len() as int) == start,
            keeps ==> forall|j: int|
                0 <= j < i ==> call_for(#[trigger] runner.calls()[start.len() + j], stmts[j]),
            keeps ==> forall|j: int|
                0 <= j < i ==> (#[trigger] call_result(runner.calls()[start.len() + j])) is Ok,
        decreases statements@.len() - i,
    {
        let ghost before = runner.calls();
        let outcome = match &statements[i] {
            RenderedSchemaStatement::Sql(sql) => runner.execute(sql.as_str()),
            RenderedSchemaStatement::Insert(insert) => runner.execute_with_values(
                insert.sql(),
                insert.values(),
            ),
        };
        proof {
            if keeps {
                assert(stmts[i as int] == statements@[i as int]@);
                assert(runner.calls() == before.push(runner.calls().last()));
                assert(call_for(runner.calls()[start.len() + i], stmts[i as int]));
                assert(call_result(runner.calls()[start.len() + i]) == outcome);
                assert(runner.calls().take(start.len() as int) =~= start);
                assert forall|j: int| 0 <= j < i implies call_for(
                    #[trigger] runner.calls()[start.len() + j],
                    stmts[j],
                ) && call_result(runner.calls()[start.len() + j]) is Ok by {
                    assert(runner.calls()[start.len() + j] == before[start.len() + j]);
                }
            }
        }
        match outcome {
            Ok(()) => {},
            Err(e) => {
                proof {
                    if keeps {
                        let log = runner.calls().skip(start.len() as int);
                        assert forall|j: int| 0 <= j < log.len() implies call_for(
                            #[trigger] log[j],
                            stmts[j],
                        ) by {
                            assert(log[j] == runner.calls()[start.len() + j]);
                        }
                        assert forall|j: int| 0 <= j < log.len() - 1 implies (#[trigger] call_result(
                            log[j],
                        )) is Ok by {
                            assert(log[j] == runner.calls()[start.len() + j]);
                        }
                        assert(log.last() == runner.calls()[start.len() + i]);
                    }
                }
                return Err(e);
            },
        }
        i = i + 1;
    }
    proof {
        if keeps {
            let log = runner.calls().skip(start.len() as int);
            assert forall|j: int| 0 <= j < log.len() implies call_for(#[trigger] log[j], stmts[j]) by {
                assert(log[j] == runner.calls()[start.len() + j]);
            }
            assert forall|j: int| 0 <= j < log.len() - 1 implies (#[trigger] call_result(log[j])) is Ok by {
                assert(log[j] == runner.calls()[start.len() + j]);
            }
            if log.len() > 0 {
                assert(log.last() == runner.calls()[start.len() + (i - 1)]);
            }
        }
    }
    Ok(())
}

} // verus!
