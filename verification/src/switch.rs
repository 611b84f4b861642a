//! The protocol of one schema operation on one connection.
//!
//! An operation is a short plan of SQL statements. The connection runs them
//! one at a time; the first statement that fails ends the operation with its
//! error, and the operation succeeds once every statement has succeeded.
//! [`SchemaSwitch`] holds the decisions of that protocol; whoever owns the
//! connection executes each statement it hands out and reports the outcome.
use vstd::prelude::*;
use crate::statement::{Backend, ensure_sql, search_path_sql, ensure_schema_statement, search_path_statement};

verus! {

/// The schema operations a connection offers.
#[derive(Clone, Copy, Debug, PartialEq, Eq, Structural)]
pub enum SchemaOp {
    /// Create the schema if it does not exist, then switch to it.
    SetSchema,
    /// Only switch to the schema, which is known to exist.
    SetSearchPath,
    /// Create the schema if it does not exist, without switching to it.
    EnsureSchema,
}

/// The statements that `op` runs for `schema`, in order.
pub open spec fn op_plan(backend: Backend, op: SchemaOp, schema: Seq<char>) -> Seq<Seq<char>> {
    match op {
        SchemaOp::SetSchema => seq![ensure_sql(backend, schema), search_path_sql(backend, schema)],
        SchemaOp::SetSearchPath => seq![search_path_sql(backend, schema)],
        SchemaOp::EnsureSchema => seq![ensure_sql(backend, schema)],
    }
}

/// Law: setting the schema is ensuring it and then setting the search path,
/// statement for statement.
pub proof fn law_set_schema_is_ensure_then_select(backend: Backend, schema: Seq<char>)
    ensures
        op_plan(backend, SchemaOp::SetSchema, schema)
            == op_plan(backend, SchemaOp::EnsureSchema, schema) + op_plan(backend, SchemaOp::SetSearchPath, schema),
{
    assert(op_plan(backend, SchemaOp::SetSchema, schema)
        =~= op_plan(backend, SchemaOp::EnsureSchema, schema) + op_plan(backend, SchemaOp::SetSearchPath, schema));
}

/// Law: the two statements of `SetSchema` name the same schema, the one
/// requested, in full: the schema that is created is the schema that is
/// then selected.
pub proof fn law_set_schema_creates_what_it_selects(backend: Backend, schema: Seq<char>)
    ensures
        ({
            let plan = op_plan(backend, SchemaOp::SetSchema, schema);
            &&& plan.len() == 2
            &&& backend is Postgres ==> plan[0].skip(28) == schema && plan[1].skip(19) == schema
            &&& backend is Mysql ==> plan[0].subrange(31, 31 + schema.len() as int) == schema
                && plan[1].subrange(5, 5 + schema.len() as int) == schema
        }),
{
    crate::statement::law_ensure_statement_names_schema(backend, schema);
    crate::statement::law_search_path_statement_names_schema(backend, schema);
}

/// The abstract state of a running operation: its plan, how many of the
/// plan's statements have succeeded, and whether the operation has ended.
pub struct SwitchState {
    pub plan: Seq<Seq<char>>,
    pub completed: nat,
    pub finished: bool,
}

/// What the connection must do next, in the abstract.
pub enum StepView<E> {
    Execute(Seq<char>),
    Finished(Result<(), E>),
}

/// What the connection must do next.
pub enum Step<E> {
    /// Execute this statement and report its outcome.
    Execute(String),
    /// The operation has ended with this result.
    Finished(Result<(), E>),
}

impl<E> Step<E> {
    pub open spec fn abstract_step(self) -> StepView<E> {
        match self {
            Step::Execute(sql) => StepView::Execute(sql@),
            Step::Finished(r) => StepView::Finished(r),
        }
    }
}

/// The state of an operation that has just handed out its first statement.
pub open spec fn initial_state(plan: Seq<Seq<char>>) -> SwitchState {
    SwitchState { plan, completed: 0, finished: false }
}

/// One transition: the outcome of the statement in flight decides what
/// comes next. An error ends the operation with that error; a success moves
/// to the next statement, or ends the operation successfully after the last.
pub open spec fn next_step<E>(s: SwitchState, outcome: Result<(), E>) -> (SwitchState, StepView<E>) {
    match outcome {
        Err(e) => (SwitchState { finished: true, ..s }, StepView::Finished(Err(e))),
        Ok(_) => {
            let done = s.completed + 1;
            if done >= s.plan.len() {
                (SwitchState { completed: done, finished: true, ..s }, StepView::Finished(Ok(())))
            } else {
                (SwitchState { completed: done, ..s }, StepView::Execute(s.plan[done as int]))
            }
        },
    }
}

/// Runs the protocol from state `s` on the outcomes `outcomes`, one per
/// statement: the statements handed out after the one in flight, and the
/// result, if the outcomes sufficed to end the operation.
pub open spec fn drive<E>(s: SwitchState, outcomes: Seq<Result<(), E>>) -> (Seq<Seq<char>>, Option<Result<(), E>>)
    decreases outcomes.len(),
{
    if outcomes.len() == 0 {
        (Seq::empty(), None)
    } else {
        let (s1, step) = next_step(s, outcomes[0]);
        match step {
            StepView::Finished(r) => (Seq::empty(), Some(r)),
            StepView::Execute(sql) => {
                let (rest, r) = drive(s1, outcomes.drop_first());
                (seq![sql] + rest, r)
            },
        }
    }
}

/// Whenever the statements still to run all succeed, the protocol hands out
/// the rest of the plan in order and ends successfully.
proof fn lemma_drive_succeeds<E>(s: SwitchState, outcomes: Seq<Result<(), E>>)
    requires
        s.completed < s.plan.len(),
        outcomes.len() >= s.plan.len() - s.completed,
        forall|i: int| 0 <= i < s.plan.len() - s.completed ==> #[trigger] outcomes[i] is Ok,
    ensures
        drive(s, outcomes) == (s.plan.subrange(s.completed as int + 1, s.plan.len() as int), Some(Ok::<(), E>(()))),
    decreases outcomes.len(),
{
    let c = s.completed as int;
    let (s1, step) = next_step(s, outcomes[0]);
    assert(outcomes[0] is Ok);
    if s.completed + 1 >= s.plan.len() {
        assert(s.plan.subrange(c + 1, s.plan.len() as int) =~= Seq::empty());
    } else {
        let rest = outcomes.drop_first();
        assert forall|i: int| 0 <= i < s1.plan.len() - s1.completed implies #[trigger] rest[i] is Ok by {
            assert(rest[i] == outcomes[i + 1]);
        }
        lemma_drive_succeeds(s1, rest);
        assert(seq![s.plan[c + 1]] + s.plan.subrange(c + 2, s.plan.len() as int)
            =~= s.plan.subrange(c + 1, s.plan.len() as int));
    }
}

/// When the statement `j` places after the one in flight is the first to
/// fail, the protocol hands out the statements up to it and ends with its
/// error.
proof fn lemma_drive_fails<E>(s: SwitchState, outcomes: Seq<Result<(), E>>, j: int)
    requires
        0 <= j < outcomes.len(),
        s.completed + j < s.plan.len(),
        outcomes[j] is Err,
        forall|i: int| 0 <= i < j ==> #[trigger] outcomes[i] is Ok,
    ensures
        drive(s, outcomes) == (s.plan.subrange(s.completed as int + 1, s.completed + j + 1), Some(outcomes[j])),
    decreases outcomes.len(),
{
    let c = s.completed as int;
    let (s1, step) = next_step(s, outcomes[0]);
    if j == 0 {
        assert(s.plan.subrange(c + 1, c + 1) =~= Seq::empty());
    } else {
        assert(outcomes[0] is Ok);
        let rest = outcomes.drop_first();
        assert forall|i: int| 0 <= i < j - 1 implies #[trigger] rest[i] is Ok by {
            assert(rest[i] == outcomes[i + 1]);
        }
        assert(rest[j - 1] == outcomes[j]);
        lemma_drive_fails(s1, rest, j - 1);
        assert(seq![s.plan[c + 1]] + s.plan.subrange(c + 2, s.completed + j + 1)
            =~= s.plan.subrange(c + 1, c + j + 1));
    }
}

/// Law: an operation whose statements all succeed runs its whole plan, in
/// order, and ends successfully; for `SetSchema` that is the `CREATE`
/// statement and then the switch.
pub proof fn law_operation_succeeds<E>(backend: Backend, op: SchemaOp, schema: Seq<char>, outcomes: Seq<Result<(), E>>)
    requires
        outcomes.len() >= op_plan(backend, op, schema).len(),
        forall|i: int| 0 <= i < op_plan(backend, op, schema).len() ==> #[trigger] outcomes[i] is Ok,
    ensures
        ({
            let plan = op_plan(backend, op, schema);
            let (issued, result) = drive(initial_state(plan), outcomes);
            &&& seq![plan[0]] + issued == plan
            &&& result == Some(Ok::<(), E>(()))
        }),
{
    let plan = op_plan(backend, op, schema);
    lemma_drive_succeeds(initial_state(plan), outcomes);
    assert(seq![plan[0]] + plan.subrange(1, plan.len() as int) =~= plan);
}

/// Law: an operation stops at its first failing statement and ends with that
/// statement's error; no later statement runs. In particular a failed
/// `CREATE` never leads to the switch.
pub proof fn law_operation_stops_at_first_failure<E>(
    backend: Backend,
    op: SchemaOp,
    schema: Seq<char>,
    outcomes: Seq<Result<(), E>>,
    k: int,
)
    requires
        0 <= k < op_plan(backend, op, schema).len(),
        k < outcomes.len(),
        outcomes[k] is Err,
        forall|i: int| 0 <= i < k ==> #[trigger] outcomes[i] is Ok,
    ensures
        ({
            let plan = op_plan(backend, op, schema);
            let (issued, result) = drive(initial_state(plan), outcomes);
            &&& seq![plan[0]] + issued == plan.take(k + 1)
            &&& result == Some(outcomes[k])
        }),
{
    let plan = op_plan(backend, op, schema);
    lemma_drive_fails(initial_state(plan), outcomes, k);
    assert(seq![plan[0]] + plan.subrange(1, k + 1) =~= plan.take(k + 1));
}

/// The executable protocol of one schema operation.
pub struct SchemaSwitch {
    plan: Vec<String>,
    completed: usize,
    finished: bool,
}

impl SchemaSwitch {
    #[verifier::type_invariant]
    spec fn well_formed(self) -> bool {
        &&& self.plan.len() >= 1
        &&& self.completed <= self.plan.len()
        &&& !self.finished ==> self.completed < self.plan.len()
    }

    /// The abstract state of the operation.
    pub closed spec fn state(self) -> SwitchState {
        SwitchState {
            plan: self.plan@.map_values(|sql: String| sql@),
            completed: self.completed as nat,
            finished: self.finished,
        }
    }

    /// Starts `op` for `schema` on a connection of `backend`: the operation
    /// and the first statement to execute.
    pub fn start(backend: Backend, op: SchemaOp, schema: &str) -> (res: (SchemaSwitch, String))
        ensures
            res.0.state() == initial_state(op_plan(backend, op, schema@)),
            res.1@ == op_plan(backend, op, schema@)[0],
    {
        let mut plan: Vec<String> = Vec::new();
        match op {
            SchemaOp::SetSchema => {
                plan.push(ensure_schema_statement(backend, schema));
                plan.push(search_path_statement(backend, schema));
            },
            SchemaOp::SetSearchPath => {
                plan.push(search_path_statement(backend, schema));
            },
            SchemaOp::EnsureSchema => {
                plan.push(ensure_schema_statement(backend, schema));
            },
        }
        let first = plan[0].clone();
        let switch = SchemaSwitch { plan, completed: 0, finished: false };
        assert(switch.state().plan =~= op_plan(backend, op, schema@));
        (switch, first)
    }

    /// Whether the operation has ended.
    pub fn is_finished(&self) -> (res: bool)
        ensures
            res == self.state().finished,
    {
        self.finished
    }

    /// Reports the outcome of the statement in flight and returns what comes
    /// next.
    pub fn advance<E>(&mut self, outcome: Result<(), E>) -> (step: Step<E>)
        requires
            !old(self).state().finished,
        ensures
            (final(self).state(), step.abstract_step()) == next_step(old(self).state(), outcome),
    {
        proof { use_type_invariant(&*self); }
        match outcome {
            Err(e) => {
                self.finished = true;
                Step::Finished(Err(e))
            },
            Ok(_) => {
                let done = self.completed + 1;
                if done >= self.plan.len() {
                    self.finished = true;
                    self.completed = done;
                    Step::Finished(Ok(()))
                } else {
                    self.completed = done;
                    Step::Execute(self.plan[done].clone())
                }
            },
        }
    }
}

} // verus!
