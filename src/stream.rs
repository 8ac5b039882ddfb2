use vstd::prelude::*;
use crate::value::{Value, render_spec};
use crate::expr::{
    CompiledExpr, EvalError, NumericOracle, Operator, Record, agrees, eval_spec, evaluate, lookup,
    lemma_missing_field_fails,
};
use crate::query::QueryBinding;
use crate::record::{
    DecodeError, Json, all_normal, decode_record, decoded_object, distinct_keys, fields_model,
    normal_record,
};

verus! {

/// Why a record was skipped.
#[derive(Debug)]
pub enum RecordError {
    Decode(DecodeError),
    Eval(EvalError),
}

/// What became of one record.
#[derive(Debug)]
pub enum RecordOutcome {
    /// The record passed the filter: its row of (label, rendered value).
    Emit(Vec<(String, String)>),
    /// The filter did not evaluate to `Boolean(true)`.
    Filtered,
    /// The record could not be decoded or evaluated.
    Skipped(RecordError),
}

/// A row as label/text pairs.
pub open spec fn row_model(row: Seq<(String, String)>) -> Seq<(Seq<char>, Seq<char>)> {
    row.map_values(|p: (String, String)| (p.0@, p.1@))
}

/// Every field of the record with its rendering, in record order.
pub open spec fn all_cells(rec: Seq<(String, Value)>) -> Seq<(Seq<char>, Seq<char>)> {
    rec.map_values(|p: (String, Value)| (p.0@, render_spec(p.1)))
}

/// The row built from the first `n` projections, or the first error.
pub open spec fn row_spec(
    ps: Seq<(String, CompiledExpr)>,
    rec: Seq<(String, Value)>,
    num: NumericOracle,
    n: int,
) -> Result<Seq<(Seq<char>, Seq<char>)>, EvalError>
    decreases n,
{
    if n <= 0 {
        Ok(Seq::empty())
    } else {
        match row_spec(ps, rec, num, n - 1) {
            Err(e) => Err(e),
            Ok(row) => match eval_spec(ps[n - 1].1, rec, num) {
                Err(e) => Err(e),
                Ok(Value::Wildcard) => Ok(row + all_cells(rec)),
                Ok(v) => Ok(row.push((ps[n - 1].0@, render_spec(v)))),
            },
        }
    }
}

/// The record passes the filter, fails to evaluate it, or is filtered out.
pub open spec fn filter_spec(
    b: QueryBinding,
    rec: Seq<(String, Value)>,
    num: NumericOracle,
) -> Result<bool, EvalError> {
    match b.filter {
        None => Ok(true),
        Some(f) => match eval_spec(f, rec, num) {
            Err(e) => Err(e),
            Ok(Value::Boolean(true)) => Ok(true),
            Ok(_) => Ok(false),
        },
    }
}

/// The outcome of a decoded record: `Ok(Some(row))` emits, `Ok(None)` is
/// filtered out, `Err(e)` is skipped.
pub open spec fn outcome_spec(
    b: QueryBinding,
    rec: Seq<(String, Value)>,
    num: NumericOracle,
) -> Result<Option<Seq<(Seq<char>, Seq<char>)>>, RecordError> {
    match filter_spec(b, rec, num) {
        Err(e) => Err(RecordError::Eval(e)),
        Ok(false) => Ok(None),
        Ok(true) => match row_spec(b.projections@, rec, num, b.projections@.len() as int) {
            Err(e) => Err(RecordError::Eval(e)),
            Ok(row) => Ok(Some(row)),
        },
    }
}

/// An outcome read as a value of the form `outcome_spec` gives.
pub open spec fn outcome_model(o: RecordOutcome) -> Result<
    Option<Seq<(Seq<char>, Seq<char>)>>,
    RecordError,
> {
    match o {
        RecordOutcome::Emit(row) => Ok(Some(row_model(row@))),
        RecordOutcome::Filtered => Ok(None),
        RecordOutcome::Skipped(e) => Err(e),
    }
}

/// `o` is what becomes of a record whose payload is `payload`: a payload
/// that is no JSON object, or holds an array or object field, is skipped.
pub open spec fn payload_outcome(
    b: QueryBinding,
    payload: Seq<char>,
    num: NumericOracle,
    o: RecordOutcome,
) -> bool {
    &&& decoded_object(payload) is None ==> outcome_model(o) == Err::<
        Option<Seq<(Seq<char>, Seq<char>)>>,
        RecordError,
    >(RecordError::Decode(DecodeError::Malformed))
    &&& decoded_object(payload) is Some ==> exists|f: Seq<(String, Json)>|
        #[trigger] fields_model(f) == decoded_object(payload)->Some_0 && distinct_keys(f) && if all_normal(
            f,
        ) {
            outcome_model(o) == outcome_spec(b, normal_record(f), num)
        } else {
            outcome_model(o) == Err::<Option<Seq<(Seq<char>, Seq<char>)>>, RecordError>(
                RecordError::Decode(DecodeError::UnsupportedShape),
            )
        }
}

/// A built row read as a value of the form `row_spec` gives.
pub open spec fn row_result(r: Result<Vec<(String, String)>, EvalError>) -> Result<
    Seq<(Seq<char>, Seq<char>)>,
    EvalError,
> {
    match r {
        Ok(row) => Ok(row_model(row@)),
        Err(e) => Err(e),
    }
}

/// Appends every field of the record with its rendering.
fn push_all_fields(row: &mut Vec<(String, String)>, rec: &Record)
    ensures
        row_model(final(row)@) == row_model(old(row)@) + all_cells(rec@),
{
    let ghost start = row_model(row@);
    let mut j: usize = 0;
    while j < rec.len()
        invariant
            j <= rec@.len(),
            row_model(row@) == start + all_cells(rec@.subrange(0, j as int)),
        decreases rec.len() - j,
    {
        let ghost before = row@;
        row.push((rec[j].0.clone(), rec[j].1.render()));
        assert(row_model(row@) =~= row_model(before) + seq![(rec@[j as int].0@, render_spec(rec@[j as int].1))]);
        assert(all_cells(rec@.subrange(0, j + 1)) =~= all_cells(rec@.subrange(0, j as int)) + seq![(rec@[j as int].0@, render_spec(rec@[j as int].1))]);
        j = j + 1;
    }
    assert(rec@.subrange(0, rec@.len() as int) =~= rec@);
}

/// Evaluates every projection in order; a `Wildcard` expands to every field
/// of the record. The first error abandons the whole row.
pub fn project<F: Fn(Operator, String, String) -> Option<Value>>(
    ps: &Vec<(String, CompiledExpr)>,
    rec: &Record,
    num: &F,
) -> (r: Result<Vec<(String, String)>, EvalError>)
    requires
        forall|i: int| 0 <= i < ps@.len() ==> (#[trigger] ps@[i]).1.well_formed(),
        forall|o: Operator, x: String, y: String| num.requires((o, x, y)),
    ensures
        forall|oracle: NumericOracle| #[trigger] agrees(oracle, *num) ==> row_result(r) == row_spec(
            ps@,
            rec@,
            oracle,
            ps@.len() as int,
        ),
{
    let mut row: Vec<(String, String)> = Vec::new();
    let mut i: usize = 0;
    assert(row_model(row@) =~= Seq::empty());
    while i < ps.len()
        invariant
            i <= ps@.len(),
            forall|k: int| 0 <= k < ps@.len() ==> (#[trigger] ps@[k]).1.well_formed(),
            forall|o: Operator, x: String, y: String| num.requires((o, x, y)),
                forall|oracle: NumericOracle| #[trigger] agrees(oracle, *num) ==> row_spec(
                ps@,
                rec@,
                oracle,
                i as int,
            ) == Ok::<Seq<(Seq<char>, Seq<char>)>, EvalError>(row_model(row@)),
        decreases ps.len() - i,
    {
        let ghost before = row@;
        let v = evaluate(&ps[i].1, rec, num);
        let ghost gv = v;
        match v {
            Err(e) => {
                assert forall|oracle: NumericOracle| #[trigger] agrees(oracle, *num) implies row_result(
                    Err(e),
                ) == row_spec(ps@, rec@, oracle, ps@.len() as int) by {
                    assert(gv == eval_spec(ps@[i as int].1, rec@, oracle));
                    lemma_row_error_stays(ps@, rec@, oracle, i as int + 1);
                }
                return Err(e);
            },
            Ok(Value::Wildcard) => {
                push_all_fields(&mut row, rec);
            },
            Ok(v) => {
                row.push((ps[i].0.clone(), v.render()));
                assert(row_model(row@) =~= row_model(before).push((ps@[i as int].0@, render_spec(v))));
            },
        }
        assert forall|oracle: NumericOracle| #[trigger] agrees(oracle, *num) implies row_spec(
            ps@,
            rec@,
            oracle,
            i + 1,
        ) == Ok::<Seq<(Seq<char>, Seq<char>)>, EvalError>(row_model(row@)) by {
            assert(gv == eval_spec(ps@[i as int].1, rec@, oracle));
        }
        i = i + 1;
    }
    Ok(row)
}

/// An error among the first `n` projections is the error of the whole row.
proof fn lemma_row_error_stays(
    ps: Seq<(String, CompiledExpr)>,
    rec: Seq<(String, Value)>,
    num: NumericOracle,
    n: int,
)
    requires
        0 <= n <= ps.len(),
        row_spec(ps, rec, num, n) is Err,
    ensures
        row_spec(ps, rec, num, ps.len() as int) == row_spec(ps, rec, num, n),
    decreases ps.len() - n,
{
    if n < ps.len() {
        lemma_row_error_stays(ps, rec, num, n + 1);
    }
}

/// Filters and projects one decoded record: the filter, when present, is
/// evaluated once before any projection; the row is emitted whole or not at
/// all.
pub fn process_record<F: Fn(Operator, String, String) -> Option<Value>>(
    b: &QueryBinding,
    rec: &Record,
    num: &F,
) -> (r: RecordOutcome)
    requires
        b.well_formed(),
        forall|o: Operator, x: String, y: String| num.requires((o, x, y)),
    ensures
        forall|oracle: NumericOracle| #[trigger] agrees(oracle, *num) ==> outcome_model(r)
            == outcome_spec(*b, rec@, oracle),
{
    match &b.filter {
        None => {},
        Some(f) => match evaluate(f, rec, num) {
            Err(e) => return RecordOutcome::Skipped(RecordError::Eval(e)),
            Ok(Value::Boolean(true)) => {},
            Ok(_) => return RecordOutcome::Filtered,
        },
    }
    match project(&b.projections, rec, num) {
        Ok(row) => RecordOutcome::Emit(row),
        Err(e) => RecordOutcome::Skipped(RecordError::Eval(e)),
    }
}

/// Decodes a payload and processes the record; a payload that does not
/// decode is skipped.
pub fn process_payload<F: Fn(Operator, String, String) -> Option<Value>>(
    b: &QueryBinding,
    payload: &str,
    num: &F,
) -> (r: RecordOutcome)
    requires
        b.well_formed(),
        forall|o: Operator, x: String, y: String| num.requires((o, x, y)),
    ensures
        forall|oracle: NumericOracle| #[trigger] agrees(oracle, *num) ==> payload_outcome(
            *b,
            payload@,
            oracle,
            r,
        ),
{
    match decode_record(payload) {
        Err(e) => RecordOutcome::Skipped(RecordError::Decode(e)),
        Ok(rec) => process_record(b, &rec, num),
    }
}

/// The states of the streaming loop.
#[derive(Debug, Clone, Copy, PartialEq, Eq, Structural)]
pub enum StreamState {
    Subscribing,
    Running,
    Terminated,
}

/// What the outside source reports to the loop.
#[derive(Debug)]
pub enum StreamEvent {
    /// The subscription to the source was confirmed.
    Subscribed,
    /// The subscription was rejected.
    SubscribeRejected,
    /// A message arrived with this text payload.
    Delivered(String),
    /// The source reported an error instead of a message.
    DeliveryFailed,
    /// The record sequence ended.
    Ended,
}

/// What the driver of the loop is to do.
#[derive(Debug)]
pub enum StreamAction {
    /// Nothing; wait for the next event.
    Wait,
    /// A message was processed: emit the row, or note why it was not.
    Record(RecordOutcome),
    /// Report a delivery error and go on.
    DeliveryError,
    /// The run cannot proceed: stop with failure.
    Abort,
    /// The stream is over.
    Finish,
}

pub open spec fn next_state(s: StreamState, e: StreamEvent) -> StreamState {
    match (s, e) {
        (StreamState::Subscribing, StreamEvent::Subscribed) => StreamState::Running,
        (StreamState::Subscribing, StreamEvent::SubscribeRejected) => StreamState::Terminated,
        (StreamState::Running, StreamEvent::Ended) => StreamState::Terminated,
        _ => s,
    }
}

/// `a` is the action owed for event `e` in state `s`.
pub open spec fn action_spec(
    b: QueryBinding,
    s: StreamState,
    e: StreamEvent,
    num: NumericOracle,
    a: StreamAction,
) -> bool {
    match (s, e) {
        (StreamState::Subscribing, StreamEvent::SubscribeRejected) => a is Abort,
        (StreamState::Running, StreamEvent::Delivered(p)) => a matches StreamAction::Record(o)
            && payload_outcome(b, p@, num, o),
        (StreamState::Running, StreamEvent::DeliveryFailed) => a is DeliveryError,
        (StreamState::Running, StreamEvent::Ended) => a is Finish,
        _ => a is Wait,
    }
}

/// The streaming loop's decisions: a bound query and the loop's state.
#[derive(Debug)]
pub struct StreamLoop {
    pub binding: QueryBinding,
    pub state: StreamState,
}

impl StreamLoop {
    /// A loop about to subscribe to the query's source.
    pub fn new(binding: QueryBinding) -> (r: StreamLoop)
        ensures
            r.binding == binding,
            r.state == StreamState::Subscribing,
    {
        StreamLoop { binding, state: StreamState::Subscribing }
    }

    /// The name of the source to subscribe to.
    pub fn source(&self) -> (r: String)
        ensures
            r@ == self.binding.source@,
    {
        self.binding.source.clone()
    }

    /// Takes one event from the source and says what to do with it.
    pub fn handle<F: Fn(Operator, String, String) -> Option<Value>>(
        &mut self,
        event: StreamEvent,
        num: &F,
    ) -> (a: StreamAction)
        requires
            old(self).binding.well_formed(),
            forall|o: Operator, x: String, y: String| num.requires((o, x, y)),
            ensures
            final(self).binding == old(self).binding,
            final(self).state == next_state(old(self).state, event),
            forall|oracle: NumericOracle| #[trigger] agrees(oracle, *num) ==> action_spec(
                old(self).binding,
                old(self).state,
                event,
                oracle,
                a,
            ),
    {
        match (self.state, event) {
            (StreamState::Subscribing, StreamEvent::Subscribed) => {
                self.state = StreamState::Running;
                StreamAction::Wait
            },
            (StreamState::Subscribing, StreamEvent::SubscribeRejected) => {
                self.state = StreamState::Terminated;
                StreamAction::Abort
            },
            (StreamState::Running, StreamEvent::Delivered(p)) => StreamAction::Record(
                process_payload(&self.binding, p.as_str(), num),
            ),
            (StreamState::Running, StreamEvent::DeliveryFailed) => StreamAction::DeliveryError,
            (StreamState::Running, StreamEvent::Ended) => {
                self.state = StreamState::Terminated;
                StreamAction::Finish
            },
            _ => StreamAction::Wait,
        }
    }
}

/// A record lacking a field that the filter reads is skipped with an
/// evaluation error, and a delivered message leaves a running loop running.
pub proof fn lemma_missing_field_skipped(
    b: QueryBinding,
    rec: Seq<(String, Value)>,
    num: NumericOracle,
    name: Seq<char>,
    payload: String,
)
    requires
        b.filter matches Some(f) && f.references(name),
        lookup(rec, name) is None,
    ensures
        outcome_spec(b, rec, num) matches Err(RecordError::Eval(_)),
        next_state(StreamState::Running, StreamEvent::Delivered(payload)) == StreamState::Running,
{
    lemma_missing_field_fails(b.filter->Some_0, rec, num, name);
}

} // verus!
