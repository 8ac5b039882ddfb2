use vstd::prelude::*;
use crate::value::{Value, same_value, render_spec};

verus! {

/// A binary operator of the statement parser.
#[derive(Debug, Clone, Copy, PartialEq, Eq, Structural)]
pub enum Operator {
    Plus,
    Minus,
    Multiply,
    Divide,
    Gt,
    Lt,
    Eq,
    NotEq,
    And,
    Or,
    /// Any operator the compiler does not support.
    Other,
}

/// An expression tree as handed over by the statement parser.
#[derive(Debug)]
pub enum Expr {
    Value(Value),
    Identifier(String),
    BinaryOp(Box<Expr>, Operator, Box<Expr>),
    Nested(Box<Expr>),
    /// Any expression shape the compiler does not support.
    Unsupported,
}

#[derive(Debug, Clone, Copy, PartialEq, Eq, Structural)]
pub enum CompileError {
    UnsupportedExpression,
    UnsupportedOperator,
}

/// An evaluator compiled once from an expression, evaluated per record.
#[derive(Debug)]
pub enum CompiledExpr {
    Constant(Value),
    Field(String),
    Binary(Operator, Box<CompiledExpr>, Box<CompiledExpr>),
}

#[derive(Debug, Clone)]
pub enum EvalError {
    MissingField(String),
    NotNumeric,
}

/// A decoded record: field names with their values.
pub type Record = Vec<(String, Value)>;

/// No field name occurs twice in the record.
pub open spec fn distinct_fields(rec: Seq<(String, Value)>) -> bool {
    forall|i: int, j: int|
        0 <= i < j < rec.len() ==> (#[trigger] rec[i]).0@ != (#[trigger] rec[j]).0@
}

pub open spec fn is_numeric_op(op: Operator) -> bool {
    op == Operator::Plus || op == Operator::Minus || op == Operator::Multiply
        || op == Operator::Divide || op == Operator::Gt || op == Operator::Lt
}

impl CompiledExpr {
    /// Every operator in the tree is a supported one.
    pub open spec fn well_formed(self) -> bool
        decreases self,
    {
        match self {
            CompiledExpr::Binary(op, a, b) => op != Operator::Other && a.well_formed()
                && b.well_formed(),
            _ => true,
        }
    }

    /// The tree reads the field `name` somewhere.
    pub open spec fn references(self, name: Seq<char>) -> bool
        decreases self,
    {
        match self {
            CompiledExpr::Constant(_) => false,
            CompiledExpr::Field(n) => n@ == name,
            CompiledExpr::Binary(_, a, b) => a.references(name) || b.references(name),
        }
    }
}

/// What compiling an expression gives.
pub open spec fn compile_spec(e: Expr) -> Result<CompiledExpr, CompileError>
    decreases e,
{
    match e {
        Expr::Value(v) => Ok(CompiledExpr::Constant(v)),
        Expr::Identifier(n) => Ok(CompiledExpr::Field(n)),
        Expr::Nested(inner) => compile_spec(*inner),
        Expr::BinaryOp(l, op, r) => match compile_spec(*l) {
            Err(e) => Err(e),
            Ok(cl) => match compile_spec(*r) {
                Err(e) => Err(e),
                Ok(cr) => if op == Operator::Other {
                    Err(CompileError::UnsupportedOperator)
                } else {
                    Ok(CompiledExpr::Binary(op, Box::new(cl), Box::new(cr)))
                },
            },
        },
        Expr::Unsupported => Err(CompileError::UnsupportedExpression),
    }
}

/// The value of the first field of `rec` named `name`.
pub open spec fn lookup(rec: Seq<(String, Value)>, name: Seq<char>) -> Option<Value>
    decreases rec.len(),
{
    if rec.len() == 0 {
        None
    } else if rec[0].0@ == name {
        Some(rec[0].1)
    } else {
        lookup(rec.drop_first(), name)
    }
}

/// Arithmetic and ordering on numeric texts, as a mathematical function:
/// the answer for `op` on texts `x` and `y`, none where a text is no number.
pub type NumericOracle = spec_fn(Operator, String, String) -> Option<Value>;

/// `oracle` gives every answer that `num` can give.
pub open spec fn agrees<F: Fn(Operator, String, String) -> Option<Value>>(
    oracle: NumericOracle,
    num: F,
) -> bool {
    forall|op: Operator, x: String, y: String, o: Option<Value>|
        #[trigger] num.ensures((op, x, y), o) ==> oracle(op, x, y) == o
}

/// What a numeric answer means: none is a failed coercion.
pub open spec fn numeric_result(o: Option<Value>) -> Result<Value, EvalError> {
    match o {
        Some(v) => Ok(v),
        None => Err(EvalError::NotNumeric),
    }
}

/// The result of applying `op` to two operand values; `num` supplies
/// arithmetic and ordering on numeric texts.
pub open spec fn combine_spec(
    op: Operator,
    va: Value,
    vb: Value,
    num: NumericOracle,
) -> Result<Value, EvalError> {
    if is_numeric_op(op) {
        match (va, vb) {
            (Value::Number(ta, _), Value::Number(tb, _)) => numeric_result(num(op, ta, tb)),
            _ => Err(EvalError::NotNumeric),
        }
    } else {
        match op {
            Operator::Eq => Ok(Value::Boolean(same_value(va, vb))),
            Operator::NotEq => Ok(Value::Boolean(!same_value(va, vb))),
            Operator::And => Ok(
                Value::Boolean(
                    match (va, vb) {
                        (Value::Boolean(x), Value::Boolean(y)) => x && y,
                        _ => false,
                    },
                ),
            ),
            _ => Ok(
                Value::Boolean(
                    match (va, vb) {
                        (Value::Boolean(x), Value::Boolean(y)) => x || y,
                        _ => false,
                    },
                ),
            ),
        }
    }
}

/// The result of evaluating `c` against `rec`. Both operands of a binary
/// node are evaluated; the left operand's error comes first.
pub open spec fn eval_spec(
    c: CompiledExpr,
    rec: Seq<(String, Value)>,
    num: NumericOracle,
) -> Result<Value, EvalError>
    decreases c,
{
    match c {
        CompiledExpr::Constant(v) => Ok(v),
        CompiledExpr::Field(n) => match lookup(rec, n@) {
            Some(v) => Ok(v),
            None => Err(EvalError::MissingField(n)),
        },
        CompiledExpr::Binary(op, a, b) => match (eval_spec(*a, rec, num), eval_spec(*b, rec, num)) {
            (Err(e), _) => Err(e),
            (Ok(_), Err(e)) => Err(e),
            (Ok(va), Ok(vb)) => combine_spec(op, va, vb, num),
        },
    }
}

/// Compiles an expression into an evaluator. Parentheses are erased;
/// unsupported shapes and operators are refused here, not at evaluation.
pub fn exec_expr(expr: &Expr) -> (r: Result<CompiledExpr, CompileError>)
    ensures
        r == compile_spec(*expr),
        r matches Ok(c) ==> c.well_formed(),
    decreases expr,
{
    match expr {
        Expr::Value(v) => Ok(CompiledExpr::Constant(v.copied())),
        Expr::Identifier(n) => Ok(CompiledExpr::Field(n.clone())),
        Expr::Nested(inner) => exec_expr(inner),
        Expr::BinaryOp(l, op, r) => {
            let cl = match exec_expr(l) {
                Ok(c) => c,
                Err(e) => return Err(e),
            };
            let cr = match exec_expr(r) {
                Ok(c) => c,
                Err(e) => return Err(e),
            };
            if *op == Operator::Other {
                Err(CompileError::UnsupportedOperator)
            } else {
                Ok(CompiledExpr::Binary(*op, Box::new(cl), Box::new(cr)))
            }
        },
        Expr::Unsupported => Err(CompileError::UnsupportedExpression),
    }
}

/// Looks up the first field of `rec` named `name`.
pub fn lookup_field(rec: &Record, name: &String) -> (r: Option<Value>)
    ensures
        r == lookup(rec@, name@),
{
    let mut i: usize = 0;
    assert(rec@.subrange(0, rec@.len() as int) =~= rec@);
    while i < rec.len()
        invariant
            i <= rec@.len(),
            lookup(rec@, name@) == lookup(rec@.subrange(i as int, rec@.len() as int), name@),
        decreases rec.len() - i,
    {
        proof {
            let rest = rec@.subrange(i as int, rec@.len() as int);
            assert(rest.drop_first() =~= rec@.subrange(i + 1, rec@.len() as int));
        }
        if rec[i].0 == *name {
            return Some(rec[i].1.copied());
        }
        i = i + 1;
    }
    None
}

/// Applies `op` to two operand values.
fn combine<F: Fn(Operator, String, String) -> Option<Value>>(
    op: Operator,
    va: Value,
    vb: Value,
    num: &F,
) -> (r: Result<Value, EvalError>)
    requires
        op != Operator::Other,
        forall|o: Operator, x: String, y: String| num.requires((o, x, y)),
    ensures
        forall|oracle: NumericOracle| #[trigger] agrees(oracle, *num) ==> r == combine_spec(
            op,
            va,
            vb,
            oracle,
        ),
{
    if op == Operator::Plus || op == Operator::Minus || op == Operator::Multiply
        || op == Operator::Divide || op == Operator::Gt || op == Operator::Lt {
        match (va, vb) {
            (Value::Number(ta, _), Value::Number(tb, _)) => {
                let ghost gx = ta;
                let ghost gy = tb;
                let o = num(op, ta, tb);
                assert(num.ensures((op, gx, gy), o));
                match o {
                    Some(v) => Ok(v),
                    None => Err(EvalError::NotNumeric),
                }
            },
            _ => Err(EvalError::NotNumeric),
        }
    } else {
        match op {
            Operator::Eq => Ok(Value::Boolean(va.equals(&vb))),
            Operator::NotEq => Ok(Value::Boolean(!va.equals(&vb))),
            Operator::And => match (va, vb) {
                (Value::Boolean(x), Value::Boolean(y)) => Ok(Value::Boolean(x && y)),
                _ => Ok(Value::Boolean(false)),
            },
            _ => match (va, vb) {
                (Value::Boolean(x), Value::Boolean(y)) => Ok(Value::Boolean(x || y)),
                _ => Ok(Value::Boolean(false)),
            },
        }
    }
}

/// Evaluates a compiled expression against a record. `num` performs the
/// arithmetic (`+ - * /`) and ordering (`> <`) on two numeric texts,
/// answering `None` where a text is not a number. The result is the one
/// `eval_spec` gives with any mathematical function that agrees with `num`.
pub fn evaluate<F: Fn(Operator, String, String) -> Option<Value>>(
    c: &CompiledExpr,
    rec: &Record,
    num: &F,
) -> (r: Result<Value, EvalError>)
    requires
        c.well_formed(),
        forall|o: Operator, x: String, y: String| num.requires((o, x, y)),
    ensures
        forall|oracle: NumericOracle| #[trigger] agrees(oracle, *num) ==> r == eval_spec(
            *c,
            rec@,
            oracle,
        ),
    decreases c,
{
    match c {
        CompiledExpr::Constant(v) => Ok(v.copied()),
        CompiledExpr::Field(n) => match lookup_field(rec, n) {
            Some(v) => Ok(v),
            None => Err(EvalError::MissingField(n.clone())),
        },
        CompiledExpr::Binary(op, a, b) => {
            let ra = evaluate(a, rec, num);
            let rb = evaluate(b, rec, num);
            let ghost ga = ra;
            let ghost gb = rb;
            let r = match (ra, rb) {
                (Err(e), _) => Err(e),
                (Ok(_), Err(e)) => Err(e),
                (Ok(va), Ok(vb)) => combine(*op, va, vb, num),
            };
            assert forall|oracle: NumericOracle| #[trigger] agrees(oracle, *num) implies r
                == eval_spec(*c, rec@, oracle) by {
                assert(ga == eval_spec(**a, rec@, oracle));
                assert(gb == eval_spec(**b, rec@, oracle));
            }
            r
        },
    }
}

/// Both values have the same variant.
pub open spec fn same_variant(a: Value, b: Value) -> bool {
    match (a, b) {
        (Value::Null, Value::Null) => true,
        (Value::Boolean(_), Value::Boolean(_)) => true,
        (Value::Number(_, _), Value::Number(_, _)) => true,
        (Value::String(_), Value::String(_)) => true,
        (Value::Wildcard, Value::Wildcard) => true,
        _ => false,
    }
}

/// Equality compares structurally: two values of the same variant and the
/// same textual form are equal and not unequal; values of different
/// variants are never equal.
pub proof fn lemma_equality_structural(
    a: Value,
    b: Value,
    rec: Seq<(String, Value)>,
    num: NumericOracle,
)
    ensures
        same_variant(a, b) && render_spec(a) == render_spec(b) ==> {
            &&& eval_spec(
                CompiledExpr::Binary(
                    Operator::Eq,
                    Box::new(CompiledExpr::Constant(a)),
                    Box::new(CompiledExpr::Constant(b)),
                ),
                rec,
                num,
            ) == Ok::<Value, EvalError>(Value::Boolean(true))
            &&& eval_spec(
                CompiledExpr::Binary(
                    Operator::NotEq,
                    Box::new(CompiledExpr::Constant(a)),
                    Box::new(CompiledExpr::Constant(b)),
                ),
                rec,
                num,
            ) == Ok::<Value, EvalError>(Value::Boolean(false))
        },
        !same_variant(a, b) ==> eval_spec(
            CompiledExpr::Binary(
                Operator::Eq,
                Box::new(CompiledExpr::Constant(a)),
                Box::new(CompiledExpr::Constant(b)),
            ),
            rec,
            num,
        ) == Ok::<Value, EvalError>(Value::Boolean(false)),
{
    reveal_with_fuel(eval_spec, 2);
    reveal_strlit("true");
    reveal_strlit("false");
    if let (Value::Boolean(x), Value::Boolean(y)) = (a, b) {
        if render_spec(a) == render_spec(b) && x != y {
            assert(render_spec(a).len() != render_spec(b).len());
        }
    }
}

/// `AND` and `OR` over operands that evaluate to values, one of them not a
/// Boolean, give `Boolean(false)`; they fail only where an operand fails.
pub proof fn lemma_logic_permissive(
    op: Operator,
    a: CompiledExpr,
    b: CompiledExpr,
    rec: Seq<(String, Value)>,
    num: NumericOracle,
)
    requires
        op == Operator::And || op == Operator::Or,
    ensures
        ({
            let r = eval_spec(CompiledExpr::Binary(op, Box::new(a), Box::new(b)), rec, num);
            &&& (eval_spec(a, rec, num) matches Ok(va) && eval_spec(b, rec, num) matches Ok(vb)
                && !(va is Boolean && vb is Boolean)) ==> r == Ok::<Value, EvalError>(
                Value::Boolean(false),
            )
            &&& r is Err ==> eval_spec(a, rec, num) is Err || eval_spec(b, rec, num) is Err
            &&& r matches Ok(v) ==> v is Boolean
        }),
{
}

/// Arithmetic on two numbers hands their texts to the numeric function and
/// gives its answer unchanged; an operand that is not a number fails.
pub proof fn lemma_arithmetic_delegates(
    op: Operator,
    a: Value,
    b: Value,
    rec: Seq<(String, Value)>,
    num: NumericOracle,
)
    requires
        is_numeric_op(op),
    ensures
        ({
            let r = eval_spec(
                CompiledExpr::Binary(
                    op,
                    Box::new(CompiledExpr::Constant(a)),
                    Box::new(CompiledExpr::Constant(b)),
                ),
                rec,
                num,
            );
            &&& (a is Number && b is Number) ==> r == numeric_result(
                num(op, a->Number_0, b->Number_0),
            )
            &&& !(a is Number && b is Number) ==> r == Err::<Value, EvalError>(
                EvalError::NotNumeric,
            )
        }),
{
    reveal_with_fuel(eval_spec, 2);
}

/// An expression that reads a field the record lacks fails to evaluate.
pub proof fn lemma_missing_field_fails(
    c: CompiledExpr,
    rec: Seq<(String, Value)>,
    num: NumericOracle,
    name: Seq<char>,
)
    requires
        c.references(name),
        lookup(rec, name) is None,
    ensures
        eval_spec(c, rec, num) is Err,
    decreases c,
{
    if let CompiledExpr::Binary(_, a, b) = c {
        if a.references(name) {
            lemma_missing_field_fails(*a, rec, num, name);
        } else {
            lemma_missing_field_fails(*b, rec, num, name);
        }
    }
}

} // verus!
