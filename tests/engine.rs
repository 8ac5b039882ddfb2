use kafka_sql::expr::{evaluate, exec_expr, CompileError, CompiledExpr, EvalError, Expr, Operator};
use kafka_sql::query::{bind, strip_surrounding_quotes, BindError, Select, SelectItem, Statement, TableRef};
use kafka_sql::record::{decode_record, to_ast_value_map, DecodeError, Json};
use kafka_sql::stream::{
    process_payload, RecordError, RecordOutcome, StreamAction, StreamEvent, StreamLoop, StreamState,
};
use kafka_sql::value::{CoercionError, Value};

fn float_ops(op: Operator, a: String, b: String) -> Option<Value> {
    let x: f64 = a.parse().ok()?;
    let y: f64 = b.parse().ok()?;
    Some(match op {
        Operator::Plus => Value::Number(format!("{}", x + y), false),
        Operator::Minus => Value::Number(format!("{}", x - y), false),
        Operator::Multiply => Value::Number(format!("{}", x * y), false),
        Operator::Divide => Value::Number(format!("{}", x / y), false),
        Operator::Gt => Value::Boolean(x > y),
        Operator::Lt => Value::Boolean(x < y),
        _ => return None,
    })
}

fn num(t: &str) -> Value {
    Value::Number(t.to_string(), false)
}

fn text(t: &str) -> Value {
    Value::String(t.to_string())
}

fn lit(v: Value) -> Expr {
    Expr::Value(v)
}

fn field(n: &str) -> Expr {
    Expr::Identifier(n.to_string())
}

fn bin(l: Expr, op: Operator, r: Expr) -> Expr {
    Expr::BinaryOp(Box::new(l), op, Box::new(r))
}

fn eval_on(e: Expr, rec: &Vec<(String, Value)>) -> Result<Value, EvalError> {
    let c = exec_expr(&e).unwrap();
    evaluate(&c, rec, &float_ops)
}

fn as_bool(r: Result<Value, EvalError>) -> bool {
    match r {
        Ok(Value::Boolean(b)) => b,
        other => panic!("not a boolean: {:?}", other),
    }
}

fn as_text(r: Result<Value, EvalError>) -> String {
    match r {
        Ok(v) => v.render(),
        Err(e) => panic!("evaluation failed: {:?}", e),
    }
}

fn select(items: Vec<SelectItem>, table: &str, filter: Option<Expr>) -> Statement {
    Statement::Select(Select {
        projection: items,
        from: vec![TableRef { name: table.to_string(), joined: false }],
        selection: filter,
        other_clauses: false,
    })
}

fn rows(out: RecordOutcome) -> Vec<(String, String)> {
    match out {
        RecordOutcome::Emit(row) => row,
        other => panic!("no row: {:?}", other),
    }
}

fn pairs(p: &[(&str, &str)]) -> Vec<(String, String)> {
    p.iter().map(|(a, b)| (a.to_string(), b.to_string())).collect()
}

#[test]
fn equal_values_of_same_form() {
    let rec = Vec::new();
    assert!(as_bool(eval_on(bin(lit(num("3")), Operator::Eq, lit(num("3"))), &rec)));
    assert!(!as_bool(eval_on(bin(lit(num("3")), Operator::NotEq, lit(num("3"))), &rec)));
    assert!(as_bool(eval_on(bin(lit(text("x")), Operator::Eq, lit(text("x"))), &rec)));
    assert!(as_bool(eval_on(bin(lit(Value::Null), Operator::Eq, lit(Value::Null)), &rec)));
    assert!(as_bool(eval_on(
        bin(lit(Value::Boolean(true)), Operator::Eq, lit(Value::Boolean(true))),
        &rec
    )));
}

#[test]
fn numbers_compare_by_text() {
    let rec = Vec::new();
    let long = Value::Number("3".to_string(), true);
    assert!(as_bool(eval_on(bin(lit(long), Operator::Eq, lit(num("3"))), &rec)));
    let long = Value::Number("3".to_string(), true);
    assert!(!as_bool(eval_on(bin(lit(long), Operator::NotEq, lit(num("3"))), &rec)));
    assert!(!as_bool(eval_on(bin(lit(num("3")), Operator::Eq, lit(num("3.0"))), &rec)));
    assert!(as_bool(eval_on(bin(lit(num("3")), Operator::NotEq, lit(num("3.0"))), &rec)));
}

#[test]
fn different_variants_never_equal() {
    let rec = Vec::new();
    assert!(!as_bool(eval_on(bin(lit(text("1")), Operator::Eq, lit(num("1"))), &rec)));
    assert!(!as_bool(eval_on(bin(lit(Value::Null), Operator::Eq, lit(Value::Boolean(false))), &rec)));
}

#[test]
fn arithmetic_on_numbers() {
    let rec = Vec::new();
    assert_eq!(as_text(eval_on(bin(lit(num("2")), Operator::Plus, lit(num("3"))), &rec)), "5");
    assert_eq!(as_text(eval_on(bin(lit(num("2")), Operator::Minus, lit(num("3"))), &rec)), "-1");
    assert_eq!(as_text(eval_on(bin(lit(num("10")), Operator::Multiply, lit(num("3"))), &rec)), "30");
    assert_eq!(as_text(eval_on(bin(lit(num("7")), Operator::Divide, lit(num("2"))), &rec)), "3.5");
    assert_eq!(as_text(eval_on(bin(lit(num("0.5")), Operator::Plus, lit(num("0.25"))), &rec)), "0.75");
}

#[test]
fn division_by_zero_is_infinite() {
    let rec = Vec::new();
    assert_eq!(as_text(eval_on(bin(lit(num("1")), Operator::Divide, lit(num("0"))), &rec)), "inf");
    assert_eq!(as_text(eval_on(bin(lit(num("-1")), Operator::Divide, lit(num("0"))), &rec)), "-inf");
    assert_eq!(as_text(eval_on(bin(lit(num("0")), Operator::Divide, lit(num("0"))), &rec)), "NaN");
}

#[test]
fn ordering_on_numbers() {
    let rec = Vec::new();
    assert!(as_bool(eval_on(bin(lit(num("2")), Operator::Lt, lit(num("4"))), &rec)));
    assert!(!as_bool(eval_on(bin(lit(num("2")), Operator::Gt, lit(num("4"))), &rec)));
}

#[test]
fn arithmetic_refuses_non_numbers() {
    let rec = Vec::new();
    let r = eval_on(bin(lit(text("2")), Operator::Plus, lit(num("3"))), &rec);
    assert!(matches!(r, Err(EvalError::NotNumeric)));
    let r = eval_on(bin(lit(num("bad")), Operator::Gt, lit(num("3"))), &rec);
    assert!(matches!(r, Err(EvalError::NotNumeric)));
}

#[test]
fn logic_over_non_booleans_is_false() {
    let rec = Vec::new();
    let t = || lit(Value::Boolean(true));
    assert!(!as_bool(eval_on(bin(t(), Operator::And, lit(num("1"))), &rec)));
    assert!(!as_bool(eval_on(bin(t(), Operator::Or, lit(text("x"))), &rec)));
    assert!(!as_bool(eval_on(bin(lit(Value::Null), Operator::Or, lit(Value::Null)), &rec)));
    assert!(as_bool(eval_on(bin(t(), Operator::Or, lit(Value::Boolean(false))), &rec)));
    assert!(!as_bool(eval_on(bin(t(), Operator::And, lit(Value::Boolean(false))), &rec)));
}

#[test]
fn field_lookup_and_missing_field() {
    let rec = vec![("a".to_string(), num("4"))];
    assert_eq!(as_text(eval_on(bin(field("a"), Operator::Multiply, lit(num("2"))), &rec)), "8");
    let r = eval_on(bin(field("b"), Operator::Eq, lit(num("2"))), &rec);
    assert!(matches!(r, Err(EvalError::MissingField(ref n)) if n == "b"));
}

#[test]
fn parentheses_are_erased() {
    let rec = Vec::new();
    let e = Expr::Nested(Box::new(bin(lit(num("1")), Operator::Plus, lit(num("2")))));
    assert_eq!(as_text(eval_on(bin(e, Operator::Multiply, lit(num("3"))), &rec)), "9");
}

#[test]
fn unsupported_shapes_fail_at_compile_time() {
    assert!(matches!(exec_expr(&Expr::Unsupported), Err(CompileError::UnsupportedExpression)));
    let e = bin(lit(num("1")), Operator::Other, lit(num("2")));
    assert!(matches!(exec_expr(&e), Err(CompileError::UnsupportedOperator)));
    let e = bin(Expr::Unsupported, Operator::Other, lit(num("2")));
    assert!(matches!(exec_expr(&e), Err(CompileError::UnsupportedExpression)));
}

#[test]
fn compiled_constant_ignores_record() {
    let c = exec_expr(&lit(text("k"))).unwrap();
    assert!(matches!(c, CompiledExpr::Constant(Value::String(ref s)) if s == "k"));
}

#[test]
fn value_rendering_and_coercion() {
    assert_eq!(Value::Null.render(), "NULL");
    assert_eq!(Value::Boolean(true).render(), "true");
    assert_eq!(num("1.5").render(), "1.5");
    assert_eq!(text("x").render(), "x");
    assert_eq!(num("7").as_number(), Ok("7".to_string()));
    assert_eq!(text("7").as_number(), Err(CoercionError::NotNumeric));
    assert_eq!(Value::Null.as_number(), Err(CoercionError::NotNumeric));
}

#[test]
fn bind_refuses_other_statements() {
    assert!(matches!(bind(&vec![Statement::Other]), Err(BindError::UnsupportedStatement)));
    assert!(matches!(bind(&vec![]), Err(BindError::UnsupportedStatement)));
    let two = vec![
        select(vec![SelectItem::Wildcard], "t", None),
        select(vec![SelectItem::Wildcard], "t", None),
    ];
    assert!(matches!(bind(&two), Err(BindError::UnsupportedStatement)));
    let joined = vec![Statement::Select(Select {
        projection: vec![SelectItem::Wildcard],
        from: vec![TableRef { name: "t".to_string(), joined: true }],
        selection: None,
        other_clauses: false,
    })];
    assert!(matches!(bind(&joined), Err(BindError::UnsupportedStatement)));
    let ordered = vec![Statement::Select(Select {
        projection: vec![SelectItem::Wildcard],
        from: vec![TableRef { name: "t".to_string(), joined: false }],
        selection: None,
        other_clauses: true,
    })];
    assert!(matches!(bind(&ordered), Err(BindError::UnsupportedStatement)));
    let odd_item = vec![select(vec![SelectItem::Unsupported], "t", None)];
    assert!(matches!(bind(&odd_item), Err(BindError::UnsupportedStatement)));
}

#[test]
fn bind_reports_compile_errors() {
    let bad_filter = vec![select(vec![SelectItem::Wildcard], "t", Some(Expr::Unsupported))];
    assert!(matches!(
        bind(&bad_filter),
        Err(BindError::Compile(CompileError::UnsupportedExpression))
    ));
    let bad_item = vec![select(
        vec![SelectItem::Expr(bin(field("a"), Operator::Other, field("b")), "a % b".to_string())],
        "t",
        None,
    )];
    assert!(matches!(
        bind(&bad_item),
        Err(BindError::Compile(CompileError::UnsupportedOperator))
    ));
}

#[test]
fn bind_strips_source_quotes() {
    let b = bind(&vec![select(vec![SelectItem::Wildcard], "'topic_0'", None)]).unwrap();
    assert_eq!(b.source, "topic_0");
    assert_eq!(b.projections.len(), 1);
    assert_eq!(b.projections[0].0, "*");
    assert!(b.filter.is_none());
    assert_eq!(strip_surrounding_quotes(&"\"a'b\"".to_string()), "a'b");
    assert_eq!(strip_surrounding_quotes(&"''".to_string()), "");
    assert_eq!(strip_surrounding_quotes(&"plain".to_string()), "plain");
}

#[test]
fn normalisation_of_json_fields() {
    let fields = vec![
        ("n".to_string(), Json::Null),
        ("b".to_string(), Json::Bool(true)),
        ("x".to_string(), Json::Number("2.5".to_string())),
        ("s".to_string(), Json::String("hi".to_string())),
    ];
    let rec = to_ast_value_map(&fields).unwrap();
    assert!(matches!(rec[0].1, Value::Null));
    assert!(matches!(rec[1].1, Value::Boolean(true)));
    assert!(matches!(rec[2].1, Value::Number(ref t, false) if t == "2.5"));
    assert!(matches!(rec[3].1, Value::String(ref s) if s == "hi"));
    let arr = vec![("a".to_string(), Json::Array)];
    assert_eq!(to_ast_value_map(&arr).unwrap_err(), DecodeError::UnsupportedShape);
}

#[test]
fn decoding_payloads() {
    let rec = decode_record("{\"a\": 1, \"b\": \"x\"}").unwrap();
    assert_eq!(rec.len(), 2);
    assert_eq!(rec[0].0, "a");
    assert!(matches!(rec[0].1, Value::Number(ref t, false) if t == "1"));
    assert!(matches!(rec[1].1, Value::String(ref s) if s == "x"));
    assert_eq!(decode_record("not json").unwrap_err(), DecodeError::Malformed);
    assert_eq!(decode_record("[1, 2]").unwrap_err(), DecodeError::Malformed);
    assert_eq!(decode_record("{\"a\": [1]}").unwrap_err(), DecodeError::UnsupportedShape);
    assert_eq!(decode_record("{\"a\": {}}").unwrap_err(), DecodeError::UnsupportedShape);
    let dup = decode_record("{\"a\": 1, \"a\": 2}").unwrap();
    assert_eq!(dup.len(), 1);
    assert!(matches!(dup[0].1, Value::Number(ref t, false) if t == "2"));
}

#[test]
fn wildcard_projection_emits_every_field() {
    let b = bind(&vec![select(vec![SelectItem::Wildcard], "t", None)]).unwrap();
    let first = rows(process_payload(&b, "{\"a\": 1, \"b\": \"x\"}", &float_ops));
    assert_eq!(first, pairs(&[("a", "1"), ("b", "x")]));
    let again = rows(process_payload(&b, "{\"a\": 1, \"b\": \"x\"}", &float_ops));
    assert_eq!(first, again);
}

fn end_to_end_binding() -> kafka_sql::query::QueryBinding {
    let filter = bin(
        bin(field("field_a"), Operator::Lt, lit(num("4"))),
        Operator::And,
        bin(field("field_b"), Operator::Gt, lit(num("8"))),
    );
    bind(&vec![select(
        vec![
            SelectItem::Expr(field("field_a"), "field_a".to_string()),
            SelectItem::Expr(bin(field("field_b"), Operator::Multiply, lit(num("3"))), "field_b * 3".to_string()),
        ],
        "topic_0",
        Some(filter),
    )])
    .unwrap()
}

#[test]
fn end_to_end_query() {
    let b = end_to_end_binding();
    assert_eq!(b.source, "topic_0");
    let mut lp = StreamLoop::new(b);
    assert!(matches!(lp.handle(StreamEvent::Subscribed, &float_ops), StreamAction::Wait));
    assert_eq!(lp.state, StreamState::Running);
    let deliver = |p: &str| StreamEvent::Delivered(p.to_string());
    match lp.handle(deliver("{\"field_a\": 2, \"field_b\": 10}"), &float_ops) {
        StreamAction::Record(out) => {
            assert_eq!(rows(out), pairs(&[("field_a", "2"), ("field_b * 3", "30")]))
        }
        other => panic!("unexpected {:?}", other),
    }
    assert!(matches!(
        lp.handle(deliver("{\"field_a\": 5, \"field_b\": 10}"), &float_ops),
        StreamAction::Record(RecordOutcome::Filtered)
    ));
    assert!(matches!(
        lp.handle(deliver("{\"field_a\": 2, \"field_b\": \"bad\"}"), &float_ops),
        StreamAction::Record(RecordOutcome::Skipped(RecordError::Eval(EvalError::NotNumeric)))
    ));
    assert_eq!(lp.state, StreamState::Running);
    assert!(matches!(lp.handle(StreamEvent::Ended, &float_ops), StreamAction::Finish));
    assert_eq!(lp.state, StreamState::Terminated);
}

#[test]
fn quoted_numbers_are_not_coerced() {
    let b = end_to_end_binding();
    let out = process_payload(&b, "{\"field_a\": \"2\", \"field_b\": \"10\"}", &float_ops);
    assert!(matches!(out, RecordOutcome::Skipped(RecordError::Eval(EvalError::NotNumeric))));
}

#[test]
fn missing_field_skips_and_loop_continues() {
    let b = end_to_end_binding();
    let mut lp = StreamLoop::new(b);
    lp.handle(StreamEvent::Subscribed, &float_ops);
    let out = lp.handle(StreamEvent::Delivered("{\"field_b\": 10}".to_string()), &float_ops);
    assert!(matches!(
        out,
        StreamAction::Record(RecordOutcome::Skipped(RecordError::Eval(EvalError::MissingField(ref n)))) if n == "field_a"
    ));
    assert_eq!(lp.state, StreamState::Running);
    let next = lp.handle(StreamEvent::Delivered("{\"field_a\": 1, \"field_b\": 9}".to_string()), &float_ops);
    match next {
        StreamAction::Record(out) => assert_eq!(rows(out), pairs(&[("field_a", "1"), ("field_b * 3", "27")])),
        other => panic!("unexpected {:?}", other),
    }
}

#[test]
fn undecodable_payload_is_skipped() {
    let b = end_to_end_binding();
    let out = process_payload(&b, "{oops", &float_ops);
    assert!(matches!(out, RecordOutcome::Skipped(RecordError::Decode(DecodeError::Malformed))));
}

#[test]
fn rejected_subscription_aborts() {
    let b = bind(&vec![select(vec![SelectItem::Wildcard], "t", None)]).unwrap();
    let mut lp = StreamLoop::new(b);
    assert_eq!(lp.source(), "t");
    assert!(matches!(lp.handle(StreamEvent::SubscribeRejected, &float_ops), StreamAction::Abort));
    assert_eq!(lp.state, StreamState::Terminated);
    assert!(matches!(lp.handle(StreamEvent::Ended, &float_ops), StreamAction::Wait));
}

#[test]
fn delivery_errors_are_reported_and_loop_continues() {
    let b = bind(&vec![select(vec![SelectItem::Wildcard], "t", None)]).unwrap();
    let mut lp = StreamLoop::new(b);
    lp.handle(StreamEvent::Subscribed, &float_ops);
    assert!(matches!(lp.handle(StreamEvent::DeliveryFailed, &float_ops), StreamAction::DeliveryError));
    assert_eq!(lp.state, StreamState::Running);
}
