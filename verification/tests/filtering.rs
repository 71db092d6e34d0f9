use toy_rust_db::error::{ErrorClass, EvalFault, QueryError};
use toy_rust_db::filter::{
    FilterRule, LogicalFilter, LogicalOp, NumberFilter, NumberOp, StringFilter,
};

fn row(fields: &[&str]) -> Vec<String> {
    fields.iter().map(|s| s.to_string()).collect()
}

fn age(op: NumberOp, val: usize) -> FilterRule {
    FilterRule::Number(NumberFilter { col: 2, op, val })
}

fn name_is(val: &str) -> FilterRule {
    FilterRule::Text(StringFilter { col: 1, val: val.to_string() })
}

fn both(f1: FilterRule, op: LogicalOp, f2: FilterRule) -> FilterRule {
    FilterRule::Logical(LogicalFilter { f1: Box::new(f1), op, f2: Box::new(f2) })
}

#[test]
fn number_operators() {
    let alice = row(&["1", "Alice", "30"]);
    assert_eq!(age(NumberOp::LT, 30).filter(&alice), Ok(false));
    assert_eq!(age(NumberOp::LT, 31).filter(&alice), Ok(true));
    assert_eq!(age(NumberOp::LEQ, 30).filter(&alice), Ok(true));
    assert_eq!(age(NumberOp::LEQ, 29).filter(&alice), Ok(false));
    assert_eq!(age(NumberOp::GT, 30).filter(&alice), Ok(false));
    assert_eq!(age(NumberOp::GT, 29).filter(&alice), Ok(true));
    assert_eq!(age(NumberOp::GEQ, 30).filter(&alice), Ok(true));
    assert_eq!(age(NumberOp::GEQ, 31).filter(&alice), Ok(false));
    assert_eq!(age(NumberOp::EQ, 30).filter(&alice), Ok(true));
    assert_eq!(age(NumberOp::EQ, 3).filter(&alice), Ok(false));
    assert!(NumberOp::LT.apply(1, 2));
    assert!(!NumberOp::GT.apply(1, 2));
}

#[test]
fn number_filter_on_a_field_that_is_no_number() {
    let odd = row(&["3", "Carol", "thirty"]);
    let r = NumberFilter { col: 2, op: NumberOp::LT, val: 40 }.filter(&odd);
    assert_eq!(r, Err(QueryError::QueryFailed(EvalFault::NotANumber { col: 2 })));
    assert_eq!(r.unwrap_err().class(), ErrorClass::Eval);
    let empty = row(&["3", "Carol", ""]);
    assert_eq!(
        age(NumberOp::EQ, 0).filter(&empty),
        Err(QueryError::QueryFailed(EvalFault::NotANumber { col: 2 }))
    );
}

#[test]
fn string_filter_is_exact() {
    let bob = row(&["2", "Bob", "25"]);
    let f = StringFilter { col: 1, val: "Bob".to_string() };
    assert_eq!(f.filter(&bob), Ok(true));
    assert_eq!(name_is("bob").filter(&bob), Ok(false));
    assert_eq!(name_is("Bob ").filter(&bob), Ok(false));
    assert_eq!(name_is("").filter(&bob), Ok(false));
}

#[test]
fn a_missing_field_is_an_error() {
    let short = row(&["2"]);
    assert_eq!(
        name_is("Bob").filter(&short),
        Err(QueryError::QueryFailed(EvalFault::MissingField { col: 1 }))
    );
    assert_eq!(
        age(NumberOp::EQ, 1).filter(&short),
        Err(QueryError::QueryFailed(EvalFault::MissingField { col: 2 }))
    );
}

#[test]
fn and_short_circuits_on_false() {
    let odd = row(&["3", "Carol", "thirty"]);
    let f = both(name_is("Bob"), LogicalOp::And, age(NumberOp::LT, 40));
    assert_eq!(f.filter(&odd), Ok(false));
    let g = both(name_is("Carol"), LogicalOp::And, age(NumberOp::LT, 40));
    assert_eq!(g.filter(&odd), Err(QueryError::QueryFailed(EvalFault::NotANumber { col: 2 })));
}

#[test]
fn or_short_circuits_on_true() {
    let odd = row(&["3", "Carol", "thirty"]);
    let f = both(name_is("Carol"), LogicalOp::Or, age(NumberOp::LT, 40));
    assert_eq!(f.filter(&odd), Ok(true));
    let g = both(name_is("Bob"), LogicalOp::Or, age(NumberOp::LT, 40));
    assert_eq!(g.filter(&odd), Err(QueryError::QueryFailed(EvalFault::NotANumber { col: 2 })));
}

#[test]
fn an_error_on_the_left_ends_the_evaluation() {
    let odd = row(&["3", "Carol", "thirty"]);
    let f = both(age(NumberOp::LT, 40), LogicalOp::Or, name_is("Carol"));
    assert_eq!(f.filter(&odd), Err(QueryError::QueryFailed(EvalFault::NotANumber { col: 2 })));
}

#[test]
fn logical_truth_tables() {
    let alice = row(&["1", "Alice", "30"]);
    let t = || name_is("Alice");
    let f = || name_is("Bob");
    assert_eq!(both(t(), LogicalOp::And, t()).filter(&alice), Ok(true));
    assert_eq!(both(t(), LogicalOp::And, f()).filter(&alice), Ok(false));
    assert_eq!(both(f(), LogicalOp::And, t()).filter(&alice), Ok(false));
    assert_eq!(both(f(), LogicalOp::Or, f()).filter(&alice), Ok(false));
    assert_eq!(both(f(), LogicalOp::Or, t()).filter(&alice), Ok(true));
    assert_eq!(both(t(), LogicalOp::Or, f()).filter(&alice), Ok(true));
    let lf = LogicalFilter { f1: Box::new(t()), op: LogicalOp::And, f2: Box::new(t()) };
    assert_eq!(lf.filter(&alice), Ok(true));
}
