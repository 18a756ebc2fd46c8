use komrad::ast::{Expr, Value};
use komrad::number::Number;
use komrad::sexpr::Sexpr;
use komrad::to_sexpr::ToSexpr;
use owo_colors::OwoColorize;

#[test]
fn test_expr_to_sexpr() {
    let expr = Expr::Value(Value::Number(Number::UInt(42)));
    assert_eq!(
        expr.to_sexpr().format(0),
        format!(
            "{}{} 42{}",
            "(".bright_red().bold(),
            "number".bright_cyan(),
            ")".bright_red().bold()
        )
    );
}

#[test]
fn test_sexpr_format() {
    let sexpr = Sexpr::List(vec![
        Sexpr::Atom("foo".to_string()),
        Sexpr::List(vec![Sexpr::Atom("bar".to_string())]),
    ]);
    assert_eq!(
        sexpr.format(0),
        format!(
            "{}{} {}{}{}{}",
            "(".bright_red().bold(),
            "foo".bright_cyan(),
            "(".bright_red().bold(),
            "bar".bright_cyan(),
            ")".bright_red().bold(),
            ")".bright_red().bold()
        )
    );
}

#[test]
fn test_value_to_sexpr() {
    let value = Value::Number(Number::UInt(42));
    assert_eq!(
        value.to_sexpr().format(0),
        format!(
            "{}{} 42{}",
            "(".bright_red().bold(),
            "number".bright_cyan(),
            ")".bright_red().bold()
        )
    );
}

#[test]
fn sexpr_indented_format_puts_items_on_lines() {
    let sexpr = Sexpr::List(vec![Sexpr::Atom("a".to_string()), Sexpr::Atom("b".to_string())]);
    assert_eq!(
        sexpr.format(2),
        format!(
            "{}\n  {}\n  b\n{}",
            "(".bright_red().bold(),
            "a".bright_cyan(),
            ")".bright_red().bold()
        )
    );
}

#[test]
fn sexpr_empty_list_and_skip() {
    assert_eq!(Sexpr::List(vec![]).format(0), "()");
    let with_skip = Sexpr::List(vec![Sexpr::Skip, Sexpr::Atom("x".to_string())]);
    assert_eq!(
        with_skip.format(0),
        format!("{}{}{}", "(".bright_red().bold(), "x".bright_cyan(), ")".bright_red().bold())
    );
}

#[test]
fn sexpr_depth_counts_nested_lists() {
    let s = Sexpr::List(vec![Sexpr::List(vec![Sexpr::Atom("x".to_string())])]);
    assert_eq!(s.depth(), Some(2));
    assert_eq!(Sexpr::Atom("y".to_string()).depth(), Some(0));
}

#[test]
fn sexpr_shows_with_two_spaces_of_indentation() {
    let sexpr = Sexpr::List(vec![Sexpr::Atom("a".to_string()), Sexpr::Atom("b".to_string())]);
    assert_eq!(sexpr.to_text(), sexpr.format(2));
    assert_eq!(
        sexpr.to_text(),
        format!("{}\n  {}\n  b\n{}", "(".bright_red().bold(), "a".bright_cyan(), ")".bright_red().bold())
    );
    assert_eq!(Sexpr::Atom("x".to_string()).to_text(), "x");
}
