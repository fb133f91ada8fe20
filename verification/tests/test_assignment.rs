use compiler::compiler::compile;
use compiler::errors::CompilerError;

#[test]
fn test_assign_to_return() {
    let source = r#"int main() { int return = 5; return return;}"#;
    let result = compile(source.to_string());
    assert!(matches!(result, Err(CompilerError::SyntaxError(_))), "{:?}", result);
}

#[test]
fn test_declaration_in_return() {
    let source = r#"int main() { return int a = 5; }"#;
    let result = compile(source.to_string());
    assert!(matches!(result, Err(CompilerError::SyntaxError(_))), "{:?}", result);
}

#[test]
fn test_bad_type() {
    let source = r#"int main() { ints a = 0; return a; }"#;
    let result = compile(source.to_string());
    assert!(matches!(result, Err(CompilerError::SyntaxError(_))), "{:?}", result);
}

#[test]
fn test_undefined() {
    let source = r#"int main() { return a; }"#;
    let result = compile(source.to_string());
    assert!(matches!(result, Err(CompilerError::SemanticError(_))), "{:?}", result);
}

#[test]
fn test_assign_before_declare() {
    let source = r#"int main() { a = 5; int a; return a; }"#;
    let result = compile(source.to_string());
    assert!(matches!(result, Err(CompilerError::SemanticError(_))), "{:?}", result);
}

#[test]
fn test_duplicate_declaration() {
    let source = r#"int main() { int a = 1; int a = 2; return a; }"#;
    let result = compile(source.to_string());
    assert!(matches!(result, Err(CompilerError::SemanticError(_))), "{:?}", result);
}

#[test]
fn test_invalid_prefix_increment() {
    let source = r#"int main() { int a = 0; return ++0; }"#;
    let result = compile(source.to_string());
    assert!(matches!(result, Err(CompilerError::SemanticError(_))), "{:?}", result);
}

#[test]
fn test_invalid_prefix_decrement() {
    let source = r#"int main() { int a = 0; return --0; }"#;
    let result = compile(source.to_string());
    assert!(matches!(result, Err(CompilerError::SemanticError(_))), "{:?}", result);
}

#[test]
fn test_invalid_postfix_increment() {
    let source = r#"int main() { return 0++; }"#;
    let result = compile(source.to_string());
    assert!(matches!(result, Err(CompilerError::SemanticError(_))), "{:?}", result);
}

#[test]
fn test_invalid_postfix_decrement() {
    let source = r#"int main() { return 0--; }"#;
    let result = compile(source.to_string());
    assert!(matches!(result, Err(CompilerError::SemanticError(_))), "{:?}", result);
}

#[test]
fn test_invalid_assign() {
    let source = r#"int main() { int a; 1 + (0 = 5); return 0; }"#;
    let result = compile(source.to_string());
    assert!(matches!(result, Err(CompilerError::SemanticError(_))), "{:?}", result);
}

#[test]
fn test_not_lvalue() {
    let source = r#"int main() { int a = 0; -a = 1; return a; }"#;
    let result = compile(source.to_string());
    assert!(matches!(result, Err(CompilerError::SemanticError(_))), "{:?}", result);
}

#[test]
fn test_invalid_prefix_on_expressions() {
    let source = r#"int main() { int a = 1; int b = 2; return ++(a + b); }"#;
    let result = compile(source.to_string());
    assert!(matches!(result, Err(CompilerError::SemanticError(_))), "{:?}", result);
}

#[test]
fn test_prefix_with_assignment() {
    let source = r#"int main() { int a = 0; int b = ++(a = 5); return b; }"#;
    let result = compile(source.to_string());
    assert!(matches!(result, Err(CompilerError::SemanticError(_))), "{:?}", result);
}

#[test]
fn test_chained_postfix_operators() {
    let source = r#"int main() { int a = 0; return (a++)++; }"#;
    let result = compile(source.to_string());
    assert!(matches!(result, Err(CompilerError::SemanticError(_))), "{:?}", result);
}

#[test]
fn test_invalid_compound_targets() {
    let source = r#"int main() { int a = 5; (a + 2) += 3; return a; }"#;
    let result = compile(source.to_string());
    assert!(matches!(result, Err(CompilerError::SemanticError(_))), "{:?}", result);
}

#[test]
fn test_prefix_with_compound_assignment() {
    let source = r#"int main() { int a = 1; return ++(a += 2); }"#;
    let result = compile(source.to_string());
    assert!(matches!(result, Err(CompilerError::SemanticError(_))), "{:?}", result);
}

#[test]
fn test_postfix_with_compound_assignment() {
    let source = r#"int main() { int a = 1; return (a += 2)++; }"#;
    let result = compile(source.to_string());
    assert!(matches!(result, Err(CompilerError::SemanticError(_))), "{:?}", result);
}

#[test]
fn test_order_of_evaluation() {
    let source = r#"int main() { int a = 1; int b = 1; return (a += b) += ++b; }"#;
    let result = compile(source.to_string());
    assert!(matches!(result, Err(CompilerError::SemanticError(_))), "{:?}", result);
}

#[test]
fn test_invalid_unary_plus_with_increment() {
    let source = r#"int main() { int a = 5; return (+a)++; }"#;
    let result = compile(source.to_string());
    assert!(matches!(result, Err(CompilerError::SemanticError(_))), "{:?}", result);
}
