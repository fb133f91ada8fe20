use compiler::compiler::compile;
use compiler::errors::CompilerError;

#[test]
fn test_missing_closing_brace() {
    let source = r#"
int main() {
    return 0;
"#;
    let result = compile(source.to_string());
    assert!(matches!(result, Err(CompilerError::SyntaxError(_))), "{:?}", result);
}

#[test]
fn test_missing_opening_brace() {
    let source = r#"
int main()
    return 0;
}
"#;
    let result = compile(source.to_string());
    assert!(matches!(result, Err(CompilerError::SyntaxError(_))), "{:?}", result);
}

#[test]
fn test_missing_main_function_name() {
    let source = r#"
int () {
    return 0;
}
"#;
    let result = compile(source.to_string());
    assert!(matches!(result, Err(CompilerError::SyntaxError(_))), "{:?}", result);
}

#[test]
fn test_missing_return_value() {
    let source = r#"
int main() {
    return ;
}
"#;
    let result = compile(source.to_string());
    assert!(matches!(result, Err(CompilerError::SyntaxError(_))), "{:?}", result);
}

#[test]
fn test_missing_semicolon() {
    let source = r#"
int main() {
    return 0
}
"#;
    let result = compile(source.to_string());
    assert!(matches!(result, Err(CompilerError::SyntaxError(_))), "{:?}", result);
}

#[test]
fn test_missing_space_return_literal() {
    let source = r#"
int main() {
    return0;
}
"#;
    let result = compile(source.to_string());
    assert!(matches!(result, Err(CompilerError::SemanticError(_))), "{:?}", result);
}

#[test]
fn test_unknown_symbol_char() {
    let source = r#"
int main() {
    #; // '#' is not standard C syntax
    return 0;
}
"#;
    let result = compile(source.to_string());
    assert!(matches!(result, Err(CompilerError::SyntaxError(_))), "{:?}", result);
}
