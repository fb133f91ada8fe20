use compiler::compiler::compile;
use compiler::errors::CompilerError;

#[test]
fn test_missing_const() {
    let source = r#"
int main() {
    return ~;
}
"#;
    let result = compile(source.to_string());
    assert!(matches!(result, Err(CompilerError::SyntaxError(_))), "{:?}", result);
}

#[test]
fn test_missing_semicolon2() {
    let source = r#"
int main() {
    return ~12
}
"#;
    let result = compile(source.to_string());
    assert!(matches!(result, Err(CompilerError::SyntaxError(_))), "{:?}", result);
}

#[test]
fn test_wrong_order() {
    let source = r#"
int main() {
    return 12~;
}
"#;
    let result = compile(source.to_string());
    assert!(matches!(result, Err(CompilerError::SyntaxError(_))), "{:?}", result);
}
