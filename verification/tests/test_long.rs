use compiler::compiler::compile;
use compiler::errors::CompilerError;

#[test]
fn test_overflow() {
    let source = r#"
    int main() {
    long l = 170141183460469231731687303715884105727;
    return 0;
    }"#;
    let result = compile(source.to_string());
    assert!(matches!(result, Err(CompilerError::SyntaxError(_))), "{:?}", result);
}

#[test]
fn test_too_many_suffixes() {
    let source = r#"
    int main() {
    long l = 1000000lL;
    return l;
    }"#;
    let result = compile(source.to_string());
    assert!(matches!(result, Err(CompilerError::SyntaxError(_))), "{:?}", result);
}

#[test]
fn test_long_as_identifier() {
    let source = r#"
    int long() {
    return 0;
    }
    int main() {
    return 0;
    }"#;
    let result = compile(source.to_string());
    assert!(matches!(result, Err(CompilerError::SyntaxError(_))), "{:?}", result);
}

#[test]
fn test_conflicting_global_types() {
    let source = r#"
    int a;
    long a;
    int main() {
    return a;
    }"#;
    let result = compile(source.to_string());
    assert!(matches!(result, Err(CompilerError::SemanticError(_))), "{:?}", result);
}

#[test]
fn test_conflicting_extern_types() {
    let source = r#"
long a;

int main() {
    extern int a;
    return 0;
    }"#;
    let result = compile(source.to_string());
    assert!(matches!(result, Err(CompilerError::SemanticError(_))), "{:?}", result);
}

#[test]
fn test_conflicting_function_param_types() {
    let source = r#"int foo(int a);

int main() {
    return 0;
}

int foo(long a);"#;
    let result = compile(source.to_string());
    assert!(matches!(result, Err(CompilerError::SemanticError(_))), "{:?}", result);
}

#[test]
fn test_conflicting_function_return_types() {
    let source = r#"int foo(int a);

int main() {
    return 0;
}

long foo(int a);"#;
    let result = compile(source.to_string());
    assert!(matches!(result, Err(CompilerError::SemanticError(_))), "{:?}", result);
}

#[test]
fn test_invalid_specifier() {
    let source = r#"
    int main() {
        long long a;
        return 0;
    }
    "#;
    let result = compile(source.to_string());
    assert!(matches!(result, Err(CompilerError::SyntaxError(_))), "{:?}", result);
}

#[test]
fn test_cast_without_parentheses() {
    let source = r#"
    int main() {
        long a = long 1000000l;
        return a;
    }
    "#;
    let result = compile(source.to_string());
    assert!(matches!(result, Err(CompilerError::SyntaxError(_))), "{:?}", result);
}

#[test]
fn test_invalid_cast() {
    let source = r#"
    int main() {
        long a = (static long) 1000000l;
        return a;
    }
    "#;
    let result = compile(source.to_string());
    assert!(matches!(result, Err(CompilerError::SyntaxError(_))), "{:?}", result);
}
