use compiler::compiler::compile;
use compiler::errors::CompilerError;

#[test]
fn test_static_and_extern_variable() {
    let source = r#"
    static extern foo = 1;
    int main() {
        return foo;
        }"#;
    let result = compile(source.to_string());
    assert!(matches!(result, Err(CompilerError::SyntaxError(_))), "{:?}", result);
}

#[test]
fn test_static_and_extern_function() {
    let source = r#"
    static int extern foo(void) {
    return 0;
}

int main(void) {
    return foo();
}"#;
    let result = compile(source.to_string());
    assert!(matches!(result, Err(CompilerError::SyntaxError(_))), "{:?}", result);
}

#[test]
fn test_extern_in_param() {
    let source = r#"
    int foo(extern int a) {
    return a;
    }
    int main() {
    return foo(1);
    }"#;
    let result = compile(source.to_string());
    assert!(matches!(result, Err(CompilerError::SyntaxError(_))), "{:?}", result);
}

#[test]
fn test_static_in_param() {
    let source = r#"
    int foo(static int a) {
    return a;
    }
    int main() {
    return foo(1);
    }"#;
    let result = compile(source.to_string());
    assert!(matches!(result, Err(CompilerError::SyntaxError(_))), "{:?}", result);
}

#[test]
fn test_duplicate_static() {
    let source = r#"
    int main() {
    static int a;
    int a;
    return a;
    }
    "#;
    let result = compile(source.to_string());
    assert!(matches!(result, Err(CompilerError::SemanticError(_))), "{:?}", result);
}

#[test]
fn test_duplicate_static2() {
    let source = r#"
    int main() {
        int a;
        static int a;
        return a;
    }
    "#;
    let result = compile(source.to_string());
    assert!(matches!(result, Err(CompilerError::SemanticError(_))), "{:?}", result);
}

#[test]
fn test_duplicate_extern() {
    let source = r#"
    int main() {
        extern int a;
        int a;
        return a;
    }
    "#;
    let result = compile(source.to_string());
    assert!(matches!(result, Err(CompilerError::SemanticError(_))), "{:?}", result);
}

#[test]
fn test_duplicate_extern2() {
    let source = r#"
    int main() {
        int a;
        extern int a;
        return a;
    }
    "#;
    let result = compile(source.to_string());
    assert!(matches!(result, Err(CompilerError::SemanticError(_))), "{:?}", result);
}

#[test]
fn test_extern_with_initializer_block_scope() {
    let source = r#"
    int main() {
        extern int a = 10; // Error: extern with initializer at block scope
        return a;
    }"#;
    let result = compile(source.to_string());
    assert!(matches!(result, Err(CompilerError::SemanticError(_))), "{:?}", result);
}

#[test]
fn test_static_in_for_loop() {
    let source = r#"
    int main() {
        for (static int i = 0; i < 10; i++) {
            // Empty
        }
        return 0;
    }"#;
    let result = compile(source.to_string());
    assert!(matches!(result, Err(CompilerError::SyntaxError(_))), "{:?}", result);
}
