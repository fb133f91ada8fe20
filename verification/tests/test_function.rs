use compiler::compiler::compile;
use compiler::errors::CompilerError;

#[test]
fn test_duplicate_definition() {
    let source = r#"
    int foo(int a) {
    return a;
    }

    int foo(int a) {
    return a;
    }

    int main () {
    return foo(1);
    }
    "#;
    let result = compile(source.to_string());
    assert!(matches!(result, Err(CompilerError::SemanticError(_))), "{:?}", result);
}

#[test]
fn test_undefined_function() {
    let source = r#"
    int main() {
    return foo(1);
    }
    "#;
    let result = compile(source.to_string());
    assert!(matches!(result, Err(CompilerError::SemanticError(_))), "{:?}", result);
}

#[test]
fn test_passing_too_few_args() {
    let source = r#"
    int foo(int a) {
    return a;
    }
    int main() {
    return foo();
    }
    "#;
    let result = compile(source.to_string());
    assert!(matches!(result, Err(CompilerError::SemanticError(_))), "{:?}", result);
}

#[test]
fn test_passing_too_many_args() {
    let source = r#"
    int foo(int a) {
    return a;
    }
    int main() {
    return foo(1, 2);
}"#;
    let result = compile(source.to_string());
    assert!(matches!(result, Err(CompilerError::SemanticError(_))), "{:?}", result);
}

#[test]
fn test_inner_function() {
    let source = r#"
    int foo(int a) {
        int bar(int b) {
            return a + b;
        }
        return bar(1);
    }
    int main() {
        return foo(1);
    }
    "#;
    let result = compile(source.to_string());
    assert!(matches!(result, Err(CompilerError::SemanticError(_))), "{:?}", result);
}

#[test]
fn test_function_declaration_in_for_loop() {
    let source = r#"
int main() {
    for (int f(); ; ) {
        return 0;
    }"#;
    let result = compile(source.to_string());
    assert!(matches!(result, Err(CompilerError::SyntaxError(_))), "{:?}", result);
}

#[test]
fn test_assign_variable_to_function() {
    let source = r#"
            int f() {
            return 0;
        }
    int main() {

        f = 1;
        return 0;
    }"#;
    let result = compile(source.to_string());
    assert!(matches!(result, Err(CompilerError::SemanticError(_))), "{:?}", result);
}

#[test]
fn test_assignment_in_param() {
    let source = r#"
    int foo(int a = 2) {
        a = 1;
        return a;
    }
    int main() {
        return foo(1);
    }"#;
    let result = compile(source.to_string());
    assert!(matches!(result, Err(CompilerError::SyntaxError(_))), "{:?}", result);
}
