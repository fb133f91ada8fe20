use compiler::compiler::compile;
use compiler::errors::CompilerError;

#[test]
fn test_unsigned_overflow() {
    let source = r#"
    int main() {
    unsigned long ul = 184467440737095516150ul;
    return 0;
    }
    "#;
    let result = compile(source.to_string());
    assert!(matches!(result, Err(CompilerError::SyntaxError(_))), "{:?}", result);
}

#[test]
fn test_too_many_unsigned_suffixes() {
    let source = r#"
    int main() {
    unsigned long ul = 1000000uLU;
    return ul;
    }
    "#;
    let result = compile(source.to_string());
    assert!(matches!(result, Err(CompilerError::SyntaxError(_))), "{:?}", result);
}

#[test]
fn test_unsigned_as_identifier() {
    let source = r#"
    int unsigned() {
    return 0;
    }
    int main() {
    return 0;
    }
    "#;
    let result = compile(source.to_string());
    assert!(matches!(result, Err(CompilerError::SyntaxError(_))), "{:?}", result);
}

#[test]
fn test_conflicting_unsigned_global_types() {
    let source = r#"
    int a;
    unsigned int a;
    int main() {
    return a;
    }
    "#;
    let result = compile(source.to_string());
    assert!(matches!(result, Err(CompilerError::SemanticError(_))), "{:?}", result);
}

#[test]
fn test_conflicting_unsigned_extern_types() {
    let source = r#"
unsigned int a;

int main() {
    extern int a;
    return 0;
    }
    "#;
    let result = compile(source.to_string());
    assert!(matches!(result, Err(CompilerError::SemanticError(_))), "{:?}", result);
}

#[test]
fn test_conflicting_unsigned_function_param_types() {
    let source = r#"int foo(int a);

int main() {
    return 0;
}

int foo(unsigned int a);"#;
    let result = compile(source.to_string());
    assert!(matches!(result, Err(CompilerError::SemanticError(_))), "{:?}", result);
}

#[test]
fn test_conflicting_unsigned_function_return_types() {
    let source = r#"int foo(int a);

int main() {
    return 0;
}

unsigned int foo(int a);"#;
    let result = compile(source.to_string());
    assert!(matches!(result, Err(CompilerError::SemanticError(_))), "{:?}", result);
}

#[test]
fn test_invalid_unsigned_specifier() {
    let source = r#"
    int main() {
        unsigned unsigned int a;
        return 0;
    }
    "#;
    let result = compile(source.to_string());
    assert!(matches!(result, Err(CompilerError::SyntaxError(_))), "{:?}", result);
}

#[test]
fn test_cast_without_unsigned_parentheses() {
    let source = r#"
    int main() {
        unsigned int a = unsigned int 1000000;
        return a;
    }
    "#;
    let result = compile(source.to_string());
    assert!(matches!(result, Err(CompilerError::SyntaxError(_))), "{:?}", result);
}

#[test]
fn test_invalid_unsigned_cast() {
    let source = r#"
    int main() {
        unsigned int a = (static unsigned int) 1000000u;
        return a;
    }
    "#;
    let result = compile(source.to_string());
    assert!(matches!(result, Err(CompilerError::SyntaxError(_))), "{:?}", result);
}
