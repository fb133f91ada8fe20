use compiler::compiler::compile;
use compiler::errors::CompilerError;

#[test]
fn test_else_without_if() {
    let source = r#"
        int main() {
            else return 3;
    "#;
    let result = compile(source.to_string());
    assert!(matches!(result, Err(CompilerError::SyntaxError(_))), "{:?}", result);
}

#[test]
fn test_ternary_without_condition() {
    let source = r#"
        int main() {
            return ? 1 : 2;
        }
    "#;
    let result = compile(source.to_string());
    assert!(matches!(result, Err(CompilerError::SyntaxError(_))), "{:?}", result);
}

#[test]
fn test_ternary_without_first_case() {
    let source = r#"
        int main() {
            return ? : 2;
        }
    "#;
    let result = compile(source.to_string());
    assert!(matches!(result, Err(CompilerError::SyntaxError(_))), "{:?}", result);
}

#[test]
fn test_ternary_without_second_case() {
    let source = r#"
        int main() {
            return 0 ? 1 :;
        }
    "#;
    let result = compile(source.to_string());
    assert!(matches!(result, Err(CompilerError::SyntaxError(_))), "{:?}", result);
}

#[test]
fn test_ternary_without_question() {
    let source = r#"
        int main() {
            return 1 : 2;
        }
    "#;
    let result = compile(source.to_string());
    assert!(matches!(result, Err(CompilerError::SyntaxError(_))), "{:?}", result);
}

#[test]
fn test_ternary_without_colon() {
    let source = r#"
        int main() {
            return 0 ? 1  2;
        }
    "#;
    let result = compile(source.to_string());
    assert!(matches!(result, Err(CompilerError::SyntaxError(_))), "{:?}", result);
}

#[test]
fn test_if_empty_condition() {
    let source = r#"
        int main() {
            if () return 1;
        }
    "#;
    let result = compile(source.to_string());
    assert!(matches!(result, Err(CompilerError::SyntaxError(_))), "{:?}", result);
}

#[test]
fn test_if_empty_body() {
    let source = r#"
        int main() {
            if (1)
        }
    "#;
    let result = compile(source.to_string());
    assert!(matches!(result, Err(CompilerError::SyntaxError(_))), "{:?}", result);
}

#[test]
fn test_missing_parentheses_in_if() {
    let source = r#"
        int main() {
            if 1 > 0 return 10;
        }
    "#;
    let result = compile(source.to_string());
    assert!(matches!(result, Err(CompilerError::SyntaxError(_))), "{:?}", result);
}

#[test]
fn test_double_else() {
    let source = r#"
        int main() {
            if (1 > 0) return 10;
            else return 20;
            else return 30;
        }
    "#;
    let result = compile(source.to_string());
    assert!(matches!(result, Err(CompilerError::SyntaxError(_))), "{:?}", result);
}

#[test]
fn test_else_if_without_condition() {
    let source = r#"
        int main() {
            if (1 > 0) return 10;
            else if return 20;
        }
    "#;
    let result = compile(source.to_string());
    assert!(matches!(result, Err(CompilerError::SyntaxError(_))), "{:?}", result);
}

#[test]
fn test_missing_semicolon_in_if() {
    let source = r#"
        int main() {
            int a = 0;
            if (1 > 0) a = 10
            return a;
        }
    "#;
    let result = compile(source.to_string());
    assert!(matches!(result, Err(CompilerError::SyntaxError(_))), "{:?}", result);
}

#[test]
fn test_if_with_multiple_statements() {
    let source = r#"
        int main() {
            if (1 > 0) int a = 10; return a;
        }
    "#;
    let result = compile(source.to_string());
    assert!(matches!(result, Err(CompilerError::SyntaxError(_))), "{:?}", result);
}
