use compiler::compiler::compile;
use compiler::errors::CompilerError;

#[test]
fn test_duplicate_in_same_block() {
    let source = r#"
        int main() {
            int a = 2;
            {
                int a = 3;
                int a = 4;
                int b = a + 2;
            }
            return a;
        }
    "#;
    let result = compile(source.to_string());
    assert!(matches!(result, Err(CompilerError::SemanticError(_))), "{:?}", result);
}

#[test]
fn test_duplicate_in_if_block() {
    let source = r#"
        int main() {
            int a = 5;

            if (1) {
                int b = 10;
                int b = 20;  // Duplicate variable in same block
            }

            return a;
        }
    "#;
    let result = compile(source.to_string());
    assert!(matches!(result, Err(CompilerError::SemanticError(_))), "{:?}", result);
}

#[test]
fn test_duplicate_in_else_block() {
    let source = r#"
        int main() {
            int a = 5;

            if (0) {
                int b = 10;
            } else {
                int c = 15;
                int c = 25;  // Duplicate variable in same block
            }

            return a;
        }
    "#;
    let result = compile(source.to_string());
    assert!(matches!(result, Err(CompilerError::SemanticError(_))), "{:?}", result);
}

#[test]
fn test_unbalanced_braces_missing() {
    let source = r#"
        int main() {
            int a = 2;
            if (1) {
                int b = 3;
                // Missing closing brace
            return a;
        }
    "#;
    let result = compile(source.to_string());
    assert!(matches!(result, Err(CompilerError::SyntaxError(_))), "{:?}", result);
}

#[test]
fn test_unbalanced_braces_extra() {
    let source = r#"
        int main() {
            int a = 2;
            if (1) {
                int b = 3;
            } }  // Extra closing brace
            return a;
        }
    "#;
    let result = compile(source.to_string());
    assert!(matches!(result, Err(CompilerError::SyntaxError(_))), "{:?}", result);
}

#[test]
fn test_invalid_conditional_syntax() {
    let source = r#"
        int main() {
            int a = 2;
            if 1 {  // Missing parentheses
                a = 3;
            }
            return a;
        }
    "#;
    let result = compile(source.to_string());
    assert!(matches!(result, Err(CompilerError::SyntaxError(_))), "{:?}", result);
}

#[test]
fn test_use_after_scope_exit() {
    let source = r#"
        int main() {
            int a = 5;
            {
                int b = 10;
            }
            return a + b;  // b is not in scope here
        }
    "#;
    let result = compile(source.to_string());
    assert!(matches!(result, Err(CompilerError::SemanticError(_))), "{:?}", result);
}

#[test]
fn test_use_before_declaration() {
    let source = r#"
        int main() {
            int a = b + 5;  // Using b before it's declared
            int b = 10;
            return a;
        }
    "#;
    let result = compile(source.to_string());
    assert!(matches!(result, Err(CompilerError::SemanticError(_))), "{:?}", result);
}

#[test]
fn test_variable_from_if_block_used_outside() {
    let source = r#"
        int main() {
            int a = 5;
            if (1) {
                int b = 10;
            }
            return a + b;  // b is not in scope here
        }
    "#;
    let result = compile(source.to_string());
    assert!(matches!(result, Err(CompilerError::SemanticError(_))), "{:?}", result);
}

#[test]
fn test_variable_from_else_block_used_outside() {
    let source = r#"
        int main() {
            int a = 5;
            if (0) {
                int b = 10;
            } else {
                int c = 15;
            }
            return a + c;  // c is not in scope here
        }
    "#;
    let result = compile(source.to_string());
    assert!(matches!(result, Err(CompilerError::SemanticError(_))), "{:?}", result);
}

#[test]
fn test_access_across_branches() {
    let source = r#"
        int main() {
            int a = 5;
            if (1) {
                int b = 10;
            } else {
                return a + b;  // b is not in scope in this branch
            }
            return a;
        }
    "#;
    let result = compile(source.to_string());
    assert!(matches!(result, Err(CompilerError::SemanticError(_))), "{:?}", result);
}

#[test]
fn test_nested_scope_exit() {
    let source = r#"
        int main() {
            int a = 5;
            {
                int b = 10;
                {
                    int c = 15;
                }
                return a + b + c;  // c is not in scope here
            }
        }
    "#;
    let result = compile(source.to_string());
    assert!(matches!(result, Err(CompilerError::SemanticError(_))), "{:?}", result);
}

#[test]
fn test_if_condition_undeclared_variable() {
    let source = r#"
        int main() {
            if (x > 0) {  // x is not declared
                int a = 5;
            }
            return 0;
        }
    "#;
    let result = compile(source.to_string());
    assert!(matches!(result, Err(CompilerError::SemanticError(_))), "{:?}", result);
}

#[test]
fn test_multiple_scope_exits() {
    let source = r#"
        int main() {
            if (1) {
                int a = 5;
                if (1) {
                    int b = 10;
                }
                {
                    int c = 15;
                }
                return a + b + c;  // Both b and c are out of scope
            }
            return 0;
        }
    "#;
    let result = compile(source.to_string());
    assert!(matches!(result, Err(CompilerError::SemanticError(_))), "{:?}", result);
}

#[test]
fn test_different_scope() {
    let source = r#"
        int main() {
            {
                int a = 5;
            }
            {
                return a;
            }
        }
    "#;
    let result = compile(source.to_string());
    assert!(matches!(result, Err(CompilerError::SemanticError(_))), "{:?}", result);
}
