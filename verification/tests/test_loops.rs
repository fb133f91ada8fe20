use compiler::compile;
use compiler::CompilerError;

#[test]
fn test_break_outside_loop() {
    let source = r#"
        int main() {
            break;
            return 0;
        }
    "#;
    let result = compile(source.to_string());
    assert!(matches!(result, Err(CompilerError::SemanticError(_))), "{:?}", result);
}

#[test]
fn test_continue_outside_loop() {
    let source = r#"
        int main() {
            continue;
            return 0;
        }
    "#;
    let result = compile(source.to_string());
    assert!(matches!(result, Err(CompilerError::SemanticError(_))), "{:?}", result);
}

#[test]
fn test_do_while_no_semicolon() {
    let source = r#"
        int main() {
            int i = 0;
            do {
                i = i + 1;
            } while (i < 10)
            return i;
        }
    "#;
    let result = compile(source.to_string());
    assert!(matches!(result, Err(CompilerError::SyntaxError(_))), "{:?}", result);
}
