use compiler::compiler::compile;

#[test]
fn compiles_declaration() {
    let source = r#"int main() { int a = 5; return a; }"#;
    let result = compile(source.to_string());
    assert!(result.is_ok(), "{:?}", result);
}

#[test]
fn compiles_declare_then_assign() {
    let source = r#"int main() { int a; a = 5; return a; }"#;
    let result = compile(source.to_string());
    assert!(result.is_ok(), "{:?}", result);
}

#[test]
fn compiles_non_short_circuit() {
    let source = r#"
        int main() {
            int a = 0;
            0 || (a = 1);
            return a;
        }
    "#;
    let result = compile(source.to_string());
    assert!(result.is_ok(), "{:?}", result);
}

#[test]
fn compiles_short_circuit() {
    let source = r#"
        int main() {
            int a = 42;
            1 || (a = 1);
            return a;
        }
    "#;
    let result = compile(source.to_string());
    assert!(result.is_ok(), "{:?}", result);
}

#[test]
fn compiles_short_circuit2() {
    let source = r#"
        int main() {
            int a = 42;
            0 && (a = 1);
            return a;
        }
    "#;
    let result = compile(source.to_string());
    assert!(result.is_ok(), "{:?}", result);
}

#[test]
fn compiles_non_short_circuit2() {
    let source = r#"
        int main() {
            int a = 0;
            1 && (a = 1);
            return a;
        }
    "#;
    let result = compile(source.to_string());
    assert!(result.is_ok(), "{:?}", result);
}

#[test]
fn compiles_assignment_precedence() {
    let source = r#"
        int main() {
            int a = 0;
            a = 1 + 2;
            return a;
        }
    "#;
    let result = compile(source.to_string());
    assert!(result.is_ok(), "{:?}", result);
}

#[test]
fn compiles_variable_part_of_declaration() {
    let source = r#"
        int main() {
            int a = 0 && a;
            return a;
        }
    "#;
    let result = compile(source.to_string());
    assert!(result.is_ok(), "{:?}", result);
}

#[test]
fn compiles_mixed_precedence() {
    let source = r#"
        int main() {
            int a = 1;
            int b = 0;
            a = 3 * (b = a);
            return a + b;
        }
    "#;
    let result = compile(source.to_string());
    assert!(result.is_ok(), "{:?}", result);
}

#[test]
fn compiles_expression_then_declaration() {
    let source = r#"
        int main() {
            int a = 999;
            a = a % 2;
            int b = -a;
            return b;
        }
    "#;
    let result = compile(source.to_string());
    assert!(result.is_ok(), "{:?}", result);
}

#[test]
fn compiles_bad_precedence() {
    let source = r#"int main() { int a = 0; a = 3 * a + 1; return a; }"#;
    let result = compile(source.to_string());
    assert!(result.is_ok(), "{:?}", result);
}

#[test]
fn compiles_prefix_increment() {
    let source = r#"int main() { int a = 0; return ++a; }"#;
    let result = compile(source.to_string());
    assert!(result.is_ok(), "{:?}", result);
}

#[test]
fn compiles_prefix_decrement() {
    let source = r#"int main() { int a = 0; return --a; }"#;
    let result = compile(source.to_string());
    assert!(result.is_ok(), "{:?}", result);
}

#[test]
fn compiles_assignment_in_return() {
    let source = r#"int main() { int a = 0; return a = (a + 5); }"#;
    let result = compile(source.to_string());
    assert!(result.is_ok(), "{:?}", result);
}

#[test]
fn compiles_complex_prefix_increment_decrement_and_assigns() {
    let source = r#"int main() { int a = 0; return a = ++a + a + a + --a; }"#;
    let result = compile(source.to_string());
    assert!(result.is_ok(), "{:?}", result);
}

#[test]
fn compiles_postfix_increment() {
    let source = r#"int main() { int a = 0; return a++; }"#;
    let result = compile(source.to_string());
    assert!(result.is_ok(), "{:?}", result);
}

#[test]
fn compiles_get_value_of_postfix_increment() {
    let source = r#"int main() { int a = 0; a++; return a; }"#;
    let result = compile(source.to_string());
    assert!(result.is_ok(), "{:?}", result);
}

#[test]
fn compiles_postfix_decrement() {
    let source = r#"int main() { int a = 0; return a--; }"#;
    let result = compile(source.to_string());
    assert!(result.is_ok(), "{:?}", result);
}

#[test]
fn compiles_get_value_of_postfix_decrement() {
    let source = r#"int main() { int a = 0; a--; return a; }"#;
    let result = compile(source.to_string());
    assert!(result.is_ok(), "{:?}", result);
}

#[test]
fn compiles_compound_add() {
    let source = r#"int main() { int a = 0; a += 5; return a; }"#;
    let result = compile(source.to_string());
    assert!(result.is_ok(), "{:?}", result);
}

#[test]
fn compiles_chained_prefix_operators() {
    let source = r#"int main() { int a = 0; return ++(++a); }"#;
    let result = compile(source.to_string());
    assert!(result.is_ok(), "{:?}", result);
}

#[test]
fn compiles_prefix_operators_in_expressions() {
    let source = r#"int main() { int a = 1; int b = 2; return ++a * ++b; }"#;
    let result = compile(source.to_string());
    assert!(result.is_ok(), "{:?}", result);
}

#[test]
fn compiles_side_effects_with_prefix() {
    let source = r#"int main() { int a = 1; int b = ++a + ++a; return b; }"#;
    let result = compile(source.to_string());
    assert!(result.is_ok(), "{:?}", result);
}

#[test]
fn compiles_postfix_in_complex_expressions() {
    let source = r#"int main() { int a = 1; int b = 2; return a++ * b++; }"#;
    let result = compile(source.to_string());
    assert!(result.is_ok(), "{:?}", result);
}

#[test]
fn compiles_side_effects_with_postfix() {
    let source = r#"int main() { int a = 1; int b = a++ + a++; return b; }"#;
    let result = compile(source.to_string());
    assert!(result.is_ok(), "{:?}", result);
}

#[test]
fn compiles_mixed_prefix_and_postfix() {
    let source = r#"int main() { int a = 5; return ++a + a++; }"#;
    let result = compile(source.to_string());
    assert!(result.is_ok(), "{:?}", result);
}

#[test]
fn compiles_compound_subtract() {
    let source = r#"int main() { int a = 10; a -= 3; return a; }"#;
    let result = compile(source.to_string());
    assert!(result.is_ok(), "{:?}", result);
}

#[test]
fn compiles_compound_multiply() {
    let source = r#"int main() { int a = 5; a *= 3; return a; }"#;
    let result = compile(source.to_string());
    assert!(result.is_ok(), "{:?}", result);
}

#[test]
fn compiles_compound_divide() {
    let source = r#"int main() { int a = 10; a /= 2; return a; }"#;
    let result = compile(source.to_string());
    assert!(result.is_ok(), "{:?}", result);
}

#[test]
fn compiles_compound_modulo() {
    let source = r#"int main() { int a = 10; a %= 3; return a; }"#;
    let result = compile(source.to_string());
    assert!(result.is_ok(), "{:?}", result);
}

#[test]
fn compiles_compound_bitwise_and() {
    let source = r#"int main() { int a = 5; a &= 3; return a; }"#;
    let result = compile(source.to_string());
    assert!(result.is_ok(), "{:?}", result);
}

#[test]
fn compiles_compound_bitwise_or() {
    let source = r#"int main() { int a = 5; a |= 2; return a; }"#;
    let result = compile(source.to_string());
    assert!(result.is_ok(), "{:?}", result);
}

#[test]
fn compiles_compound_bitwise_xor() {
    let source = r#"int main() { int a = 5; a ^= 3; return a; }"#;
    let result = compile(source.to_string());
    assert!(result.is_ok(), "{:?}", result);
}

#[test]
fn compiles_compound_left_shift() {
    let source = r#"int main() { int a = 5; a <<= 2; return a; }"#;
    let result = compile(source.to_string());
    assert!(result.is_ok(), "{:?}", result);
}

#[test]
fn compiles_compound_right_shift() {
    let source = r#"int main() { int a = 20; a >>= 2; return a; }"#;
    let result = compile(source.to_string());
    assert!(result.is_ok(), "{:?}", result);
}

#[test]
fn compiles_compound_assignments_as_expressions() {
    let source = r#"int main() { int a = 5; int b = 2; return (a += 3) * (b -= 1); }"#;
    let result = compile(source.to_string());
    assert!(result.is_ok(), "{:?}", result);
}

#[test]
fn compiles_chained_compound_assignments() {
    let source = r#"int main() { int a = 0; int b = 2; int c = 3; a += b += c; return a; }"#;
    let result = compile(source.to_string());
    assert!(result.is_ok(), "{:?}", result);
}

#[test]
fn compiles_prefix_in_compound_assignment() {
    let source = r#"int main() { int a = 1; int b = 2; a += ++b; return a; }"#;
    let result = compile(source.to_string());
    assert!(result.is_ok(), "{:?}", result);
}

#[test]
fn compiles_postfix_in_compound_assignment() {
    let source = r#"int main() { int a = 1; int b = 2; a += b++; return a; }"#;
    let result = compile(source.to_string());
    assert!(result.is_ok(), "{:?}", result);
}

#[test]
fn compiles_multiple_operations_in_one_statement() {
    let source = r#"
        int main() {
            int a = 1;
            return a = ++a + a++ + (a += 2);
        }
    "#;
    let result = compile(source.to_string());
    assert!(result.is_ok(), "{:?}", result);
}

#[test]
fn compiles_nested_prefix_operators() {
    let source = r#"int main() { int a = 5; return ++(++a); }"#;
    let result = compile(source.to_string());
    assert!(result.is_ok(), "{:?}", result);
}

#[test]
fn compiles_unary_plus_with_increment() {
    let source = r#"int main() { int a = 5; return +(+(++a)); }"#;
    let result = compile(source.to_string());
    assert!(result.is_ok(), "{:?}", result);
}

#[test]
fn compiles_prefix_as_lvalue_for_compound_assign() {
    let source = r#"int main() { int a = 5; return ++a += 2; }"#;
    let result = compile(source.to_string());
    assert!(result.is_ok(), "{:?}", result);
}

#[test]
fn compiles_block() {
    let source = r#"
        int main() {
            int a = 2;
            {
                int a = 3;
                int b = a + 2;
            }
            return a;
        }
    "#;
    let result = compile(source.to_string());
    assert!(result.is_ok(), "{:?}", result);
}

#[test]
fn compiles_if_block_scoping() {
    let source = r#"
        int main() {
            int a = 2;
            if (1) {
                int a = 3;
                int b = a + 2;
            }
            return a;
        }
    "#;
    let result = compile(source.to_string());
    assert!(result.is_ok(), "{:?}", result);
}

#[test]
fn compiles_if_else_block_scoping() {
    let source = r#"
        int main() {
            int a = 2;
            int result = 0;
            if (0) {
                int a = 3;
                result = a;
            } else {
                int a = 4;
                result = a;
            }
            return result + a;
        }
    "#;
    let result = compile(source.to_string());
    assert!(result.is_ok(), "{:?}", result);
}

#[test]
fn compiles_if_else_if_else_scoping() {
    let source = r#"
        int main() {
            int a = 5;
            int b = 0;

            if (0) {
                int a = 10;
                b = a;
            } else if (1) {
                int a = 20;
                b = a;
            } else {
                int a = 30;
                b = a;
            }

            return a + b;
        }
    "#;
    let result = compile(source.to_string());
    assert!(result.is_ok(), "{:?}", result);
}

#[test]
fn compiles_nested_blocks_in_if() {
    let source = r#"
        int main() {
            int x = 1;

            if (1) {
                int x = 2;
                {
                    int x = 3;
                    {
                        int x = 4;
                    }
                }
            }

            return x;
        }
    "#;
    let result = compile(source.to_string());
    assert!(result.is_ok(), "{:?}", result);
}

#[test]
fn compiles_complex_nested_scopes() {
    let source = r#"
        int main() {
            int a = 1;
            int result = 0;

            if (1) {
                int a = 2;
                {
                    int a = 3;
                    if (1) {
                        int a = 4;
                        result = a;
                    } else {
                        result = a;
                    }
                }
            } else if (0) {
                int a = 5;
                result = a;
            } else {
                result = a;
            }

            return result;
        }
    "#;
    let result = compile(source.to_string());
    assert!(result.is_ok(), "{:?}", result);
}

#[test]
fn compiles_variable_access_across_blocks() {
    let source = r#"
        int main() {
            int a = 10;
            int b = 20;

            if (1) {
                int c = a + b;  // Access outer variables
                if (1) {
                    int d = c + a;  // Access variables from multiple outer scopes
                    return d;
                }
            }

            return 0;
        }
    "#;
    let result = compile(source.to_string());
    assert!(result.is_ok(), "{:?}", result);
}

#[test]
fn compiles_multiple_variables_in_same_scope() {
    let source = r#"
        int main() {
            int a = 5;
            int b = 10;
            int c = 15;

            if (1) {
                int a = 1;
                int b = 2;
                int c = 3;
                return a + b + c;
            }

            return a + b + c;
        }
    "#;
    let result = compile(source.to_string());
    assert!(result.is_ok(), "{:?}", result);
}

#[test]
fn compiles_equality() {
    let source = r#"
        int main() {
            return 0 == 0;
        }
    "#;
    let result = compile(source.to_string());
    assert!(result.is_ok(), "{:?}", result);
}

#[test]
fn compiles_inequality() {
    let source = r#"
        int main() {
            return 0 != 0;
        }
    "#;
    let result = compile(source.to_string());
    assert!(result.is_ok(), "{:?}", result);
}

#[test]
fn compiles_less_than() {
    let source = r#"
        int main() {
            return 0 < 1;
        }
    "#;
    let result = compile(source.to_string());
    assert!(result.is_ok(), "{:?}", result);
}

#[test]
fn compiles_boolean_and_arithmetic() {
    let source = r#"
        int main() {
            return 100 == 36 + 64;
        }
    "#;
    let result = compile(source.to_string());
    assert!(result.is_ok(), "{:?}", result);
}

#[test]
fn compiles_logical_and() {
    let source = r#"
        int main() {
            return 1 && 1;
        }
    "#;
    let result = compile(source.to_string());
    assert!(result.is_ok(), "{:?}", result);
}

#[test]
fn compiles_false_logical_and1() {
    let source = r#"
        int main() {
            return 1 && 0;
        }
    "#;
    let result = compile(source.to_string());
    assert!(result.is_ok(), "{:?}", result);
}

#[test]
fn compiles_false_logical_and2() {
    let source = r#"
        int main() {
            return 0 && 1;
        }
    "#;
    let result = compile(source.to_string());
    assert!(result.is_ok(), "{:?}", result);
}

#[test]
fn compiles_false_logical_and_both() {
    let source = r#"
        int main() {
            return 0 && 0;
        }
    "#;
    let result = compile(source.to_string());
    assert!(result.is_ok(), "{:?}", result);
}

#[test]
fn compiles_logical_or() {
    let source = r#"
        int main() {
            return 1 || 1;
        }
    "#;
    let result = compile(source.to_string());
    assert!(result.is_ok(), "{:?}", result);
}

#[test]
fn compiles_true_logical_or1() {
    let source = r#"
        int main() {
            return 1 || 0;
        }
    "#;
    let result = compile(source.to_string());
    assert!(result.is_ok(), "{:?}", result);
}

#[test]
fn compiles_true_logical_or2() {
    let source = r#"
        int main() {
            return 0 || 1;
        }
    "#;
    let result = compile(source.to_string());
    assert!(result.is_ok(), "{:?}", result);
}

#[test]
fn compiles_false_logical_or() {
    let source = r#"
        int main() {
            return 0 || 0;
        }
    "#;
    let result = compile(source.to_string());
    assert!(result.is_ok(), "{:?}", result);
}

#[test]
fn compiles_logical_not_true() {
    let source = r#"
        int main() {
            return !0;
        }
    "#;
    let result = compile(source.to_string());
    assert!(result.is_ok(), "{:?}", result);
}

#[test]
fn compiles_logical_not_false() {
    let source = r#"
        int main() {
            return !1;
        }
    "#;
    let result = compile(source.to_string());
    assert!(result.is_ok(), "{:?}", result);
}

#[test]
fn compiles_complex_true() {
    let source = r#"
        int main() {
            return (!0 && (5 > 3 || 2 < 1)) && (!(1 == 0) || (3 >= 4 && 2 != 2));
        }
    "#;
    let result = compile(source.to_string());
    assert!(result.is_ok(), "{:?}", result);
}

#[test]
fn compiles_complex_false() {
    let source = r#"
        int main() {
            return (!(3 < 7) || (0 && !0)) && ((2 == 2) && (4 > 5 || 1 > 3));
        }
    "#;
    let result = compile(source.to_string());
    assert!(result.is_ok(), "{:?}", result);
}

#[test]
fn compiles_success() {
    let source = r#"
int main() {
    return 42;
}
"#;
    let result = compile(source.to_string());
    assert!(result.is_ok(), "{:?}", result);
}

#[test]
fn compiles_statement_without_return() {
    let source = r#"
int main() {
    0;
}
"#;
    let result = compile(source.to_string());
    assert!(result.is_ok(), "{:?}", result);
}

#[test]
fn compiles_many_semicolons() {
    let source = r#"
int main() {
    ;;;;; // Empty statements
    return 0;
}
"#;
    let result = compile(source.to_string());
    assert!(result.is_ok(), "{:?}", result);
}

#[test]
fn compiles_ternary() {
    let source = r#"
        int main() {
            int a = 1;
            int b = 2;
            return a > b ? a : b;
        }
    "#;
    let result = compile(source.to_string());
    assert!(result.is_ok(), "{:?}", result);
}

#[test]
fn compiles_ternary_other_side() {
    let source = r#"
        int main() {
            int a = 1;
            int b = 2;
            return a < b ? a : b;
        }
    "#;
    let result = compile(source.to_string());
    assert!(result.is_ok(), "{:?}", result);
}

#[test]
fn compiles_single_if_true() {
    let source = r#"
        int main() {
            if (2 + 3 == 5) return 6;
        }
    "#;
    let result = compile(source.to_string());
    assert!(result.is_ok(), "{:?}", result);
}

#[test]
fn compiles_single_if_false() {
    let source = r#"
        int main() {
            if (2 + 3 == 6) return 6;
        }
    "#;
    let result = compile(source.to_string());
    assert!(result.is_ok(), "{:?}", result);
}

#[test]
fn compiles_if_else_into_if() {
    let source = r#"
        int main() {
            int a = 1;
            if (a) return 2;
            else return 3;
        }
    "#;
    let result = compile(source.to_string());
    assert!(result.is_ok(), "{:?}", result);
}

#[test]
fn compiles_if_else_into_else() {
    let source = r#"
        int main() {
            int a = 0;
            if (a) return 2;
            else return 3;
        }
    "#;
    let result = compile(source.to_string());
    assert!(result.is_ok(), "{:?}", result);
}

#[test]
fn compiles_if_else_if_else() {
    let source = r#"
        int main() {
            if (0) return 1;
            else if (1) return 2;
            else return 3;
        }
    "#;
    let result = compile(source.to_string());
    assert!(result.is_ok(), "{:?}", result);
}

#[test]
fn compiles_nested_if() {
    let source = r#"
        int main() {
            int a = 1;
            int b = 2;
            if (a < b)
                if (a > 0) return 10;
                else return 20;
            return 30;
        }
    "#;
    let result = compile(source.to_string());
    assert!(result.is_ok(), "{:?}", result);
}

#[test]
fn compiles_nested_if_else() {
    let source = r#"
        int main() {
            int a = 1;
            int b = 2;
            if (a > b)
                return 10;
            else
                if (a > 0) return 20;
                else return 30;
        }
    "#;
    let result = compile(source.to_string());
    assert!(result.is_ok(), "{:?}", result);
}

#[test]
fn compiles_if_else_if_no_final_else() {
    let source = r#"
        int main() {
            int a = 1;
            if (a > 2) return 10;
            else if (a > 0) return 20;
            return 30;
        }
    "#;
    let result = compile(source.to_string());
    assert!(result.is_ok(), "{:?}", result);
}

#[test]
fn compiles_logical_and_in_condition() {
    let source = r#"
        int main() {
            int a = 1;
            int b = 2;
            if (a > 0 && b > 0) return 10;
            return 20;
        }
    "#;
    let result = compile(source.to_string());
    assert!(result.is_ok(), "{:?}", result);
}

#[test]
fn compiles_logical_or_in_condition() {
    let source = r#"
        int main() {
            int a = 0;
            int b = 2;
            if (a > 0 || b > 0) return 10;
            return 20;
        }
    "#;
    let result = compile(source.to_string());
    assert!(result.is_ok(), "{:?}", result);
}

#[test]
fn compiles_logical_not_in_condition() {
    let source = r#"
        int main() {
            int a = 0;
            if (!a) return 10;
            return 20;
        }
    "#;
    let result = compile(source.to_string());
    assert!(result.is_ok(), "{:?}", result);
}

#[test]
fn compiles_nested_ternary() {
    let source = r#"
        int main() {
            int a = 1;
            int b = 2;
            int c = 3;
            return a > b ? a : (b > c ? b : c);
        }
    "#;
    let result = compile(source.to_string());
    assert!(result.is_ok(), "{:?}", result);
}

#[test]
fn compiles_if_with_assignment() {
    let source = r#"
        int main() {
            int a = 0;
            if (a < 1) a = 10;
            return a;
        }
    "#;
    let result = compile(source.to_string());
    assert!(result.is_ok(), "{:?}", result);
}

#[test]
fn compiles_nested_if_without_statement() {
    let source = r#"
        int main() {
            if (1 > 0)
                if (1 > 2)
            return 10;
        }
    "#;
    let result = compile(source.to_string());
    assert!(result.is_ok(), "{:?}", result);
}

#[test]
fn compiles_ternary_in_condition() {
    let source = r#"
        int main() {
            int a = 1;
            int b = 2;
            if (a < b ? 1 : 0) return 10;
            return 20;
        }
    "#;
    let result = compile(source.to_string());
    assert!(result.is_ok(), "{:?}", result);
}

#[test]
fn compiles_chained_else_if() {
    let source = r#"
        int main() {
            int a = 2;
            if (a > 3) return 10;
            else if (a > 2) return 20;
            else if (a > 1) return 30;
            else if (a > 0) return 40;
            else return 50;
        }
    "#;
    let result = compile(source.to_string());
    assert!(result.is_ok(), "{:?}", result);
}

#[test]
fn compiles_function() {
    let source = r#"
    int foo(int a) {
    return a;
    }
    
    int main() {
    return foo(1);
    }
    "#;
    let result = compile(source.to_string());
    assert!(result.is_ok(), "{:?}", result);
}

#[test]
fn compiles_two_functions() {
    let source = r#"
    int foo(int a) {
    return a;
    }

    int bar(int b) {
    return foo(b);
    }

    int main() {
    return foo(1);
    }
    "#;
    let result = compile(source.to_string());
    assert!(result.is_ok(), "{:?}", result);
}

#[test]
fn compiles_nested_calls() {
    let source = r#"
    int foo(int a) {
    return 2 * a;
    }
    int main() {
    return foo(foo(1));
    }
    "#;
    let result = compile(source.to_string());
    assert!(result.is_ok(), "{:?}", result);
}

#[test]
fn compiles_many_parameters() {
    let source = r#"
    int calculate_check_digit(int a, int b, int c, int d, int e, int f, int g, int h, int i, int j) {
        int sum = 3*a + b + 3*c + d + 3*e + f + 3*g + h + 3*i + j;
        return (10 - (sum % 10)) % 10;
    }

    int main() {
        return calculate_check_digit(1, 2, 3, 4, 5, 6, 7, 8, 9, 0);
    }
    "#;
    let result = compile(source.to_string());
    assert!(result.is_ok(), "{:?}", result);
}

#[test]
fn compiles_recursion() {
    let source = r#"
    int factorial(int n) {
        if (n <= 1) {
            return 1;
        }
        return n * factorial(n - 1);
    }

    int main() {
        return factorial(5);
    }
    "#;
    let result = compile(source.to_string());
    assert!(result.is_ok(), "{:?}", result);
}

#[test]
fn compiles_mutual_recursion() {
    let source = r#"
    int is_even(int n);

    int is_odd(int n) {
        if (n == 0) return 0;
        return is_even(n - 1);
    }

    int is_even(int n) {
        if (n == 0) return 1;
        return is_odd(n - 1);
    }

    int main() {
        return is_even(10);
    }
    "#;
    let result = compile(source.to_string());
    assert!(result.is_ok(), "{:?}", result);
}

#[test]
fn compiles_forward_reference() {
    let source = r#"
    int helper();

    int main() {
        return helper();
    }

    int helper() {
        return 42;
    }
    "#;
    let result = compile(source.to_string());
    assert!(result.is_ok(), "{:?}", result);
}

#[test]
fn compiles_duplicate_forward_reference() {
    let source = r#"
    int helper();
    int helper();

    int main() {
        return helper();
    }

    int helper() {
        return 42;
    }
    "#;
    let result = compile(source.to_string());
    assert!(result.is_ok(), "{:?}", result);
}

#[test]
fn compiles_long() {
    let source = r#"
    int main() {
    long l = 9223372036854775807l;
    return (l - 2l == 9223372036854775805l);
}"#;
    let result = compile(source.to_string());
    assert!(result.is_ok(), "{:?}", result);
}

#[test]
fn compiles_long_int() {
    let source = r#"
    int main() {
    int long l = 9223372036854775807l;
    long int l2 = 9223372036854775807l;
    return (l - 2l == 9223372036854775805l) && (l2 - 2l == 9223372036854775805l);
}"#;
    let result = compile(source.to_string());
    assert!(result.is_ok(), "{:?}", result);
}

#[test]
fn compiles_truncate_at_return() {
    let source = r#"
    int main() {
    long l = 9223372036854775807l;
    return l;
}"#;
    let result = compile(source.to_string());
    assert!(result.is_ok(), "{:?}", result);
}

#[test]
fn compiles_truncate_at_assign() {
    let source = r#"
    int main() {
    long l = 9223372036854775807l;
    int i = l;
    return i;
    }"#;
    let result = compile(source.to_string());
    assert!(result.is_ok(), "{:?}", result);
}

#[test]
fn compiles_sign_extend() {
    let source = r#"
    int main() {
    int i = -42;
    long l = i;
    return l == -42;
    }
    "#;
    let result = compile(source.to_string());
    assert!(result.is_ok(), "{:?}", result);
}

#[test]
fn compiles_long_multiplication() {
    let source = r#"
    int main() {
    return 1000000l * 1000000l;
    }
    "#;
    let result = compile(source.to_string());
    assert!(result.is_ok(), "{:?}", result);
}

#[test]
fn compiles_long_division() {
    let source = r#"
    int main() {
    return 1000000l / 1000000l;
    }
    "#;
    let result = compile(source.to_string());
    assert!(result.is_ok(), "{:?}", result);
}

#[test]
fn compiles_long_subtraction() {
    let source = r#"
    long a;
    long b;
    int main() {
             a = -4294967290l; // 2^32 - 6
             b = 90l;

    return a - b == -4294967380l;
    }
    "#;
    let result = compile(source.to_string());
    assert!(result.is_ok(), "{:?}", result);
}

#[test]
fn compiles_long_modulo() {
    let source = r#"
    long a;
    long b;
    int main() {
             a = -4294967290l; // 2^32 - 6
             b = 90l;

    return a % b == -70l;
    }
    "#;
    let result = compile(source.to_string());
    assert!(result.is_ok(), "{:?}", result);
}

#[test]
fn compiles_long_operations() {
    let source = r#"
long a;
long b;
int addition() {
    // a == 4294967290l, i.e. 2^32 - 6
    // b = 5
    return (a + b == 4294967295l);
}

int subtraction() {
    // a = -4294967290l;
    // b = 90l;
    return (a - b == -4294967380l);
}

int multiplication() {
    // a = 4294967290l;
    return (a * 4l == 17179869160l);
}

int division() {
    // a = 4294967290l;
    b = a / 128l;
    return (b == 33554431l);
}

int remaind() {
    // a = 8589934585l, i.e. 2^33 - 7
    b = -a % 4294967290l;
    return (b == -5l);
}

int complement() {
    // a = 9223372036854775806l, i.e. LONG_MAX - 1
    return (~a == -9223372036854775807l);
}

int main() {

    a = 4294967290l; // 2^32 - 6
    b = 5l;
    if (!addition()) {
        return 1;
    }

    a = -4294967290l;
    b = 90l;
    if (!subtraction()) {
        return 2;
    }

    a = 4294967290l;
    if (!multiplication()) {
        return 3;
    }

    a = 4294967290l;
    if (!division()) {
        return 4;
    }

    a = 8589934585l; // 2^33 - 7
    if (!remaind()) {
        return 5;
    }

    a = 9223372036854775806l; //LONG_MAX - 1
    if (!complement()) {
        return 6;
    }

    return 0;
}"#;
    let result = compile(source.to_string());
    assert!(result.is_ok(), "{:?}", result);
}

#[test]
fn compiles_many_long_parameters() {
    let source = r#"
long calculate_check_digit(long a, int b, long c, int d, long e, int f, long g, int h, long i, int j) {

    long product = a * c * e * g * i;

    long remainder = product % 10;

    long sum = b + d + f + h + j;

    return (10 - (remainder + sum) % 10) % 10;
}

int main() {

return calculate_check_digit(
    -4294967297, 2,
    3, -4,
    5, 6,
    -7, 8,
    9, -10);
    }
    "#;
    let result = compile(source.to_string());
    assert!(result.is_ok(), "{:?}", result);
}

#[test]
fn compiles_align() {
    let source = r#"int main() {
    // Create alternating int/long variables to stress alignment
    int a = 5;
    long b = 1;
    b = b << 32;    // b = 2^32 (4294967296) - requires full 64 bits
    int c = 10;
    long d = 1;
    d = d << 33;    // d = 2^33 (8589934592)
    int e = 3;

    // Test 1: Can we store and retrieve large values correctly?
    if (b != (1L << 32)) return 1;  // Fails if b is truncated to 32 bits

    // Test 2: 64-bit arithmetic operations
    long sum = b + d;  // 2^32 + 2^33 = 3*2^32
    if (sum != 3 * (1L << 32)) return 2;  // Fails if addition truncates

    // Test 3: Mixed int/long multiplication (tests sign extension)
    long product = a * b;  // 5 * 2^32
    if (product != 5 * (1L << 32)) return 3;  // Fails if conversion is wrong

    // Test 4: Long division with large values
    long quotient = d / c;  // 2^33 / 10
    long remainder = d % c;
    if (quotient * c + remainder != d) return 4;  // Division identity check

    // Test 5: Complex expressions with mixed types
    long complex = (a * b + c * d) / e;
    if (complex != ((a * b) + (c * d)) / e) return 5;

    // All tests passed
    return 6;
}"#;
    let result = compile(source.to_string());
    assert!(result.is_ok(), "{:?}", result);
}

#[test]
fn compiles_long_prefix() {
    let source = r#"
    int main() {
    long l = 9223372036854775807l;
    return ++l == 9223372036854775808l;
}"#;
    let result = compile(source.to_string());
    assert!(result.is_ok(), "{:?}", result);
}

#[test]
fn compiles_static_long_with_init() {
    let source = r#"
    int foo() {
        static long a = 1000000l;
        a++;
        return a;
    }
    int main() {
        foo();
        foo();
        return foo();
    }
    "#;
    let result = compile(source.to_string());
    assert!(result.is_ok(), "{:?}", result);
}

#[test]
fn compiles_top_level_static_long_with_init() {
    let source = r#"
    static long a = 1000000l;
    int foo() {
        a++;
        return a;
    }
    int main() {
        foo();
        foo();
        return foo();
    }
    "#;
    let result = compile(source.to_string());
    assert!(result.is_ok(), "{:?}", result);
}

#[test]
fn compiles_static_long_without_init() {
    let source = r#"
    int foo() {
        static long a;
        a++;
        return a;
    }
    int main() {
        foo();
        foo();
        return foo();
    }
    "#;
    let result = compile(source.to_string());
    assert!(result.is_ok(), "{:?}", result);
}

#[test]
fn compiles_top_level_static_long_without_init() {
    let source = r#"
    static long a;
    int foo() {
        a++;
        return a;
    }
    int main() {
        foo();
        foo();
        return foo();
    }
    "#;
    let result = compile(source.to_string());
    assert!(result.is_ok(), "{:?}", result);
}

#[test]
fn compiles_cast_long_int() {
    let source = r#"
    int main() {
    if ((long int) 1000000 != 1000000l) {
    return 1;
    }

    if (-1000000l != (long int) -1000000) {
    return 2;
    }
    return 0;
    }
    "#;
    let result = compile(source.to_string());
    assert!(result.is_ok(), "{:?}", result);
}

#[test]
fn compiles_cast_with_sign_extend() {
    let source = r#"
long sign_extend(int i, long expected) {
    long extended = (long) i;
    return (extended == expected);
}

int main() {
    if (!sign_extend(10, 10l)) {
        return 1;
    }

    if (!sign_extend(-10, -10l)) {
        return 2;
    }

    long l = (long) 100;
    if (l != 100l) {
        return 3;
    }
    return 0;
}"#;
    let result = compile(source.to_string());
    assert!(result.is_ok(), "{:?}", result);
}

#[test]
fn compiles_cast_with_truncate() {
    let source = r#"int truncate(long l, int expected) {
    int result = (int) l;
    return (result == expected);
}

int main()
{

    if (!truncate(10l, 10)) {
        return 1;
    }

    if (!truncate(-10l, -10)) {
        return 2;
    }

    if (!truncate(17179869189l, // 2^34 + 5
                  5)) {
        return 3;
    }

    if (!truncate(-17179869179l, // (-2^34) + 5
                  5l)) {
        return 4;
    }

    int i = (int)17179869189l; // 2^34 + 5
    if (i != 5)
        return 5;

    return 0;
}"#;
    let result = compile(source.to_string());
    assert!(result.is_ok(), "{:?}", result);
}

#[test]
fn compiles_long_bitwise_operations() {
    let source = r#"
    int main() {
        // Using decimal values instead of hex
        long a = 123456789123456789l;
        long b = 987654321987654321l;

        // Bitwise AND
        long and_result = a & b;
        if (and_result != 122892737510904337l) return 1;

        // Bitwise OR
        long or_result = a | b;
        if (or_result != 988218373600206773l) return 2;

        // Bitwise XOR
        long xor_result = a ^ b;
        if (xor_result != 865325636089302436l) return 3;

        // Bitwise NOT
        long not_result = ~a;
        if (not_result != -123456789123456790l) return 4;

        // Bit shifts
        long c = 1l;
        if ((c << 60) != 1152921504606846976l) return 5;
        if ((c << 60) >> 60 != 1l) return 6;

        return 0;
    }"#;
    let result = compile(source.to_string());
    assert!(result.is_ok(), "{:?}", result);
}

#[test]
fn compiles_long_comparisons() {
    let source = r#"
    int main() {
        long a = 1000000000000l;
        long b = 1000000000001l;

        if (!(a < b)) return 1;
        if (!(b > a)) return 2;
        if (a >= b) return 3;
        if (b <= a) return 4;
        if (a == b) return 5;
        if (!(a != b)) return 6;

        // Test comparison with negative values
        long neg_a = -1000000000000l;
        long neg_b = -1000000000001l;

        if (!(neg_b < neg_a)) return 7;
        if (!(neg_a > neg_b)) return 8;

        return 0;
    }"#;
    let result = compile(source.to_string());
    assert!(result.is_ok(), "{:?}", result);
}

#[test]
fn compiles_int_long_promotion() {
    let source = r#"
    int main() {
        int a = 1000000;
        long b = 1000000l;
        long result;

        // These should all promote to long
        result = a + b;
        if (result != 2000000l) return 1;

        result = a * b;
        if (result != 1000000000000l) return 2;

        // This should convert a to long before the shift
        result = a << 20;
        if (result != 603979776l) return 3;

        // Mixed expressions with operations
        result = (a * 2) + (b / 2);
        if (result != 2500000l) return 4;

        return 0;
    }"#;
    let result = compile(source.to_string());
    assert!(result.is_ok(), "{:?}", result);
}

#[test]
fn compiles_function_returning_long() {
    let source = r#"
    long get_long() {
        return 1000000000000l;
    }

    long get_long_from_int(int a) {
        return (long)a;
    }

    long calculate_long(int a, long b) {
        return a * b + 42l;
    }

    int main() {
        if (get_long() != 1000000000000l) return 1;
        if (get_long_from_int(-5) != -5l) return 2;
        if (calculate_long(10, 20l) != 200l + 42l) return 3;
        return 0;
    }"#;
    let result = compile(source.to_string());
    assert!(result.is_ok(), "{:?}", result);
}

#[test]
fn compiles_long_compound_assignments() {
    let source = r#"
    int main() {
        long a = 1000l;

        a += 2000l;
        if (a != 3000l) return 1;

        a -= 1000l;
        if (a != 2000l) return 2;

        a *= 10l;
        if (a != 20000l) return 3;

        a /= 5l;
        if (a != 4000l) return 4;

        a %= 3000l;
        if (a != 1000l) return 5;

        a <<= 10;
        if (a != 1024000l) return 6;

        a >>= 10;
        if (a != 1000l) return 7;

        a &= 1023l;
        if (a != 1000l) return 8;

        a |= 24l;
        if (a != 1016l) return 9;

        a ^= 1000l;
        if (a != 16l) return 10;

        return 0;
    }"#;
    let result = compile(source.to_string());
    assert!(result.is_ok(), "{:?}", result);
}

#[test]
fn compiles_long_conditionals() {
    let source = r#"
    int main() {
        long zero = 0l;
        long non_zero = 1l;

        // Test if() with longs
        if (zero) return 1;
        if (!non_zero) return 2;

        // Test ternary operator with longs
        long result = non_zero ? 10l : 20l;
        if (result != 10l) return 3;

        result = zero ? 10l : 20l;
        if (result != 20l) return 4;

        // Test with large long values
        long big_num = 9223372036854775807l; // LONG_MAX
        if (!(big_num > 0)) return 5;

        // Test with comparison in condition
        if ((zero < non_zero) ? zero : non_zero) return 6;
        if (!((zero < non_zero) ? non_zero : zero)) return 7;

        return 0;
    }"#;
    let result = compile(source.to_string());
    assert!(result.is_ok(), "{:?}", result);
}

#[test]
fn compiles_long_literal_edge_cases() {
    let source = r#"
    int main() {
        // Test large long values near MAX
        long big = 9223372036854775807l; // LONG_MAX

        // Test assignment from variables
        long big_copy = big;
        if (big_copy != 9223372036854775807l) return 1;

        // Test negating large values
        long negated = -big;
        if (negated != -9223372036854775807l) return 2;

        // Test calculations with large values (staying in bounds)
        long calc = big - 1000l;
        if (calc != 9223372036854774807l) return 3;

        // Test operations that cause value to wrap
        long plus_one = big;
        plus_one++;
        if (plus_one != -9223372036854775808l) return 4;

        return 0;
    }"#;
    let result = compile(source.to_string());
    assert!(result.is_ok(), "{:?}", result);
}

#[test]
fn compiles_multiple_casts() {
    let source = r#"
    int main() {
        int i = 42;
        long l = 1000000000000l;

        // Multiple casts in one expression
        int result = (int)(long)(int)(long)i;
        if (result != 42) return 1;

        // Cast in complex expressions
        long complex = (long)i * l + ((long)i + l);
        if (complex != 42l * l + (42l + l)) return 2;

        // Nested casts
        int truncated = (int)((long)i * 100000000l);
        if (truncated != 42 * 100000000 % (1l << 32)) return 3;

        return 0;
    }"#;
    let result = compile(source.to_string());
    assert!(result.is_ok(), "{:?}", result);
}

#[test]
fn compiles_while() {
    let source = r#"
        int main() {
            int i = 0;
            while (i < 10) {
                i = i + 1;
            }
            return i;
        }
    "#;
    let result = compile(source.to_string());
    assert!(result.is_ok(), "{:?}", result);
}

#[test]
fn compiles_break() {
    let source = r#"
        int main() {
            int i = 0;
            while (i < 10) {
                if (i >= 5) {
                    break;
                }
                i = i + 1;
            }
            return i;
        }
    "#;
    let result = compile(source.to_string());
    assert!(result.is_ok(), "{:?}", result);
}

#[test]
fn compiles_continue() {
    let source = r#"
        int main() {
            int i = 0;
            int result = 0;
            while (i < 10) {
                i = i + 1;
                if (i % 2 == 1) {
                    continue;
                }
                result += i;
            }
            return result;
        }
    "#;
    let result = compile(source.to_string());
    assert!(result.is_ok(), "{:?}", result);
}

#[test]
fn compiles_while_without_body() {
    let source = r#"
        int main() {
            int i = 0;
            while (++i && i < 10);
            return i;
        }
    "#;
    let result = compile(source.to_string());
    assert!(result.is_ok(), "{:?}", result);
}

#[test]
fn compiles_for() {
    let source = r#"
        int main() {
            int result = 0;
            for (int i = 0; i <= 10; i++) {
                result += i;
            }
            return result;
        }
    "#;
    let result = compile(source.to_string());
    assert!(result.is_ok(), "{:?}", result);
}

#[test]
fn compiles_for_with_non_declaration_init() {
    let source = r#"
        int main() {
            int result = 0;
            int i;
            for (i = 0; i <= 10; i++) {
                result += i;
            }
            return result;
        }
    "#;
    let result = compile(source.to_string());
    assert!(result.is_ok(), "{:?}", result);
}

#[test]
fn compiles_continue_in_for() {
    let source = r#"
        int main() {
            int result = 0;
            for (int i = 0; i <= 10; i++) {
                if (i % 2 == 1) {
                    continue;
                }
                result += i;
            }
            return result;
        }
    "#;
    let result = compile(source.to_string());
    assert!(result.is_ok(), "{:?}", result);
}

#[test]
fn compiles_break_in_for() {
    let source = r#"
        int main() {
            int result = 0;
            for (int i = 0; i <= 10; i++) {
                if (i >= 5) {
                    break;
                }
                result += i;
            }
            return result;
        }
    "#;
    let result = compile(source.to_string());
    assert!(result.is_ok(), "{:?}", result);
}

#[test]
fn compiles_for_init_proper_scope() {
    let source = r#"
        int main() {
            int i = -100;
            for (int i = 69420;;) {
                return i;
            }
            return i;
        }
    "#;
    let result = compile(source.to_string());
    assert!(result.is_ok(), "{:?}", result);
}

#[test]
fn compiles_for_init_proper_scope2() {
    let source = r#"
        int main() {
            int i = -100;
            for (int i = 69420; i < 69420 + 10; i++);
            return i;
        }
    "#;
    let result = compile(source.to_string());
    assert!(result.is_ok(), "{:?}", result);
}

#[test]
fn compiles_nested_while_loops() {
    let source = r#"
        int main() {
            int i = 0;
            int j = 0;
            int sum = 0;

            while (i < 3) {
                j = 0;
                while (j < 4) {
                    sum += i * j;
                    j++;
                }
                i++;
            }
            return sum;
        }
    "#;
    let result = compile(source.to_string());
    assert!(result.is_ok(), "{:?}", result);
}

#[test]
fn compiles_while_with_initially_false_condition() {
    let source = r#"
        int main() {
            int i = 10;
            while (i < 10) {
                i++;
            }
            return i;
        }
    "#;
    let result = compile(source.to_string());
    assert!(result.is_ok(), "{:?}", result);
}

#[test]
fn compiles_while_with_complex_condition() {
    let source = r#"
        int main() {
            int i = 0;
            int j = 10;
            while (i < 5 && j > 5) {
                i++;
                j--;
            }
            return i * 100 + j;
        }
    "#;
    let result = compile(source.to_string());
    assert!(result.is_ok(), "{:?}", result);
}

#[test]
fn compiles_break_in_nested_loops() {
    let source = r#"
        int main() {
            int i = 0;
            int j = 0;
            int sum = 0;

            while (i < 5) {
                j = 0;
                while (j < 5) {
                    sum++;
                    if (j == 2) {
                        break; // Should only break inner loop
                    }
                    j++;
                }
                if (i == 3) {
                    break; // Should break outer loop
                }
                i++;
            }
            return sum;
        }
    "#;
    let result = compile(source.to_string());
    assert!(result.is_ok(), "{:?}", result);
}

#[test]
fn compiles_continue_in_nested_loops() {
    let source = r#"
        int main() {
            int i = 0;
            int sum = 0;

            while (i < 3) {
                i++;
                if (i == 2) {
                    continue; // Skip when i == 2
                }

                int j = 0;
                while (j < 3) {
                    j++;
                    if (j == 2) {
                        continue; // Skip when j == 2
                    }
                    sum += i * j;
                }
            }
            return sum;
        }
    "#;
    let result = compile(source.to_string());
    assert!(result.is_ok(), "{:?}", result);
}

#[test]
fn compiles_for_with_all_parts_empty() {
    let source = r#"
        int main() {
            int i = 0;
            for (;;) {
                i++;
                if (i >= 10) {
                    break;
                }
            }
            return i;
        }
    "#;
    let result = compile(source.to_string());
    assert!(result.is_ok(), "{:?}", result);
}

#[test]
fn compiles_for_with_empty_condition() {
    let source = r#"
        int main() {
            int i = 0;
            for (i = 0; ; i++) {
                if (i >= 10) {
                    break;
                }
            }
            return i;
        }
    "#;
    let result = compile(source.to_string());
    assert!(result.is_ok(), "{:?}", result);
}

#[test]
fn compiles_for_with_empty_update() {
    let source = r#"
        int main() {
            int i = 0;
            for (i = 0; i < 10;) {
                i += 2; // Update inside the loop
            }
            return i;
        }
    "#;
    let result = compile(source.to_string());
    assert!(result.is_ok(), "{:?}", result);
}

#[test]
fn compiles_for_with_initially_false_condition() {
    let source = r#"
        int main() {
            int counter = 0;
            for (int i = 10; i < 10; i++) {
                counter++;
            }
            return counter;
        }
    "#;
    let result = compile(source.to_string());
    assert!(result.is_ok(), "{:?}", result);
}

#[test]
fn compiles_nested_for_loops() {
    let source = r#"
        int main() {
            int sum = 0;
            for (int i = 0; i < 3; i++) {
                for (int j = 0; j < 3; j++) {
                    sum += i * j;
                }
            }
            return sum;
        }
    "#;
    let result = compile(source.to_string());
    assert!(result.is_ok(), "{:?}", result);
}

#[test]
fn compiles_for_with_complex_update() {
    let source = r#"
        int main() {
            int sum = 0;
            for (int i = 0; i < 10; i += 2) {
                sum += i;
            }
            return sum;
        }
    "#;
    let result = compile(source.to_string());
    assert!(result.is_ok(), "{:?}", result);
}

#[test]
fn compiles_loop_variable_access_after_execution() {
    let source = r#"
        int main() {
            int sum = 0;
            int i;
            for (i = 0; i < 5; i++) {
                sum += i;
            }
            return i * 10 + sum;
        }
    "#;
    let result = compile(source.to_string());
    assert!(result.is_ok(), "{:?}", result);
}

#[test]
fn compiles_basic_do_while() {
    let source = r#"
        int main() {
            int i = 0;
            do {
                i = i + 1;
            } while (i < 10);
            return i;
        }
    "#;
    let result = compile(source.to_string());
    assert!(result.is_ok(), "{:?}", result);
}

#[test]
fn compiles_do_while_with_initially_false_condition() {
    let source = r#"
        int main() {
            int i = 10;
            do {
                i++;
            } while (i < 10);
            return i;
        }
    "#;
    let result = compile(source.to_string());
    assert!(result.is_ok(), "{:?}", result);
}

#[test]
fn compiles_break_in_do_while() {
    let source = r#"
        int main() {
            int i = 0;
            do {
                i = i + 1;
                if (i >= 5) {
                    break;
                }
            } while (i < 10);
            return i;
        }
    "#;
    let result = compile(source.to_string());
    assert!(result.is_ok(), "{:?}", result);
}

#[test]
fn compiles_continue_in_do_while() {
    let source = r#"
        int main() {
            int i = 0;
            int result = 0;
            do {
                i = i + 1;
                if (i % 2 == 1) {
                    continue;
                }
                result += i;
            } while (i < 10);
            return result;
        }
    "#;
    let result = compile(source.to_string());
    assert!(result.is_ok(), "{:?}", result);
}

#[test]
fn compiles_nested_do_while_loops() {
    let source = r#"
        int main() {
            int i = 0;
            int j = 0;
            int sum = 0;

            do {
                j = 0;
                do {
                    sum += i * j;
                    j++;
                } while (j < 4);
                i++;
            } while (i < 3);
            return sum;
        }
    "#;
    let result = compile(source.to_string());
    assert!(result.is_ok(), "{:?}", result);
}

#[test]
fn compiles_do_while_without_body() {
    let source = r#"
        int main() {
            int i = 0;
            do; while (++i < 10);
            return i;
        }
    "#;
    let result = compile(source.to_string());
    assert!(result.is_ok(), "{:?}", result);
}

#[test]
fn compiles_do_while_with_complex_condition() {
    let source = r#"
        int main() {
            int i = 0;
            int j = 10;
            do {
                i++;
                j--;
            } while (i < 5 && j > 5);
            return i * 100 + j;
        }
    "#;
    let result = compile(source.to_string());
    assert!(result.is_ok(), "{:?}", result);
}

#[test]
fn compiles_break_in_nested_do_while() {
    let source = r#"
        int main() {
            int i = 0;
            int j = 0;
            int sum = 0;

            do {
                j = 0;
                do {
                    sum++;
                    if (j == 2) {
                        break; // Should only break inner loop
                    }
                    j++;
                } while (j < 5);
                if (i == 3) {
                    break; // Should break outer loop
                }
                i++;
            } while (i < 5);
            return sum;
        }
    "#;
    let result = compile(source.to_string());
    assert!(result.is_ok(), "{:?}", result);
}

#[test]
fn compiles_continue_in_nested_do_while() {
    let source = r#"
        int main() {
            int i = 0;
            int sum = 0;

            do {
                i++;
                if (i == 2) {
                    continue; // Skip when i == 2
                }

                int j = 0;
                do {
                    j++;
                    if (j == 2) {
                        continue; // Skip when j == 2
                    }
                    sum += i * j;
                } while (j < 3);
            } while (i < 3);
            return sum;
        }
    "#;
    let result = compile(source.to_string());
    assert!(result.is_ok(), "{:?}", result);
}

#[test]
fn compiles_mixed_loops_with_do_while() {
    let source = r#"
        int main() {
            int sum = 0;
            int i = 0;

            do {
                i++;
                for (int j = 0; j < i; j++) {
                    sum += j;
                }
            } while (i < 4);

            int k = 0;
            while (k < 3) {
                sum += k * i;
                k++;
            }

            return sum;
        }
    "#;
    let result = compile(source.to_string());
    assert!(result.is_ok(), "{:?}", result);
}

#[test]
fn compiles_do_while_empty_body() {
    let source = r#"
        int main() {
            int i = 0;
            do {
                // Empty body
            } while (++i < 5);
            return i;
        }
    "#;
    let result = compile(source.to_string());
    assert!(result.is_ok(), "{:?}", result);
}

#[test]
fn compiles_static_in_function() {
    let source = r#"
    int foo() {
        static int bar = 0;
        bar += 1;
        return bar;
    }
    int main() {
        foo();
        return foo();
    }"#;
    let result = compile(source.to_string());
    assert!(result.is_ok(), "{:?}", result);
}

#[test]
fn compiles_static_in_expression() {
    let source = r#"
    int main() {
    static int i = 2;
    static int j = 3;
    int cmp = i < j; // make sure rewrite cmpl j(%rip), i(%rip)

    if (!cmp)
        return 1;
    return 0;
}"#;
    let result = compile(source.to_string());
    assert!(result.is_ok(), "{:?}", result);
}

#[test]
fn compiles_tentative_definition() {
    let source = r#"
    int a; // Tentative definition (initialized to 0)
    int main() {
        return a;
    }"#;
    let result = compile(source.to_string());
    assert!(result.is_ok(), "{:?}", result);
}

#[test]
fn compiles_multiple_tentative_definitions() {
    let source = r#"
    int a;
    int a;
    int a; // Multiple tentative definitions are valid
    int main() {
        return a;
    }"#;
    let result = compile(source.to_string());
    assert!(result.is_ok(), "{:?}", result);
}

#[test]
fn compiles_tentative_then_explicit() {
    let source = r#"
    int a;           // Tentative definition
    int main() {
        return a;
    }
    int a = 42;      // Explicit definition (takes precedence)
    "#;
    let result = compile(source.to_string());
    assert!(result.is_ok(), "{:?}", result);
}

#[test]
fn compiles_bitwise() {
    let source = r#"
int main() {
    return ~12;
}
"#;
    let result = compile(source.to_string());
    assert!(result.is_ok(), "{:?}", result);
}

#[test]
fn compiles_bitwise0() {
    let source = r#"
int main() {
    return ~0;
}
"#;
    let result = compile(source.to_string());
    assert!(result.is_ok(), "{:?}", result);
}

#[test]
fn compiles_unsigned_int() {
    let source = r#"
    int main() {
    unsigned int ui = 4294967295u;
    return (ui == 4294967295u);
}"#;
    let result = compile(source.to_string());
    assert!(result.is_ok(), "{:?}", result);
}

#[test]
fn compiles_unsigned_long() {
    let source = r#"
    int main() {
    unsigned long ul = 18446744073709551615ul;
    return (ul == 18446744073709551615ul);
}"#;
    let result = compile(source.to_string());
    assert!(result.is_ok(), "{:?}", result);
}

#[test]
fn compiles_int_unsigned_int() {
    let source = r#"
    int main() {
    unsigned int ui = 4294967295u;
    int unsigned ui2 = 4294967295u;
    return (ui == 4294967295u) && (ui2 == 4294967295u);
}"#;
    let result = compile(source.to_string());
    assert!(result.is_ok(), "{:?}", result);
}

#[test]
fn compiles_long_unsigned_long() {
    let source = r#"
    int main() {
    unsigned long ul = 18446744073709551615ul;
    long unsigned ul2 = 18446744073709551615ul;
    return (ul == 18446744073709551615ul) && (ul2 == 18446744073709551615ul);
}"#;
    let result = compile(source.to_string());
    assert!(result.is_ok(), "{:?}", result);
}

#[test]
fn compiles_truncate_at_return_unsigned() {
    let source = r#"
    int main() {
    unsigned long ul = 18446744073709551615ul;
    return ul;
}"#;
    let result = compile(source.to_string());
    assert!(result.is_ok(), "{:?}", result);
}

#[test]
fn compiles_truncate_at_assign_unsigned() {
    let source = r#"
    int main() {
    unsigned long ul = 18446744073709551615ul;
    unsigned int ui = ul;
    return ui;
    }"#;
    let result = compile(source.to_string());
    assert!(result.is_ok(), "{:?}", result);
}

#[test]
fn compiles_zero_extension() {
    let source = r#"
    int main() {
    unsigned int ui = 4294967295u;
    unsigned long ul = ui;
    return ul == 4294967295ul;
    }
    "#;
    let result = compile(source.to_string());
    assert!(result.is_ok(), "{:?}", result);
}

#[test]
fn compiles_unsigned_multiplication() {
    let source = r#"
    int main() {
    return 1000u * 1000u;
    }
    "#;
    let result = compile(source.to_string());
    assert!(result.is_ok(), "{:?}", result);
}

#[test]
fn compiles_unsigned_multiplication_large_values() {
    let source = r#"
    int main() {
    return 1000000u * 1000000u == 4000000000u; // Result after wrapping (1 trillion mod 2^32)
    }
    "#;
    let result = compile(source.to_string());
    assert!(result.is_ok(), "{:?}", result);
}

#[test]
fn compiles_unsigned_long_multiplication() {
    let source = r#"
    int main() {
    return 1000000ul * 1000000ul;
    }
    "#;
    let result = compile(source.to_string());
    assert!(result.is_ok(), "{:?}", result);
}

#[test]
fn compiles_unsigned_division() {
    let source = r#"
    int main() {
    return 1000000u / 1000u;
    }
    "#;
    let result = compile(source.to_string());
    assert!(result.is_ok(), "{:?}", result);
}

#[test]
fn compiles_unsigned_modulo() {
    let source = r#"
    unsigned int a;
    unsigned int b;
    int main() {
             a = 4294967290u; // 2^32 - 6
             b = 90u;

    return a % b == 80u;
    }
    "#;
    let result = compile(source.to_string());
    assert!(result.is_ok(), "{:?}", result);
}

#[test]
fn compiles_unsigned_operations() {
    let source = r#"
unsigned int a;
unsigned int b;
int addition() {
    // a == 4294967290u, i.e. 2^32 - 6
    // b = 10u
    return (a + b == 4294967300u - 4294967296u); // Overflow behavior
}

int subtraction() {
    // a = 10u;
    // b = 20u;
    return (a - b == 4294967286u); // Underflow behavior
}

int multiplication() {
    // a = 4294967290u;
    return (a * 2u == (4294967290u * 2u) % 4294967296u);
}

int division() {
    // a = 4294967290u;
    b = a / 128u;
    return (b == 33554431u);
}

int remaind() {
    // a = 4294967290u;
    b = a % 100u;
    return (b == 90u);
}

int complement() {
    // a = 4294967290u;
    return (~a == 5u);
}

int main() {

    a = 4294967290u; // 2^32 - 6
    b = 10u;
    if (!addition()) {
        return 1;
    }

    a = 10u;
    b = 20u;
    if (!subtraction()) {
        return 2;
    }

    a = 4294967290u;
    if (!multiplication()) {
        return 3;
    }

    a = 4294967290u;
    if (!division()) {
        return 4;
    }

    a = 4294967290u;
    if (!remaind()) {
        return 5;
    }

    a = 4294967290u;
    if (!complement()) {
        return 6;
    }

    return 0;
}"#;
    let result = compile(source.to_string());
    assert!(result.is_ok(), "{:?}", result);
}

#[test]
fn compiles_unsigned_long_operations() {
    let source = r#"
unsigned long a;
unsigned long b;
int addition() {
    // a == 18446744073709551610ul, i.e. 2^64 - 6
    // b = 10ul
    return (a + b == 4ul); // Overflow behavior
}

int subtraction() {
    // a = 10ul;
    // b = 20ul;
    return (a - b == 18446744073709551606ul); // Underflow behavior
}

int multiplication() {
    // a = 18446744073709551610ul;
    return (a * 2ul == 18446744073709551614ul);
}

int division() {
    // a = 18446744073709551610ul;
    b = a / 128ul;
    return (b == 144115344481324621ul);
}

int remaind() {
    // a = 18446744073709551610ul;
    b = a % 100ul;
    return (b == 10ul);
}

int complement() {
    // a = 18446744073709551610ul;
    return (~a == 5ul);
}

int main() {

    a = 18446744073709551610ul; // 2^64 - 6
    b = 10ul;
    if (!addition()) {
        return 1;
    }

    a = 10ul;
    b = 20ul;
    if (!subtraction()) {
        return 2;
    }

    a = 18446744073709551610ul;
    if (!multiplication()) {
        return 3;
    }

    a = 18446744073709551610ul;
    if (!division()) {
        return 4;
    }

    a = 18446744073709551610ul;
    if (!remaind()) {
        return 5;
    }

    a = 18446744073709551610ul;
    if (!complement()) {
        return 6;
    }

    return 0;
}"#;
    let result = compile(source.to_string());
    assert!(result.is_ok(), "{:?}", result);
}

#[test]
fn compiles_many_unsigned_parameters() {
    let source = r#"
unsigned long calculate_check_value(unsigned long a, unsigned int b, unsigned long c, unsigned int d, unsigned long e, unsigned int f, unsigned long g, unsigned int h, unsigned long i, unsigned int j) {

    unsigned long product = a * c * e * g * i;

    unsigned long remainder = product % 10ul;

    unsigned long sum = b + d + f + h + j;

    return (10ul - (remainder + sum) % 10ul) % 10ul;
}

int main() {

return calculate_check_value(
    4294967297ul, 2u,
    3ul, 4u,
    5ul, 6u,
    7ul, 8u,
    9ul, 10u);
    }
    "#;
    let result = compile(source.to_string());
    assert!(result.is_ok(), "{:?}", result);
}

#[test]
fn compiles_align_unsigned() {
    let source = r#"int main() {
    // Create alternating int/long variables to stress alignment
    unsigned int a = 5u;
    unsigned long b = 1ul;
    b = b << 32;    // b = 2^32 (4294967296) - requires full 64 bits
    unsigned int c = 10u;
    unsigned long d = 1ul;
    d = d << 33;    // d = 2^33 (8589934592)
    unsigned int e = 3u;

    // Test 1: Can we store and retrieve large values correctly?
    if (b != (1UL << 32)) return 1;  // Fails if b is truncated to 32 bits

    // Test 2: 64-bit arithmetic operations
    unsigned long sum = b + d;  // 2^32 + 2^33 = 3*2^32
    if (sum != 3 * (1UL << 32)) return 2;  // Fails if addition truncates

    // Test 3: Mixed unsigned int/unsigned long multiplication (tests zero extension)
    unsigned long product = a * b;  // 5 * 2^32
    if (product != 5 * (1UL << 32)) return 3;  // Fails if conversion is wrong

    // Test 4: Unsigned long division with large values
    unsigned long quotient = d / c;  // 2^33 / 10
    unsigned long remainder = d % c;
    if (quotient * c + remainder != d) return 4;  // Division identity check

    // Test 5: Complex expressions with mixed types
    unsigned long complex = (a * b + c * d) / e;
    if (complex != ((a * b) + (c * d)) / e) return 5;

    // All tests passed
    return 6;
}"#;
    let result = compile(source.to_string());
    assert!(result.is_ok(), "{:?}", result);
}

#[test]
fn compiles_unsigned_int_overflow() {
    let source = r#"
    int main() {
    unsigned int max = 4294967295u;
    max++;
    return max == 0u;
    }
    "#;
    let result = compile(source.to_string());
    assert!(result.is_ok(), "{:?}", result);
}

#[test]
fn compiles_unsigned_long_overflow() {
    let source = r#"
    int main() {
    unsigned long max = 18446744073709551615ul;
    max++;
    return max == 0ul;
    }
    "#;
    let result = compile(source.to_string());
    assert!(result.is_ok(), "{:?}", result);
}

#[test]
fn compiles_unsigned_int_underflow() {
    let source = r#"
    int main() {
    unsigned int min = 0u;
    min--;
    return min == 4294967295u;
    }
    "#;
    let result = compile(source.to_string());
    assert!(result.is_ok(), "{:?}", result);
}

#[test]
fn compiles_unsigned_long_underflow() {
    let source = r#"
    int main() {
    unsigned long min = 0ul;
    min--;
    return min == 18446744073709551615ul;
    }
    "#;
    let result = compile(source.to_string());
    assert!(result.is_ok(), "{:?}", result);
}

#[test]
fn compiles_unsigned_prefix() {
    let source = r#"
    int main() {
    unsigned int ui = 4294967295u;
    return ++ui == 0u;
}"#;
    let result = compile(source.to_string());
    assert!(result.is_ok(), "{:?}", result);
}

#[test]
fn compiles_static_unsigned_with_init() {
    let source = r#"
    int foo() {
        static unsigned int a = 1000000u;
        a++;
        return a;
    }
    int main() {
        foo();
        foo();
        return foo();
    }
    "#;
    let result = compile(source.to_string());
    assert!(result.is_ok(), "{:?}", result);
}

#[test]
fn compiles_top_level_static_unsigned_with_init() {
    let source = r#"
    static unsigned int a = 1000000u;
    int foo() {
        a++;
        return a;
    }
    int main() {
        foo();
        foo();
        return foo();
    }
    "#;
    let result = compile(source.to_string());
    assert!(result.is_ok(), "{:?}", result);
}

#[test]
fn compiles_static_unsigned_without_init() {
    let source = r#"
    int foo() {
        static unsigned int a;
        a++;
        return a;
    }
    int main() {
        foo();
        foo();
        return foo();
    }
    "#;
    let result = compile(source.to_string());
    assert!(result.is_ok(), "{:?}", result);
}

#[test]
fn compiles_top_level_static_unsigned_without_init() {
    let source = r#"
    static unsigned int a;
    int foo() {
        a++;
        return a;
    }
    int main() {
        foo();
        foo();
        return foo();
    }
    "#;
    let result = compile(source.to_string());
    assert!(result.is_ok(), "{:?}", result);
}

#[test]
fn compiles_cast_unsigned_int() {
    let source = r#"
    int main() {
    if ((unsigned int) 1000000 != 1000000u) {
    return 1;
    }

    if (1000000u != (unsigned int) 1000000) {
    return 2;
    }
    return 0;
    }
    "#;
    let result = compile(source.to_string());
    assert!(result.is_ok(), "{:?}", result);
}

#[test]
fn compiles_cast_with_zero_extend() {
    let source = r#"
unsigned long zero_extend(unsigned int ui, unsigned long expected) {
    unsigned long extended = (unsigned long) ui;
    return (extended == expected);
}

int main() {
    if (!zero_extend(10u, 10ul)) {
        return 1;
    }

    if (!zero_extend(4294967295u, 4294967295ul)) {
        return 2;
    }

    unsigned long ul = (unsigned long) 100u;
    if (ul != 100ul) {
        return 3;
    }
    return 0;
}"#;
    let result = compile(source.to_string());
    assert!(result.is_ok(), "{:?}", result);
}

#[test]
fn compiles_cast_with_unsigned_truncate() {
    let source = r#"int truncate(unsigned long ul, unsigned int expected) {
    unsigned int result = (unsigned int) ul;
    return (result == expected);
}

int main()
{
    if (!truncate(10ul, 10u)) {
        return 1;
    }

    if (!truncate(4294967295ul, 4294967295u)) {
        return 2;
    }

    if (!truncate(17179869189ul, // 2^34 + 5
                  5u)) {
        return 3;
    }

    unsigned int ui = (unsigned int)17179869189ul; // 2^34 + 5
    if (ui != 5u)
        return 5;

    return 0;
}"#;
    let result = compile(source.to_string());
    assert!(result.is_ok(), "{:?}", result);
}

#[test]
fn compiles_unsigned_bitwise_operations() {
    let source = r#"
    int main() {
        unsigned long a = 123456789123456789ul;
        unsigned long b = 987654321987654321ul;

        // Bitwise AND
        unsigned long and_result = a & b;
        if (and_result != 122892737510904337ul) return 1;

        // Bitwise OR
        unsigned long or_result = a | b;
        if (or_result != 988218373600206773ul) return 2;

        // Bitwise XOR
        unsigned long xor_result = a ^ b;
        if (xor_result != 865325636089302436ul) return 3;

        // Bitwise NOT
        unsigned long not_result = ~a;
        if (not_result != 18446620616920094826ul) return 4;

        // Bit shifts
        unsigned long c = 1ul;
        if ((c << 60) != 1152921504606846976ul) return 5;
        if ((c << 60) >> 60 != 1ul) return 6;

        return 0;
    }"#;
    let result = compile(source.to_string());
    assert!(result.is_ok(), "{:?}", result);
}

#[test]
fn compiles_unsigned_comparisons() {
    let source = r#"
    int main() {
        unsigned long a = 1000000000000ul;
        unsigned long b = 1000000000001ul;

        if (!(a < b)) return 1;
        if (!(b > a)) return 2;
        if (a >= b) return 3;
        if (b <= a) return 4;
        if (a == b) return 5;
        if (!(a != b)) return 6;

        // Test comparison of unsigned with signed
        int neg = -1;
        unsigned int ui = 1u;

        // -1 > 1u should be true because -1 is converted to unsigned int
        // and becomes a very large number
        if (!(neg > ui)) return 7;

        return 0;
    }"#;
    let result = compile(source.to_string());
    assert!(result.is_ok(), "{:?}", result);
}

#[test]
fn compiles_int_unsigned_promotion() {
    let source = r#"
    int main() {
        int a = 1000000;
        unsigned int b = 1000000u;
        unsigned int result;

        // These should all promote to unsigned int
        result = a + b;
        if (result != 2000000u) return 1;

        result = a * b;
        if (result != 1000000000000u % 4294967296u) return 2;

        // Mixed expressions with operations
        result = (a * 2) + (b / 2);
        if (result != 2500000u) return 3;

        // Negative int + unsigned
        int neg = -1;
        unsigned int ui = 1u;
        if (neg + ui != 0u) return 4;

        return 0;
    }"#;
    let result = compile(source.to_string());
    assert!(result.is_ok(), "{:?}", result);
}

#[test]
fn compiles_function_returning_unsigned() {
    let source = r#"
    unsigned int get_unsigned() {
        return 4000000000u;
    }

    unsigned int get_unsigned_from_int(int a) {
        return (unsigned int)a;
    }

    unsigned long calculate_unsigned(unsigned int a, unsigned long b) {
        return a * b + 42ul;
    }

    int main() {
        if (get_unsigned() != 4000000000u) return 1;
        if (get_unsigned_from_int(-5) != 4294967291u) return 2;
        if (calculate_unsigned(10u, 20ul) != 200ul + 42ul) return 3;
        return 0;
    }"#;
    let result = compile(source.to_string());
    assert!(result.is_ok(), "{:?}", result);
}

#[test]
fn compiles_unsigned_compound_assignments() {
    let source = r#"
    int main() {
        unsigned int a = 1000u;

        a += 2000u;
        if (a != 3000u) return 1;

        a -= 1000u;
        if (a != 2000u) return 2;

        a *= 10u;
        if (a != 20000u) return 3;

        a /= 5u;
        if (a != 4000u) return 4;

        a %= 3000u;
        if (a != 1000u) return 5;

        a <<= 10;
        if (a != 1024000u) return 6;

        a >>= 10;
        if (a != 1000u) return 7;

        a &= 1023u;
        if (a != 1000u) return 8;

        a |= 24u;
        if (a != 1016u) return 9;

        a ^= 1000u;
        if (a != 16u) return 10;

        return 0;
    }"#;
    let result = compile(source.to_string());
    assert!(result.is_ok(), "{:?}", result);
}

#[test]
fn compiles_unsigned_conditionals() {
    let source = r#"
    int main() {
        unsigned int zero = 0u;
        unsigned int non_zero = 1u;

        // Test if() with unsigned values
        if (zero) return 1;
        if (!non_zero) return 2;

        // Test ternary operator with unsigned values
        unsigned int result = non_zero ? 10u : 20u;
        if (result != 10u) return 3;

        result = zero ? 10u : 20u;
        if (result != 20u) return 4;

        // Test with large unsigned values
        unsigned int big_num = 4294967295u; // UINT_MAX
        if (!(big_num > 0)) return 5;

        // Test with comparison in condition
        if ((zero < non_zero) ? zero : non_zero) return 6;
        if (!((zero < non_zero) ? non_zero : zero)) return 7;

        return 0;
    }"#;
    let result = compile(source.to_string());
    assert!(result.is_ok(), "{:?}", result);
}

#[test]
fn compiles_unsigned_literal_edge_cases() {
    let source = r#"
    int main() {
        // Test large unsigned values near MAX
        unsigned int big = 4294967295u; // UINT_MAX
        unsigned long big_long = 18446744073709551615ul; // ULONG_MAX

        // Test assignment from variables
        unsigned int big_copy = big;
        if (big_copy != 4294967295u) return 1;

        // Test calculations with large values (staying in bounds)
        unsigned int calc = big - 1000u;
        if (calc != 4294966295u) return 2;

        // Test operations that cause value to wrap
        unsigned int plus_one = big;
        plus_one++;
        if (plus_one != 0u) return 3;

        // Test large unsigned long values
        unsigned long big_long_copy = big_long;
        if (big_long_copy != 18446744073709551615ul) return 4;

        unsigned long plus_one_long = big_long;
        plus_one_long++;
        if (plus_one_long != 0ul) return 5;

        return 0;
    }"#;
    let result = compile(source.to_string());
    assert!(result.is_ok(), "{:?}", result);
}

#[test]
fn compiles_signed_unsigned_conversion() {
    let source = r#"
    int main() {
        // Test signed -> unsigned conversion
        int neg = -1;
        unsigned int ui = neg;
        if (ui != 4294967295u) return 1; // -1 should become UINT_MAX

        // Test unsigned -> signed conversion with potential loss
        unsigned int big = 4294967295u; // UINT_MAX
        int i = big;
        if (i != -1) return 2; // UINT_MAX should become -1

        // Test signed -> unsigned long conversion
        int neg2 = -2;
        unsigned long ul = neg2;
        if (ul != 18446744073709551614ul) return 3; // -2 should become ULONG_MAX-1

        // Test explicit casts
        if ((unsigned int)(-5) != 4294967291u) return 4; // -5 should become UINT_MAX-4
        if ((int)(4294967295u) != -1) return 5; // UINT_MAX should become -1

        return 0;
    }"#;
    let result = compile(source.to_string());
    assert!(result.is_ok(), "{:?}", result);
}

#[test]
fn compiles_mixed_signed_unsigned_operations() {
    let source = r#"
    int main() {
        // Mixing signed and unsigned in arithmetic
        int neg = -10;
        unsigned int ui = 5u;
        unsigned int result = neg + ui;
        if (result != 4294967291u) return 1; // -10 + 5u should be UINT_MAX-4

        // Mixing in comparisons
        if (!(neg < ui)) return 2; // -10 < 5u should be false (since -10 becomes a large unsigned)
        if (ui < neg) return 3;    // 5u < -10 should be true

        // Mixing in bit operations
        unsigned int bit_result = neg & ui;
        if (bit_result != 5u) return 4; // -10 & 5u should be 5 (after conversion)

        // Mixing unsigned and signed together with ternary operator
        unsigned int ternary = (neg > 0) ? ui : (unsigned int)neg;
        if (ternary != 4294967286u) return 5; // Should be unsigned conversion of -10

        return 0;
    }"#;
    let result = compile(source.to_string());
    assert!(result.is_ok(), "{:?}", result);
}

#[test]
fn compiles_multiple_unsigned_casts() {
    let source = r#"
    int main() {
        int i = 42;
        unsigned long ul = 1000000000000ul;

        // Multiple casts in one expression
        unsigned int result = (unsigned int)(unsigned long)(unsigned int)(unsigned long)i;
        if (result != 42u) return 1;

        // Cast in complex expressions
        unsigned long complex = (unsigned long)i * ul + ((unsigned long)i + ul);
        if (complex != 42ul * ul + (42ul + ul)) return 2;

        // Nested casts
        unsigned int truncated = (unsigned int)((unsigned long)i * 100000000ul);
        if (truncated != (42u * 100000000u) % 4294967296u) return 3;

        return 0;
    }"#;
    let result = compile(source.to_string());
    assert!(result.is_ok(), "{:?}", result);
}
