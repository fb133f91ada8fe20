use compiler::asm_ast::{assembly_fix, should_split, AsmAst};
use compiler::asm_text::write_decimal;
use compiler::ast::{const_of_literal, extract_base_variable, is_lvalue_node, ASTNode, Const, Expression, Name};
use compiler::compiler::compile;
use compiler::errors::{CompilerError, ErrorKind};
use compiler::lexer::{lex, BinaryOperator, Keyword, LiteralSuffix, Symbol, Token, Type, UnaryOperator};
use compiler::parser::Parser;
use compiler::tac::{Operand, Pseudoregister, Reg, TACInstruction};
use compiler::tac_generator::FunctionBody;
use compiler::typecheck::get_common_type;

const PROLOGUE: &str = "\n.global main\n.text\nmain:\npushq %rbp\nmovq %rsp, %rbp\n\nmovabsq $16, %r10\nsubq %r10, %rsp\n";
const EPILOGUE: &str = "\nmovq %rbp, %rsp\npopq %rbp\nret\n";

#[test]
fn compiles_return_constant() {
    let out = compile("int main() { return 2; }".to_string()).unwrap();
    assert_eq!(out, format!("{}\nmovl $2, %eax\n{}", PROLOGUE, EPILOGUE));
}

#[test]
fn empty_body_returns_zero() {
    let out = compile("int main() { }".to_string()).unwrap();
    assert_eq!(out, format!("{}\nmovl $0, %eax\n{}", PROLOGUE, EPILOGUE));
}

#[test]
fn local_variable_lives_in_a_stack_slot() {
    let out = compile("int main() { int a = 5; return a; }".to_string()).unwrap();
    assert_eq!(
        out,
        format!("{}\nmovl $5, -8(%rbp)\n\nmovl -8(%rbp), %eax\n{}", PROLOGUE, EPILOGUE)
    );
}

#[test]
fn file_scope_variable_is_defined_in_data() {
    let out = compile("int x = 3; int main() { return x; }".to_string()).unwrap();
    assert_eq!(
        out,
        format!(
            "{}\nmovl x(%rip), %eax\n{}\n.global x\n.data\n.align 4\n\nx:\n.long 3\n",
            PROLOGUE, EPILOGUE
        )
    );
}

#[test]
fn tentative_definition_goes_to_bss() {
    let out = compile("static long y; int main() { return 0; }".to_string()).unwrap();
    assert!(out.ends_with("\n.bss\n.align 8\n\ny:\n.zero 8\n"), "{}", out);
}

#[test]
fn static_local_is_named_after_its_function() {
    let out = compile("int main() { static int n = 7; return n; }".to_string()).unwrap();
    assert!(out.contains("\nmovl main.n(%rip), %eax\n"), "{}", out);
    assert!(out.ends_with("\n.data\n.align 4\n\nmain.n:\n.long 7\n"), "{}", out);
}

#[test]
fn loop_labels_follow_the_loop() {
    let out = compile("int main() { while (0) break; return 0; }".to_string()).unwrap();
    assert!(out.contains("\n.main0_start.loop:\n"), "{}", out);
    assert!(out.contains("\nje .main0_end.loop\n"), "{}", out);
    assert!(out.contains("\njmp .main0_start.loop\n"), "{}", out);
    assert!(out.contains("\n.main0_end.loop:\n"), "{}", out);
}

#[test]
fn int_argument_is_sign_extended_for_long_parameter() {
    let out = compile("long f(long a) { return a; } int main() { return f(1); }".to_string()).unwrap();
    assert!(out.contains("\nmovslq %r10d, %r10\n"), "{}", out);
    assert!(out.contains("\ncall f\n"), "{}", out);
}

#[test]
fn memory_to_memory_move_goes_through_r10() {
    let out = compile("int main() { int a = 1; int b = a; return b; }".to_string()).unwrap();
    assert!(out.contains("\nmovl -8(%rbp), %r10d\n\nmovl %r10d, -16(%rbp)\n"), "{}", out);
}

#[test]
fn variable_out_of_scope_is_rejected() {
    let r = compile("int main() { { int x = 1; } return x; }".to_string());
    assert!(matches!(r, Err(CompilerError::SemanticError(_))));
}

#[test]
fn assignment_to_non_lvalue_is_rejected() {
    let r = compile("int main() { 1 = 2; return 0; }".to_string());
    assert!(matches!(r, Err(CompilerError::SemanticError(_))));
}

#[test]
fn lexer_interns_names_and_ends_with_eof() {
    let (tokens, names) = lex("int x = x + 12345;".to_string());
    assert_eq!(
        tokens,
        vec![
            Token::Keyword(Keyword::Type(Type::Int)),
            Token::Name(0),
            Token::Symbol(Symbol::Binary(BinaryOperator::Assign)),
            Token::Name(0),
            Token::Symbol(Symbol::Ambiguous(compiler::lexer::UnaryOrBinaryOp::Addition)),
            Token::NumberLiteral(12345, LiteralSuffix::Plain),
            Token::Symbol(Symbol::Semicolon),
            Token::EOF,
        ]
    );
    assert_eq!(names, vec!["x".to_string()]);
}

#[test]
fn printed_number_lexes_back() {
    let mut s = String::new();
    write_decimal(&mut s, 18446744073709551615);
    assert_eq!(s, "18446744073709551615");
    let (tokens, names) = lex(s);
    assert_eq!(tokens, vec![Token::NumberLiteral(18446744073709551615, LiteralSuffix::Plain), Token::EOF]);
    assert!(names.is_empty());
}

#[test]
fn decimal_of_zero() {
    let mut s = String::from("$");
    write_decimal(&mut s, 0);
    assert_eq!(s, "$0");
}

#[test]
fn too_large_literal_is_invalid() {
    let (tokens, _) = lex("18446744073709551616".to_string());
    assert_eq!(tokens, vec![Token::Invalid, Token::EOF]);
}

#[test]
fn parser_accepts_tokens_of_a_function() {
    let (tokens, _) = lex("int main( { return 0; }".to_string());
    let mut parser = Parser::new(tokens);
    assert!(matches!(parser.parse_program(), Err(CompilerError::SyntaxError(_))));
    let (tokens, _) = lex("int main() { return 0; }".to_string());
    let mut parser = Parser::new(tokens);
    assert!(parser.parse_program().is_ok());
}

#[test]
fn assembly_fix_splits_memory_to_memory() {
    let a = Pseudoregister::Pseudoregister(8, Type::Int);
    let b = Pseudoregister::Pseudoregister(16, Type::Int);
    let fixed = assembly_fix(vec![AsmAst::Mov { size: 4, src: Operand::Register(a), dest: b }]);
    let r10 = Pseudoregister::Register(Reg::R10, Type::Int);
    assert_eq!(
        fixed,
        vec![
            AsmAst::Mov { size: 4, src: Operand::Register(a), dest: r10 },
            AsmAst::Mov { size: 4, src: Operand::Register(r10), dest: b },
        ]
    );
    assert!(should_split(Operand::Register(a), b));
    assert!(!should_split(Operand::Immediate(Const::ConstInt(1)), b));
}

#[test]
fn default_return_is_added_once() {
    let mut body = FunctionBody::new();
    body.add_default_return();
    assert!(body.instructions.is_empty());
    body.add_instruction(TACInstruction::AllocateStackInstruction);
    body.add_default_return();
    body.add_default_return();
    assert_eq!(body.instructions.len(), 2);
    assert_eq!(
        body.instructions[1],
        TACInstruction::ReturnInstruction { val: Operand::Immediate(Const::ConstInt(0)) }
    );
}

#[test]
fn common_type_of_operands() {
    assert_eq!(get_common_type(Type::Int, Type::Long), Type::Long);
    assert_eq!(get_common_type(Type::UInt, Type::UInt), Type::UInt);
    assert_eq!(get_common_type(Type::Int, Type::UInt), Type::UInt);
    assert_eq!(get_common_type(Type::UInt, Type::Int), Type::UInt);
    assert_eq!(get_common_type(Type::UInt, Type::ULong), Type::ULong);
    assert_eq!(get_common_type(Type::Long, Type::UInt), Type::Long);
    assert_eq!(get_common_type(Type::Long, Type::ULong), Type::ULong);
}

#[test]
fn comparison_of_int_with_unsigned_is_unsigned() {
    let out = compile("int main() { return -1 > 1u; }".to_string()).unwrap();
    assert!(out.contains("seta"));
    assert!(!out.contains("setg"));
}

#[test]
fn shift_keeps_the_type_of_its_left_operand() {
    let out = compile("int main() { long n = 3; int a = 1; return a << n; }".to_string()).unwrap();
    assert!(out.contains("shll"));
    assert!(!out.contains("shlq"));
}

#[test]
fn definition_after_prototype_after_definition_is_rejected() {
    let r = compile("int f() { return 1; } int f(); int f() { return 2; } int main() { return f(); }".to_string());
    assert!(matches!(r, Err(CompilerError::SemanticError(_))));
}

#[test]
fn static_long_is_defined_with_eight_bytes() {
    let out = compile("long x = 5; int main() { static long y; return x + y; }".to_string()).unwrap();
    assert!(out.contains(".quad 5"));
    assert!(out.contains(".zero 8"));
}

#[test]
fn lvalues_and_base_variables() {
    let v = Expression::Variable(Name::Source(3));
    assert!(is_lvalue_node(&v));
    let p = Expression::Prefix(UnaryOperator::Increment, Box::new(ASTNode::new(v)));
    assert!(is_lvalue_node(&p));
    assert_eq!(extract_base_variable(&p), Some(Name::Source(3)));
    let c = Expression::Constant(Const::ConstInt(1));
    assert!(!is_lvalue_node(&c));
    assert_eq!(extract_base_variable(&c), None);
}

#[test]
fn error_text_names_its_kind() {
    let e = CompilerError::with_message(ErrorKind::Semantic, "Undefined variable");
    assert_eq!(e.to_string(), "Semantic Error: Undefined variable");
    let e = CompilerError::with_message(ErrorKind::Syntax, "Expected ;");
    assert_eq!(e.to_string(), "Syntax Error: Expected ;");
}

#[test]
fn pseudoregister_reports_size_and_sign() {
    let p = Pseudoregister::new(8, Type::ULong);
    assert_eq!(p.size(), 8);
    assert!(p.is_unsigned());
    assert_eq!(Operand::Immediate(Const::ConstUInt(1)).size(), 4);
    assert!(Operand::Immediate(Const::ConstUInt(1)).is_unsigned());
    assert!(Operand::Immediate(Const::ConstInt(1)).is_immediate());
}

#[test]
fn continue_in_for_jumps_to_increment() {
    let out = compile("int main() { int i; for (i = 0; i < 3; i++) { continue; } return i; }".to_string()).unwrap();
    assert!(out.contains("\njmp .main0_increment.loop\n"), "{}", out);
    assert!(out.contains("\n.main0_increment.loop:\n"), "{}", out);
}

#[test]
fn break_in_nested_loop_leaves_the_inner_one() {
    let out = compile("int main() { while (1) { do { break; } while (0); break; } return 0; }".to_string()).unwrap();
    assert!(out.contains("\njmp .main1_end.loop\n"), "{}", out);
    assert!(out.contains("\njmp .main0_end.loop\n"), "{}", out);
}

#[test]
fn logical_not_compares_with_zero() {
    let out = compile("int main() { int a = 0; return !a; }".to_string()).unwrap();
    assert!(out.contains("\nsete %al\n"), "{}", out);
}

#[test]
fn comparison_of_unsigned_uses_unsigned_condition() {
    let out = compile("int main() { unsigned int a = 1; unsigned int b = 2; return a < b; }".to_string()).unwrap();
    assert!(out.contains("\nsetb %al\n"), "{}", out);
}

#[test]
fn literal_suffixes_are_lexed() {
    let (tokens, _) = lex("1l 2U 3ul 4LU 5uL 6".to_string());
    assert_eq!(
        tokens,
        vec![
            Token::NumberLiteral(1, LiteralSuffix::Long),
            Token::NumberLiteral(2, LiteralSuffix::Unsigned),
            Token::NumberLiteral(3, LiteralSuffix::UnsignedLong),
            Token::NumberLiteral(4, LiteralSuffix::UnsignedLong),
            Token::NumberLiteral(5, LiteralSuffix::UnsignedLong),
            Token::NumberLiteral(6, LiteralSuffix::Plain),
            Token::EOF,
        ]
    );
}

#[test]
fn literal_types_follow_suffix_and_size() {
    assert_eq!(const_of_literal(5, LiteralSuffix::Plain), Const::ConstInt(5));
    assert_eq!(const_of_literal(2147483648, LiteralSuffix::Plain), Const::ConstLong(2147483648));
    assert_eq!(const_of_literal(5, LiteralSuffix::Long), Const::ConstLong(5));
    assert_eq!(const_of_literal(4294967295, LiteralSuffix::Unsigned), Const::ConstUInt(4294967295));
    assert_eq!(const_of_literal(4294967296, LiteralSuffix::Unsigned), Const::ConstULong(4294967296));
    assert_eq!(const_of_literal(5, LiteralSuffix::UnsignedLong), Const::ConstULong(5));
}

#[test]
fn long_literal_is_moved_with_movabsq() {
    let out = compile("int main() { long l = 9223372036854775807l; return l == 1l; }".to_string()).unwrap();
    assert!(out.contains("\nmovabsq $9223372036854775807, %r10\nmovq %r10, -8(%rbp)\n"), "{}", out);
}

#[test]
fn shift_by_a_variable_counts_in_cl() {
    let out = compile("int main() { long b = 1; int n = 3; return b << n; }".to_string()).unwrap();
    assert!(out.contains("\nshlq %cl, "), "{}", out);
}

#[test]
fn every_jump_target_is_a_label_of_the_output() {
    let src = "int f(int n) {\n    int total = 0;\n    for (int i = 0; i < n; i = i + 1) {\n        if (i == 3) continue;\n        int j = 0;\n        while (1) {\n            j = j + 1;\n            if (j > i || j > 5) break;\n        }\n        do {\n            total = total + (i && j ? j : i);\n        } while (total < 0 && n);\n    }\n    return total;\n}\nint main() { return f(7); }";
    let out = compile(src.to_string()).unwrap();
    let lines: Vec<&str> = out.lines().collect();
    let mut jumps = 0;
    for line in &lines {
        if line.starts_with('j') {
            let target = line.split(' ').nth(1).unwrap();
            let defined = format!("{}:", target);
            assert!(lines.iter().any(|l| *l == defined), "no label for {}", line);
            jumps += 1;
        }
    }
    assert!(jumps >= 8);
}

#[test]
fn no_label_is_defined_twice() {
    let src = "int g(int a, int b) {\n    while (a > 0) {\n        for (int i = 0; i < b; i = i + 1) {\n            if (i % 2) { a = a - 1; } else { b = b - 1; }\n            do { a = a || b; } while (a && !b);\n        }\n        a = a > 3 ? a - 4 : 0;\n    }\n    for (;;) { if (b) { break; } else { continue; } }\n    return a;\n}\nint main() { while (0) {} return g(5, 3); }";
    let out = compile(src.to_string()).unwrap();
    let labels: Vec<&str> = out.lines().filter(|l| l.starts_with('.') && l.ends_with(':')).collect();
    assert!(labels.len() >= 10);
    for (i, a) in labels.iter().enumerate() {
        for b in labels.iter().skip(i + 1) {
            assert_ne!(a, b);
        }
    }
}
