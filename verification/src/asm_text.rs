use crate::asm_ast::{AsmAst, CondCode};
use crate::ast::{Const, Name};
use crate::lexer::{
    digit_run_end, digit_value, digits_value, is_digit, lemma_digit_run_end, names_view, spec_lex,
    spec_lex_from, BinaryOperator, LiteralSuffix, Token, UnaryOperator,
};
use crate::tac::{Label, LabelKind, Operand, Pseudoregister, Reg};
use vstd::prelude::*;
use vstd::string::*;

verus! {

// ---------------------------------------------------------------------------
// The model of the assembly text. `names` is the name table of the lexer.
// ---------------------------------------------------------------------------

pub open spec fn digit_char(d: nat) -> char {
    if d == 0 {
        '0'
    } else if d == 1 {
        '1'
    } else if d == 2 {
        '2'
    } else if d == 3 {
        '3'
    } else if d == 4 {
        '4'
    } else if d == 5 {
        '5'
    } else if d == 6 {
        '6'
    } else if d == 7 {
        '7'
    } else if d == 8 {
        '8'
    } else {
        '9'
    }
}

/// The decimal digits of a number.
pub open spec fn decimal(n: nat) -> Seq<char>
    decreases n,
{
    if n < 10 {
        seq![digit_char(n)]
    } else {
        decimal(n / 10) + seq![digit_char(n % 10)]
    }
}

/// A signed number in decimal.
pub open spec fn signed_decimal(v: int) -> Seq<char> {
    if v < 0 {
        seq!['-'] + decimal((-v) as nat)
    } else {
        decimal(v as nat)
    }
}

pub open spec fn table_entry(names: Seq<Seq<char>>, i: usize) -> Seq<char> {
    if i < names.len() {
        names[i as int]
    } else {
        Seq::empty()
    }
}

/// A name as it appears in the assembly: as written, `function::name::layer`
/// for a block-scope variable, `function.name` for a static local.
pub open spec fn name_text(names: Seq<Seq<char>>, n: Name) -> Seq<char> {
    match n {
        Name::Source(i) => table_entry(names, i),
        Name::Local { function, name, layer } => table_entry(names, function) + "::"@ + table_entry(
            names,
            name,
        ) + "::"@ + decimal(layer as nat),
        Name::StaticLocal { function, name } => table_entry(names, function) + "."@ + table_entry(
            names,
            name,
        ),
    }
}

pub open spec fn label_suffix(k: LabelKind) -> Seq<char> {
    match k {
        LabelKind::False => "_false"@,
        LabelKind::True => "_true"@,
        LabelKind::Else => "_else"@,
        LabelKind::End => "_end"@,
        LabelKind::LoopStart => "_start.loop"@,
        LabelKind::LoopEnd => "_end.loop"@,
        LabelKind::LoopIncrement => "_increment.loop"@,
    }
}

/// A label: `.`, the function's name, the number and the kind.
pub open spec fn label_text(names: Seq<Seq<char>>, l: Label) -> Seq<char> {
    "."@ + table_entry(names, l.function) + decimal(l.number as nat) + label_suffix(l.kind)
}

pub open spec fn reg_base(r: Reg) -> Seq<char> {
    match r {
        Reg::AX => "ax"@,
        Reg::DX => "dx"@,
        Reg::CX => "cx"@,
        Reg::BP => "bp"@,
        Reg::SP => "sp"@,
        Reg::DI => "di"@,
        Reg::SI => "si"@,
        Reg::R8 => "r8"@,
        Reg::R9 => "r9"@,
        Reg::R10 => "r10"@,
        Reg::R11 => "r11"@,
        Reg::CL => "cl"@,
    }
}

pub open spec fn is_legacy(r: Reg) -> bool {
    r is AX || r is DX || r is CX || r is BP || r is SP || r is DI || r is SI
}

/// A register by the width of the value it holds (`%eax` or `%rax`,
/// `%r10d` or `%r10`); the shift count register is always `%cl`.
pub open spec fn reg_text(r: Reg, size: i32) -> Seq<char> {
    if r is CL {
        "%cl"@
    } else if is_legacy(r) {
        if size == 4 {
            "%e"@ + reg_base(r)
        } else {
            "%r"@ + reg_base(r)
        }
    } else if size == 4 {
        "%"@ + reg_base(r) + "d"@
    } else {
        "%"@ + reg_base(r)
    }
}

pub open spec fn pseudo_text(names: Seq<Seq<char>>, p: Pseudoregister) -> Seq<char> {
    match p {
        Pseudoregister::Pseudoregister(offset, _) => "-"@ + decimal(offset as nat) + "(%rbp)"@,
        Pseudoregister::Register(r, _) => reg_text(r, p.spec_size()),
        Pseudoregister::Data(n, _) => name_text(names, n) + "(%rip)"@,
    }
}

pub open spec fn operand_text(names: Seq<Seq<char>>, o: Operand) -> Seq<char> {
    match o {
        Operand::Immediate(c) => "$"@ + decimal(c.value() as nat),
        Operand::Register(p) => pseudo_text(names, p),
        Operand::MemoryReference(offset, r, _) => decimal(offset as nat) + "("@ + reg_text(r, 8) + ")"@,
    }
}

pub open spec fn cond_text(c: CondCode) -> Seq<char> {
    match c {
        CondCode::Equal => "e"@,
        CondCode::NotEqual => "ne"@,
        CondCode::GreaterThan => "g"@,
        CondCode::LessThan => "l"@,
        CondCode::GreaterEqual => "ge"@,
        CondCode::LessEqual => "le"@,
        CondCode::Above => "a"@,
        CondCode::AboveOrEqual => "ae"@,
        CondCode::Below => "b"@,
        CondCode::BelowOrEqual => "be"@,
    }
}

/// The operand-size suffix: `l` for four bytes, `q` otherwise.
pub open spec fn suffix(size: i32) -> Seq<char> {
    if size == 4 {
        "l"@
    } else {
        "q"@
    }
}

pub open spec fn unary_mnemonic(op: UnaryOperator) -> Seq<char> {
    match op {
        UnaryOperator::Increment => "inc"@,
        UnaryOperator::Decrement => "dec"@,
        UnaryOperator::BitwiseNot => "not"@,
        UnaryOperator::Negate => "neg"@,
        _ => Seq::empty(),
    }
}

pub open spec fn binary_mnemonic(op: BinaryOperator) -> Seq<char> {
    match op {
        BinaryOperator::Addition => "add"@,
        BinaryOperator::Subtraction => "sub"@,
        BinaryOperator::BitwiseXor => "xor"@,
        BinaryOperator::BitwiseAnd => "and"@,
        BinaryOperator::BitwiseOr => "or"@,
        BinaryOperator::Multiply => "imul"@,
        BinaryOperator::BitwiseShiftLeft => "shl"@,
        BinaryOperator::BitwiseShiftRight => "shr"@,
        _ => Seq::empty(),
    }
}

pub open spec fn has_binary_mnemonic(op: BinaryOperator) -> bool {
    op is Addition || op is Subtraction || op is BitwiseXor || op is BitwiseAnd || op is BitwiseOr
        || op is Multiply || op is BitwiseShiftLeft || op is BitwiseShiftRight
}

pub open spec fn global_text(names: Seq<Seq<char>>, name: Name, global: bool) -> Seq<char> {
    if global {
        ".global "@ + name_text(names, name) + "\n"@
    } else {
        Seq::empty()
    }
}

/// The text of one instruction or directive.
pub open spec fn asm_text(names: Seq<Seq<char>>, a: AsmAst) -> Seq<char> {
    match a {
        AsmAst::Function { name, global } => global_text(names, name, global) + ".text\n"@ + name_text(
            names,
            name,
        ) + ":\npushq %rbp\nmovq %rsp, %rbp\n"@,
        AsmAst::Static { size, name, global, init } => {
            let zero = init.value() == 0;
            let section = if zero {
                ".bss"@
            } else {
                ".data"@
            };
            let initial = if zero {
                ".zero "@ + signed_decimal(size as int) + "\n"@
            } else {
                (if size == 4 {
                    ".long "@
                } else {
                    ".quad "@
                }) + decimal(init.value() as nat) + "\n"@
            };
            global_text(names, name, global) + section + "\n"@ + ".align "@ + signed_decimal(size as int)
                + "\n"@ + "\n"@ + name_text(names, name) + ":\n"@ + initial
        },
        AsmAst::Mov { size, src, dest } => if size == 8 && src is Immediate {
            "movabsq "@ + operand_text(names, src) + ", %r10\nmovq %r10, "@ + pseudo_text(names, dest)
                + "\n"@
        } else {
            (if size == 8 {
                "movq "@
            } else {
                "movl "@
            }) + operand_text(names, src) + ", "@ + pseudo_text(names, dest) + "\n"@
        },
        AsmAst::Movsx { src, dest } => "movslq "@ + operand_text(names, src) + ", "@ + pseudo_text(
            names,
            dest,
        ) + "\n"@,
        AsmAst::MovZeroExtend { src, dest } => "movzbl "@ + operand_text(names, src) + ", "@
            + pseudo_text(names, dest) + "\n"@,
        AsmAst::MovAl(dest) => "movzbl %al, "@ + pseudo_text(names, dest) + "\n"@,
        AsmAst::Unary { operator, size, dest } => if operator == UnaryOperator::LogicalNot {
            "xorl $1, "@ + pseudo_text(names, dest)
        } else if operator == UnaryOperator::UnaryAdd {
            Seq::empty()
        } else {
            unary_mnemonic(operator) + suffix(size) + " "@ + pseudo_text(names, dest) + "\n"@
        },
        AsmAst::Binary { operator, size, src, dest } => if !has_binary_mnemonic(operator) {
            Seq::empty()
        } else if src is Immediate && size == 8 {
            "movabsq "@ + operand_text(names, src) + ", %r10\n"@ + binary_mnemonic(operator) + suffix(
                size,
            ) + " %r10, "@ + pseudo_text(names, dest) + "\n"@
        } else {
            binary_mnemonic(operator) + suffix(size) + " "@ + operand_text(names, src) + ", "@
                + pseudo_text(names, dest) + "\n"@
        },
        AsmAst::Cmp { size, left, right } => "cmp"@ + suffix(size) + " "@ + operand_text(names, left)
            + ", "@ + operand_text(names, right) + "\n"@,
        AsmAst::Idiv { size, operand } => "idiv"@ + suffix(size) + " "@ + pseudo_text(names, operand)
            + "\n"@,
        AsmAst::Div { size, operand } => "div"@ + suffix(size) + " "@ + operand_text(names, operand)
            + "\n"@,
        AsmAst::Cdq { size } => if size == 4 {
            "cdq\n"@
        } else {
            "cqo\n"@
        },
        AsmAst::Jmp(l) => "jmp "@ + label_text(names, l) + "\n"@,
        AsmAst::JmpCC { condition, label } => "j"@ + cond_text(condition) + " "@ + label_text(
            names,
            label,
        ) + "\n"@,
        AsmAst::SetCC(c) => "set"@ + cond_text(c) + " %al\n"@,
        AsmAst::Label(l) => label_text(names, l) + ":\n"@,
        AsmAst::Push(o) => "pushq "@ + operand_text(names, o) + "\n"@,
        AsmAst::Call(n) => "call "@ + name_text(names, n) + "\n"@,
        AsmAst::Ret => "movq %rbp, %rsp\npopq %rbp\nret\n"@,
        AsmAst::Testl(r) => "testl "@ + pseudo_text(names, r) + ", "@ + pseudo_text(names, r) + "\n"@,
    }
}

/// The text of a whole program: each instruction on a fresh line.
pub open spec fn program_text(names: Seq<Seq<char>>, instrs: Seq<AsmAst>) -> Seq<char>
    decreases instrs.len(),
{
    if instrs.len() == 0 {
        Seq::empty()
    } else {
        program_text(names, instrs.drop_last()) + "\n"@ + asm_text(names, instrs.last())
    }
}


// ---------------------------------------------------------------------------
// The printer and the lexer agree on numbers.
// ---------------------------------------------------------------------------

/// The decimal text of a number is made of digits, and reading it back
/// gives the number.
pub proof fn lemma_decimal_digits(n: nat)
    ensures
        decimal(n).len() >= 1,
        forall|k: int| 0 <= k < decimal(n).len() ==> is_digit(#[trigger] decimal(n)[k]),
        digits_value(decimal(n)) == n,
    decreases n,
{
    if n >= 10 {
        lemma_decimal_digits(n / 10);
        let d = decimal(n / 10);
        let c = digit_char(n % 10);
        assert((d + seq![c]).drop_last() =~= d);
        assert((d + seq![c]).last() == c);
        assert(digit_value(c) == n % 10);
        assert(digits_value(d + seq![c]) == digits_value(d) * 10 + digit_value(c));
        assert(n == (n / 10) * 10 + n % 10);
        assert(decimal(n) == d + seq![c]);
        assert(digits_value(decimal(n)) == n);
    } else {
        assert(decimal(n) == seq![digit_char(n)]);
        assert(digits_value(Seq::<char>::empty()) == 0);
        assert(digits_value(seq![digit_char(n)]) == digits_value(seq![digit_char(n)].drop_last()) * 10
            + digit_value(digit_char(n)));
        assert(seq![digit_char(n)].drop_last() =~= Seq::<char>::empty());
        assert(digit_value(digit_char(n)) == n);
    }
}

/// Lexing the decimal text of a number that fits in 64 bits gives that
/// number as a literal, then `EOF`, and no names.
pub proof fn lemma_lex_decimal(n: u64)
    ensures
        spec_lex(decimal(n as nat)) == (seq![Token::NumberLiteral(n, LiteralSuffix::Plain), Token::EOF], Seq::<Seq<char>>::empty()),
{
    let s = decimal(n as nat);
    lemma_decimal_digits(n as nat);
    lemma_digit_run_end(s, 1);
    let e = digit_run_end(s, 1);
    if e < s.len() {
        assert(is_digit(s[e]));
    }
    assert(s.subrange(0, e) =~= s);
    assert(is_digit(s[0]));
    let empty = Seq::<Seq<char>>::empty();
    assert(spec_lex_from(s, s.len() as int, empty) == (seq![Token::EOF], empty));
    assert(seq![Token::NumberLiteral(n, LiteralSuffix::Plain)] + seq![Token::EOF] =~= seq![Token::NumberLiteral(n, LiteralSuffix::Plain), Token::EOF]);
}

// ---------------------------------------------------------------------------
// Writing the assembly text.
// ---------------------------------------------------------------------------

fn digit_str(d: u64) -> (s: &'static str)
    requires
        d < 10,
    ensures
        s@ == seq![digit_char(d as nat)],
{
    proof {
        reveal_strlit("0");
        reveal_strlit("1");
        reveal_strlit("2");
        reveal_strlit("3");
        reveal_strlit("4");
        reveal_strlit("5");
        reveal_strlit("6");
        reveal_strlit("7");
        reveal_strlit("8");
        reveal_strlit("9");
    }
    if d == 0 {
        "0"
    } else if d == 1 {
        "1"
    } else if d == 2 {
        "2"
    } else if d == 3 {
        "3"
    } else if d == 4 {
        "4"
    } else if d == 5 {
        "5"
    } else if d == 6 {
        "6"
    } else if d == 7 {
        "7"
    } else if d == 8 {
        "8"
    } else {
        "9"
    }
}

/// Appends a number in decimal.
pub fn write_decimal(out: &mut String, n: u64)
    ensures
        final(out)@ == old(out)@ + decimal(n as nat),
    decreases n,
{
    let ghost o = out@;
    if n >= 10 {
        write_decimal(out, n / 10);
    }
    out.append(digit_str(n % 10));
    proof {
        assert(out@ =~= o + decimal(n as nat));
    }
}

fn write_signed(out: &mut String, v: i32)
    ensures
        final(out)@ == old(out)@ + signed_decimal(v as int),
{
    let ghost o = out@;
    if v < 0 {
        proof {
            reveal_strlit("-");
        }
        out.append("-");
        let m: i64 = -(v as i64);
        write_decimal(out, m as u64);
        proof {
            assert(out@ =~= o + signed_decimal(v as int));
        }
    } else {
        write_decimal(out, v as u64);
    }
}

fn write_entry(out: &mut String, names: &Vec<String>, i: usize)
    ensures
        final(out)@ == old(out)@ + table_entry(names_view(names@), i),
{
    if i < names.len() {
        out.append(names[i].as_str());
    } else {
        proof {
            assert(old(out)@ + Seq::<char>::empty() =~= old(out)@);
        }
    }
}

fn write_name(out: &mut String, names: &Vec<String>, n: Name)
    ensures
        final(out)@ == old(out)@ + name_text(names_view(names@), n),
{
    let ghost o = out@;
    match n {
        Name::Source(i) => write_entry(out, names, i),
        Name::Local { function, name, layer } => {
            write_entry(out, names, function);
            out.append("::");
            write_entry(out, names, name);
            out.append("::");
            write_decimal(out, layer);
            proof {
                assert(out@ =~= o + name_text(names_view(names@), n));
            }
        },
        Name::StaticLocal { function, name } => {
            write_entry(out, names, function);
            out.append(".");
            write_entry(out, names, name);
            proof {
                assert(out@ =~= o + name_text(names_view(names@), n));
            }
        },
    }
}

fn label_suffix_str(k: LabelKind) -> (s: &'static str)
    ensures
        s@ == label_suffix(k),
{
    match k {
        LabelKind::False => "_false",
        LabelKind::True => "_true",
        LabelKind::Else => "_else",
        LabelKind::End => "_end",
        LabelKind::LoopStart => "_start.loop",
        LabelKind::LoopEnd => "_end.loop",
        LabelKind::LoopIncrement => "_increment.loop",
    }
}

fn write_label(out: &mut String, names: &Vec<String>, l: Label)
    ensures
        final(out)@ == old(out)@ + label_text(names_view(names@), l),
{
    let ghost o = out@;
    out.append(".");
    write_entry(out, names, l.function);
    write_decimal(out, l.number);
    out.append(label_suffix_str(l.kind));
    proof {
        assert(out@ =~= o + label_text(names_view(names@), l));
    }
}

fn reg_base_str(r: Reg) -> (s: &'static str)
    ensures
        s@ == reg_base(r),
{
    match r {
        Reg::AX => "ax",
        Reg::DX => "dx",
        Reg::CX => "cx",
        Reg::BP => "bp",
        Reg::SP => "sp",
        Reg::DI => "di",
        Reg::SI => "si",
        Reg::R8 => "r8",
        Reg::R9 => "r9",
        Reg::R10 => "r10",
        Reg::R11 => "r11",
        Reg::CL => "cl",
    }
}

fn write_reg(out: &mut String, r: Reg, size: i32)
    ensures
        final(out)@ == old(out)@ + reg_text(r, size),
{
    let ghost o = out@;
    let legacy = match r {
        Reg::AX | Reg::DX | Reg::CX | Reg::BP | Reg::SP | Reg::DI | Reg::SI => true,
        _ => false,
    };
    if r == Reg::CL {
        out.append("%cl");
    } else if legacy {
        if size == 4 {
            out.append("%e");
        } else {
            out.append("%r");
        }
        out.append(reg_base_str(r));
    } else {
        out.append("%");
        out.append(reg_base_str(r));
        if size == 4 {
            out.append("d");
        }
    }
    proof {
        assert(out@ =~= o + reg_text(r, size));
    }
}

fn write_pseudo(out: &mut String, names: &Vec<String>, p: Pseudoregister)
    ensures
        final(out)@ == old(out)@ + pseudo_text(names_view(names@), p),
{
    let ghost o = out@;
    match p {
        Pseudoregister::Pseudoregister(offset, _) => {
            out.append("-");
            write_decimal(out, offset);
            out.append("(%rbp)");
        },
        Pseudoregister::Register(r, _) => write_reg(out, r, p.size()),
        Pseudoregister::Data(n, _) => {
            write_name(out, names, n);
            out.append("(%rip)");
        },
    }
    proof {
        assert(out@ =~= o + pseudo_text(names_view(names@), p));
    }
}

fn const_value(c: Const) -> (v: u64)
    ensures
        v == c.value(),
{
    match c {
        Const::ConstInt(v) => v as u64,
        Const::ConstLong(v) => v,
        Const::ConstUInt(v) => v as u64,
        Const::ConstULong(v) => v,
    }
}

fn write_operand(out: &mut String, names: &Vec<String>, o: Operand)
    ensures
        final(out)@ == old(out)@ + operand_text(names_view(names@), o),
{
    let ghost start = out@;
    match o {
        Operand::Immediate(c) => {
            out.append("$");
            write_decimal(out, const_value(c));
        },
        Operand::Register(p) => write_pseudo(out, names, p),
        Operand::MemoryReference(offset, r, _) => {
            write_decimal(out, offset);
            out.append("(");
            write_reg(out, r, 8);
            out.append(")");
        },
    }
    proof {
        assert(out@ =~= start + operand_text(names_view(names@), o));
    }
}

fn cond_str(c: CondCode) -> (s: &'static str)
    ensures
        s@ == cond_text(c),
{
    match c {
        CondCode::Equal => "e",
        CondCode::NotEqual => "ne",
        CondCode::GreaterThan => "g",
        CondCode::LessThan => "l",
        CondCode::GreaterEqual => "ge",
        CondCode::LessEqual => "le",
        CondCode::Above => "a",
        CondCode::AboveOrEqual => "ae",
        CondCode::Below => "b",
        CondCode::BelowOrEqual => "be",
    }
}

fn suffix_str(size: i32) -> (s: &'static str)
    ensures
        s@ == suffix(size),
{
    if size == 4 {
        "l"
    } else {
        "q"
    }
}

fn unary_str(op: UnaryOperator) -> (s: &'static str)
    ensures
        s@ == unary_mnemonic(op),
{
    proof {
        reveal_strlit("");
    }
    match op {
        UnaryOperator::Increment => "inc",
        UnaryOperator::Decrement => "dec",
        UnaryOperator::BitwiseNot => "not",
        UnaryOperator::Negate => "neg",
        _ => "",
    }
}

fn binary_str(op: BinaryOperator) -> (s: &'static str)
    ensures
        s@ == binary_mnemonic(op),
{
    proof {
        reveal_strlit("");
    }
    match op {
        BinaryOperator::Addition => "add",
        BinaryOperator::Subtraction => "sub",
        BinaryOperator::BitwiseXor => "xor",
        BinaryOperator::BitwiseAnd => "and",
        BinaryOperator::BitwiseOr => "or",
        BinaryOperator::Multiply => "imul",
        BinaryOperator::BitwiseShiftLeft => "shl",
        BinaryOperator::BitwiseShiftRight => "shr",
        _ => "",
    }
}

fn write_global(out: &mut String, names: &Vec<String>, name: Name, global: bool)
    ensures
        final(out)@ == old(out)@ + global_text(names_view(names@), name, global),
{
    let ghost o = out@;
    if global {
        out.append(".global ");
        write_name(out, names, name);
        out.append("\n");
    }
    proof {
        assert(out@ =~= o + global_text(names_view(names@), name, global));
    }
}

fn write_function(out: &mut String, names: &Vec<String>, name: Name, global: bool)
    ensures
        final(out)@ == old(out)@ + asm_text(names_view(names@), AsmAst::Function { name, global }),
{
    let ghost o = out@;
    write_global(out, names, name, global);
    out.append(".text\n");
    write_name(out, names, name);
    out.append(":\npushq %rbp\nmovq %rsp, %rbp\n");
    proof {
        assert(out@ =~= o + asm_text(names_view(names@), AsmAst::Function { name, global }));
    }
}

#[verifier::rlimit(40)]
fn write_static(out: &mut String, names: &Vec<String>, size: i32, name: Name, global: bool, init: Const)
    ensures
        final(out)@ == old(out)@ + asm_text(names_view(names@), AsmAst::Static { size, name, global, init }),
{
    let ghost o = out@;
    let v = const_value(init);
    write_global(out, names, name, global);
    if v == 0 {
        out.append(".bss");
    } else {
        out.append(".data");
    }
    out.append("\n");
    out.append(".align ");
    write_signed(out, size);
    out.append("\n");
    out.append("\n");
    write_name(out, names, name);
    out.append(":\n");
    if v == 0 {
        out.append(".zero ");
        write_signed(out, size);
    } else {
        if size == 4 {
            out.append(".long ");
        } else {
            out.append(".quad ");
        }
        write_decimal(out, v);
    }
    out.append("\n");
    proof {
        assert(out@ =~= o + asm_text(names_view(names@), AsmAst::Static { size, name, global, init }));
    }
}

#[verifier::rlimit(30)]
fn write_mov(out: &mut String, names: &Vec<String>, size: i32, src: Operand, dest: Pseudoregister)
    ensures
        final(out)@ == old(out)@ + asm_text(names_view(names@), AsmAst::Mov { size, src, dest }),
{
    let ghost o = out@;
    if size == 8 && src.is_immediate() {
        out.append("movabsq ");
        write_operand(out, names, src);
        out.append(", %r10\nmovq %r10, ");
    } else {
        if size == 8 {
            out.append("movq ");
        } else {
            out.append("movl ");
        }
        write_operand(out, names, src);
        out.append(", ");
    }
    write_pseudo(out, names, dest);
    out.append("\n");
    proof {
        assert(out@ =~= o + asm_text(names_view(names@), AsmAst::Mov { size, src, dest }));
    }
}

fn write_movsx(out: &mut String, names: &Vec<String>, src: Operand, dest: Pseudoregister)
    ensures
        final(out)@ == old(out)@ + asm_text(names_view(names@), AsmAst::Movsx { src, dest }),
{
    let ghost o = out@;
    out.append("movslq ");
    write_operand(out, names, src);
    out.append(", ");
    write_pseudo(out, names, dest);
    out.append("\n");
    proof {
        assert(out@ =~= o + asm_text(names_view(names@), AsmAst::Movsx { src, dest }));
    }
}

fn write_movzbl(out: &mut String, names: &Vec<String>, src: Operand, dest: Pseudoregister)
    ensures
        final(out)@ == old(out)@ + asm_text(names_view(names@), AsmAst::MovZeroExtend { src, dest }),
{
    let ghost o = out@;
    out.append("movzbl ");
    write_operand(out, names, src);
    out.append(", ");
    write_pseudo(out, names, dest);
    out.append("\n");
    proof {
        assert(out@ =~= o + asm_text(names_view(names@), AsmAst::MovZeroExtend { src, dest }));
    }
}

fn write_moval(out: &mut String, names: &Vec<String>, dest: Pseudoregister)
    ensures
        final(out)@ == old(out)@ + asm_text(names_view(names@), AsmAst::MovAl(dest)),
{
    let ghost o = out@;
    out.append("movzbl %al, ");
    write_pseudo(out, names, dest);
    out.append("\n");
    proof {
        assert(out@ =~= o + asm_text(names_view(names@), AsmAst::MovAl(dest)));
    }
}

fn write_unary(out: &mut String, names: &Vec<String>, operator: UnaryOperator, size: i32, dest: Pseudoregister)
    ensures
        final(out)@ == old(out)@ + asm_text(names_view(names@), AsmAst::Unary { operator, size, dest }),
{
    let ghost o = out@;
    if operator == UnaryOperator::LogicalNot {
        out.append("xorl $1, ");
        write_pseudo(out, names, dest);
    } else if operator != UnaryOperator::UnaryAdd {
        out.append(unary_str(operator));
        out.append(suffix_str(size));
        out.append(" ");
        write_pseudo(out, names, dest);
        out.append("\n");
    }
    proof {
        assert(out@ =~= o + asm_text(names_view(names@), AsmAst::Unary { operator, size, dest }));
    }
}

#[verifier::rlimit(30)]
fn write_binary(out: &mut String, names: &Vec<String>, operator: BinaryOperator, size: i32, src: Operand, dest: Pseudoregister)
    ensures
        final(out)@ == old(out)@ + asm_text(names_view(names@), AsmAst::Binary { operator, size, src, dest }),
{
    let ghost o = out@;
    let named = match operator {
        BinaryOperator::Addition | BinaryOperator::Subtraction | BinaryOperator::BitwiseXor
        | BinaryOperator::BitwiseAnd | BinaryOperator::BitwiseOr | BinaryOperator::Multiply
        | BinaryOperator::BitwiseShiftLeft | BinaryOperator::BitwiseShiftRight => true,
        _ => false,
    };
    if named {
        if src.is_immediate() && size == 8 {
            out.append("movabsq ");
            write_operand(out, names, src);
            out.append(", %r10\n");
            out.append(binary_str(operator));
            out.append(suffix_str(size));
            out.append(" %r10, ");
        } else {
            out.append(binary_str(operator));
            out.append(suffix_str(size));
            out.append(" ");
            write_operand(out, names, src);
            out.append(", ");
        }
        write_pseudo(out, names, dest);
        out.append("\n");
    }
    proof {
        assert(out@ =~= o + asm_text(names_view(names@), AsmAst::Binary { operator, size, src, dest }));
    }
}

fn write_cmp(out: &mut String, names: &Vec<String>, size: i32, left: Operand, right: Operand)
    ensures
        final(out)@ == old(out)@ + asm_text(names_view(names@), AsmAst::Cmp { size, left, right }),
{
    let ghost o = out@;
    out.append("cmp");
    out.append(suffix_str(size));
    out.append(" ");
    write_operand(out, names, left);
    out.append(", ");
    write_operand(out, names, right);
    out.append("\n");
    proof {
        assert(out@ =~= o + asm_text(names_view(names@), AsmAst::Cmp { size, left, right }));
    }
}

fn write_idiv(out: &mut String, names: &Vec<String>, size: i32, operand: Pseudoregister)
    ensures
        final(out)@ == old(out)@ + asm_text(names_view(names@), AsmAst::Idiv { size, operand }),
{
    let ghost o = out@;
    out.append("idiv");
    out.append(suffix_str(size));
    out.append(" ");
    write_pseudo(out, names, operand);
    out.append("\n");
    proof {
        assert(out@ =~= o + asm_text(names_view(names@), AsmAst::Idiv { size, operand }));
    }
}

fn write_div(out: &mut String, names: &Vec<String>, size: i32, operand: Operand)
    ensures
        final(out)@ == old(out)@ + asm_text(names_view(names@), AsmAst::Div { size, operand }),
{
    let ghost o = out@;
    out.append("div");
    out.append(suffix_str(size));
    out.append(" ");
    write_operand(out, names, operand);
    out.append("\n");
    proof {
        assert(out@ =~= o + asm_text(names_view(names@), AsmAst::Div { size, operand }));
    }
}

fn write_cdq(out: &mut String, names: &Vec<String>, size: i32)
    ensures
        final(out)@ == old(out)@ + asm_text(names_view(names@), AsmAst::Cdq { size }),
{
    let ghost o = out@;
    if size == 4 {
        out.append("cdq\n");
    } else {
        out.append("cqo\n");
    }
    proof {
        assert(out@ =~= o + asm_text(names_view(names@), AsmAst::Cdq { size }));
    }
}

fn write_jmp(out: &mut String, names: &Vec<String>, l: Label)
    ensures
        final(out)@ == old(out)@ + asm_text(names_view(names@), AsmAst::Jmp(l)),
{
    let ghost o = out@;
    out.append("jmp ");
    write_label(out, names, l);
    out.append("\n");
    proof {
        assert(out@ =~= o + asm_text(names_view(names@), AsmAst::Jmp(l)));
    }
}

fn write_jmpcc(out: &mut String, names: &Vec<String>, condition: CondCode, label: Label)
    ensures
        final(out)@ == old(out)@ + asm_text(names_view(names@), AsmAst::JmpCC { condition, label }),
{
    let ghost o = out@;
    out.append("j");
    out.append(cond_str(condition));
    out.append(" ");
    write_label(out, names, label);
    out.append("\n");
    proof {
        assert(out@ =~= o + asm_text(names_view(names@), AsmAst::JmpCC { condition, label }));
    }
}

fn write_setcc(out: &mut String, names: &Vec<String>, c: CondCode)
    ensures
        final(out)@ == old(out)@ + asm_text(names_view(names@), AsmAst::SetCC(c)),
{
    let ghost o = out@;
    out.append("set");
    out.append(cond_str(c));
    out.append(" %al\n");
    proof {
        assert(out@ =~= o + asm_text(names_view(names@), AsmAst::SetCC(c)));
    }
}

fn write_label_line(out: &mut String, names: &Vec<String>, l: Label)
    ensures
        final(out)@ == old(out)@ + asm_text(names_view(names@), AsmAst::Label(l)),
{
    let ghost o = out@;
    write_label(out, names, l);
    out.append(":\n");
    proof {
        assert(out@ =~= o + asm_text(names_view(names@), AsmAst::Label(l)));
    }
}

fn write_push(out: &mut String, names: &Vec<String>, op: Operand)
    ensures
        final(out)@ == old(out)@ + asm_text(names_view(names@), AsmAst::Push(op)),
{
    let ghost o = out@;
    out.append("pushq ");
    write_operand(out, names, op);
    out.append("\n");
    proof {
        assert(out@ =~= o + asm_text(names_view(names@), AsmAst::Push(op)));
    }
}

fn write_call(out: &mut String, names: &Vec<String>, n: Name)
    ensures
        final(out)@ == old(out)@ + asm_text(names_view(names@), AsmAst::Call(n)),
{
    let ghost o = out@;
    out.append("call ");
    write_name(out, names, n);
    out.append("\n");
    proof {
        assert(out@ =~= o + asm_text(names_view(names@), AsmAst::Call(n)));
    }
}

fn write_ret(out: &mut String, names: &Vec<String>)
    ensures
        final(out)@ == old(out)@ + asm_text(names_view(names@), AsmAst::Ret),
{
    let ghost o = out@;
    out.append("movq %rbp, %rsp\npopq %rbp\nret\n");
    proof {
        assert(out@ =~= o + asm_text(names_view(names@), AsmAst::Ret));
    }
}

fn write_testl(out: &mut String, names: &Vec<String>, r: Pseudoregister)
    ensures
        final(out)@ == old(out)@ + asm_text(names_view(names@), AsmAst::Testl(r)),
{
    let ghost o = out@;
    out.append("testl ");
    write_pseudo(out, names, r);
    out.append(", ");
    write_pseudo(out, names, r);
    out.append("\n");
    proof {
        assert(out@ =~= o + asm_text(names_view(names@), AsmAst::Testl(r)));
    }
}

impl AsmAst {
    /// Appends the text of this instruction or directive.
    pub fn make_assembly(&self, out: &mut String, names: &Vec<String>)
        ensures
            final(out)@ == old(out)@ + asm_text(names_view(names@), *self),
    {
        match *self {
            AsmAst::Function { name, global } => write_function(out, names, name, global),
            AsmAst::Static { size, name, global, init } => write_static(out, names, size, name, global, init),
            AsmAst::Mov { size, src, dest } => write_mov(out, names, size, src, dest),
            AsmAst::Movsx { src, dest } => write_movsx(out, names, src, dest),
            AsmAst::MovZeroExtend { src, dest } => write_movzbl(out, names, src, dest),
            AsmAst::MovAl(dest) => write_moval(out, names, dest),
            AsmAst::Unary { operator, size, dest } => write_unary(out, names, operator, size, dest),
            AsmAst::Binary { operator, size, src, dest } => write_binary(out, names, operator, size, src, dest),
            AsmAst::Cmp { size, left, right } => write_cmp(out, names, size, left, right),
            AsmAst::Idiv { size, operand } => write_idiv(out, names, size, operand),
            AsmAst::Div { size, operand } => write_div(out, names, size, operand),
            AsmAst::Cdq { size } => write_cdq(out, names, size),
            AsmAst::Jmp(l) => write_jmp(out, names, l),
            AsmAst::JmpCC { condition, label } => write_jmpcc(out, names, condition, label),
            AsmAst::SetCC(c) => write_setcc(out, names, c),
            AsmAst::Label(l) => write_label_line(out, names, l),
            AsmAst::Push(op) => write_push(out, names, op),
            AsmAst::Call(n) => write_call(out, names, n),
            AsmAst::Ret => write_ret(out, names),
            AsmAst::Testl(r) => write_testl(out, names, r),
        }
    }
}

/// The text of a program: each instruction on a fresh line.
pub fn write_program(instructions: &Vec<AsmAst>, names: &Vec<String>) -> (out: String)
    ensures
        out@ == program_text(names_view(names@), instructions@),
{
    let mut out = String::new();
    let mut i: usize = 0;
    while i < instructions.len()
        invariant
            0 <= i <= instructions.len(),
            out@ == program_text(names_view(names@), instructions@.take(i as int)),
        decreases instructions.len() - i,
    {
        let ghost o = out@;
        proof {
            let t = instructions@.take(i + 1);
            assert(t.drop_last() =~= instructions@.take(i as int));
            assert(t.last() == instructions@[i as int]);
        }
        out.append("\n");
        instructions[i].make_assembly(&mut out, names);
        proof {
            assert(out@ =~= program_text(names_view(names@), instructions@.take(i + 1)));
        }
        i += 1;
    }
    proof {
        assert(instructions@.take(i as int) =~= instructions@);
    }
    out
}

} // verus!
