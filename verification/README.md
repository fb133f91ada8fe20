# compiler

A compiler for a subset of C (`int`, `long`, `unsigned`, `static`/`extern`,
functions, blocks, loops, conditionals, casts) to x86-64 assembly in AT&T
syntax, written in Verus. Every stage is an executable function proved to
compute a functional model of that stage:

| module          | stage                                                        |
|-----------------|--------------------------------------------------------------|
| `lexer`         | source text to tokens and a table of names                   |
| `parser`        | tokens to an abstract syntax tree (precedence climbing)      |
| `program`       | file-scope declarations; the driver of the stages below      |
| `resolve`       | renaming of variables by scope, loop labels                  |
| `typecheck`     | types of expressions, implicit conversions made explicit     |
| `tac_generator` | three-address code                                           |
| `asm_ast`       | instruction selection and the fix-up of memory operands      |
| `asm_text`      | the assembly text                                            |
| `compiler`      | `compile`: the whole pipeline                                |

Beside the contracts, the modules prove laws of the stages: the token stream
ends in `EOF` and names are interned once; numbers printed in the assembly lex
back to themselves; parsed assignments and increments apply to lvalues; the
variables of a block go out of scope at its end; every `break` and
`continue` names its innermost loop, and the parser gives every loop a label
of its own;
type checking yields well-typed code; code generation only appends, keeps every
temporary below the final frame offset, and jumps
only to labels the same function places, and the assembly of a whole program
jumps only to labels it defines; no
instruction moves from memory to memory after the fix-up, and the rewriting
keeps the effect of each instruction on every place but the scratch register.

`app/main.rs` is the command-line driver: it reads a `.c` file and writes the
assembly next to it with the extension `.asm`.
