# kscript

The front end and memory of a small scripting language, verified with Verus.

- `src/lang/lexer.rs`, `src/lang/token.rs`: the lexer, from text to lines of tokens.
- `src/lang/builder/`: the parser of statements, the reordering of operators by
  precedence, and the compiler to stack-machine commands.
- `src/ast/`: an older parser, from text to a flat list of nodes.
- `src/lang/memory.rs`: reference-counted storage of strings and functions.
- `src/lang/data_type.rs`, `src/lang/access.rs`: the values of the language and
  reading and writing the items of strings and arrays.
- `src/lang/builder/command.rs`: the values held in registers, their casts and
  arithmetic; `src/lang/numeral.rs`: integers written as decimal text and read back.
- `src/kscript/`: a parser of single characters into tokens, its logger and controller.
- `src/lang/kargs.rs`: the meaning of the command line.
- `app/`: the command line, files, printing, and float arithmetic.

Each parser is stated as a specification over the characters of the text, and the
executable code is proved to agree with it.

## What is not here, and why

Some parts of kscript rest on modules that its sources never define, so they
cannot be written from what there is:

- `token_to_data_type`, `set_type_registers`, `set_operator_registers`,
  `create_commands` and the `build`/`check` methods of the register builders need a
  token type with `Ref`, `Dict`, `Math` and other variants, a `TokenContainer`, and
  builders for doubled commands and exponents; none of them exists.
- `create_joiners` and `join_tokens` build node kinds the syntax tree lacks and use
  a symbol table with `getsert`, which exists nowhere; they also keep tables of
  function pointers.
- `load_commands` and `add_commands` of the older compiler use a symbol table with
  `register_function`, `get_sub_table`, `get_function_index` and `get_var_index`,
  which exists nowhere.
- `ParserRunner::run` and `Kscript::run` need an operator parser and a token
  container that do not exist; the virtual machine that runs commands does not
  exist either, so `app/` stops after lexing.

`src/lang/token.rs` is rebuilt from how the lexer uses its tokens: kscript uses the
type but has no file that defines it.

Strings and arrays are held by value here. In kscript they are shared by reference
through `RefCell`, which Verus does not support.
