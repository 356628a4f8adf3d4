# rgwbasic

A GW-BASIC interpreter whose front half is verified with Verus.

`src/` is the verified library:

- `text`, `lexer`, `tokens`: characters to tokens, the keyword table.
- `ast`, `statements`: the syntax tree and its structure text.
- `parse_model`, `parser`: what each parsing function yields, as spec
  functions over the token stream's state, and the parser proved to match.
- `program`: program lines, real lines and the jump table, the control
  state (return stack, `WHILE`/`FOR` pairing) and the step decisions of the
  evaluation loop.
- `operations`, `print_using`, `console`: integer operators, `PRINT USING`
  layout, cursor column bookkeeping.
- `extractor`: decoding of tokenized program files and the protection
  cipher.

`app/` holds the interactive interpreter: reading lines, evaluating
expressions whose values may be floating-point numbers, and printing.
