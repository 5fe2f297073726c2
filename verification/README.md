# xee

The static context of XSLT stylesheet compilation and the unary arithmetic
operators of XPath, written in Verus with their contracts proved.

- `src/context.rs`: the `Context` in which each part of a stylesheet is
  compiled: in-scope namespaces, known variables, the standard attributes in
  effect (XSLT 3.0 section 3.5), the excluded namespaces, and the namespaces
  that a literal result element declares in the result (section 11.1.3).
  Its model is `ContextView`; each method states its result over it, and the
  `law_` proof functions state what holds across calls.
- `src/op_unary.rs`: unary `+` and `-` on atomic values, with the rule that
  an `xs:untypedAtomic` operand is cast to `xs:double`. The library decides
  whether the operand's string is a valid `xs:double` and what `INF`, `-INF`
  and `NaN` give (`src/lexical.rs`, where surrounding whitespace is proved
  not to matter); the bits of a finite number come from the caller.
- `src/ast.rs`, `src/atomic.rs`, `src/decimal.rs`, `src/integer.rs`: the
  values these work on.
- `src/collections.rs`: the `ahash` maps and sets of strings, with the
  trusted contracts of the few methods used; `src/strings.rs`: the order of
  strings and a proved sort.
- `app/`: reading namespaces out of an `xot` tree, `rust_decimal` and
  `ibig` conversions, and parsing the finite number of an untyped operand.
