# Kate

A Java virtual machine core, verified with Verus.

- `src/` is the verified library: the class file reader (`reader`, `pool`,
  `attributes`, `parser`), the bytecode decoders (`opcode`, `instruction`), the value
  model (`numeric`, `value`), the instruction semantics (`stack`, `arith`, `branch`,
  `array`, `fields`, `constants`), the heap and class table (`heap`, `classes`,
  `statics`), object layouts (`layout`), the machine (`machine`), its boot sequence
  (`boot`), its native methods (`natives`, `vmnatives`) and the properties that
  relate several operations (`laws`).
- `app/` is the command line program: it finds class files on the class path,
  performs the boot actions the machine asks for, and answers its requests for
  classes, floating point arithmetic and natives that do input and output.
- `tests/` runs the library on concrete values, including small class files built
  byte by byte.
