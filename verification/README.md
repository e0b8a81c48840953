# moonblokz-configuration

Chain configuration for MoonBlokz, verified with Verus: the parameter registry, the code-baked
defaults, the resolution model, content acceptance, the commitment state, and the encoder that
turns a written configuration into signed content.

A MoonBlokz chain must run with parameters that are identical on every node. Where these values
diverge, validation outcomes diverge.

## Layout

The library, under `src/`:

| module | what it holds |
| --- | --- |
| `parameter`, `registry` | identifiers, widths, arities, value forms and defaults |
| `framing` | a chain-config payload as the envelope walk hands it over |
| `acceptance` | registry conformance, the structural bounds, the fee range |
| `resolution` | the accessor surface: override, default, fallback literal |
| `configuration` | the module: tentative and durable content, change notification |
| `laws` | what holds of the configuration as a whole |
| `text`, `numbers`, `bytes`, `hex` | characters, numbers, little-endian values, hexadecimal |
| `names` | parameter names |
| `diagnostics`, `literals`, `programs`, `statements` | reading a written configuration |
| `encoder` | parsing, sealing and accepting a written configuration |
| `encoding_laws` | what holds of every written configuration |

The program, under `app/`: `config-encoder`, with the envelope walk, the virtual machine, the
assembler and the signature scheme that the library is handed.

```
config-encoder [INPUT.cfg] --key KEY.hex [-o OUTPUT.bin]
```

## What is proved

- Every accessor returns a value. A program that traps, runs out of fuel or computes a value
  that may not stand is a tier that failed, never an error that a reader sees.
- An override runs on the budget that it is given, and a default that is a program on a fresh
  one. A nested read draws on the budget of the evaluation that asked.
- Unknown keys are rejected, not skipped, and the rejection carries the key byte.
- Acceptance runs no program, and everything that accepted content declares is within bounds.
- The execution budget is downward-only.
- Two builds of one block format that hold the same content read the same values.
- A durable configuration is set once. A refusal changes nothing. Promotion keeps the bytes.
- What encodes is what the network accepts, and holds what was written, in order, as long as
  the sealing frames what it is handed. A diagnostic names its line.

Programs run outside the library, so every statement about a program holds for whatever the
machine reports of it. The one item that is believed without proof is the contract of
`String::push`, in `text`.
