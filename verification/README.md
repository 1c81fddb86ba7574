# emu86

An Intel 8086 CPU core whose behaviour is stated in Verus contracts and
proved: register file with byte views, flags with static bits, one mebibyte
of wrapping segmented memory, 16-bit ADD/SUB with the six status flags,
ModRM operand decoding, and fetch/decode/execute of the supported
instructions (`MOV reg, imm`, `ADD/SUB AX, imm16`, `ADD/SUB r/m16, imm`,
`MOV` between r/m and reg, `HLT`).

- `src/` — the verified library (`reg`, `flags`, `mem`, `alu`, `modrm`, `cpu`).
- `tests/` — unit tests and hand-assembled program tests.
- `app/` — the wasm-bindgen browser adapter around the core.
