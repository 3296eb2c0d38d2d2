# cryptpilot

cryptpilot sets up encrypted (LUKS2) volumes and protects whole disks, and
computes the reference values with which a remote verifier checks how such a
disk booted. This crate holds its logic as a library verified with Verus, and
a thin program around it.

## Layout

- `src/` — the verified library, one module per concern:
  - `text` — character-sequence primitives with the meaning of Rust's `str`
    methods (lines, trimming, splitting, decimal numbers);
  - `config`, `provider` — volume configurations, their ordering and lookup,
    crypttab generation, key providers and what their services answer;
  - `luks2`, `shell`, `block`, `disk` — the `cryptsetup` and `mkfs`
    invocations, device nodes, the output of `lsblk`, `blkid`, `file`, and
    the step-by-step searches for a disk's boot partition and for a free
    network block device;
  - `grub`, `components`, `reference`, `metadata`, `measure` — GRUB variables,
    menu and loader entries, kernel command lines, boot reference values
    (digests and Authenticode digests), root-hash metadata and runtime
    measurement events;
  - `blktrace` — block trace records, the pages they touch, and the name the
    kernel gives a traced device;
  - `supplier`, `source`, `cli`, `cmd`, `template` — the key supplier, the
    configuration sources, the command lines, and the configuration templates.
- `tests/` — tests of the library on concrete values.
- `app/` — the program: argument parsing, configuration files, and running
  the commands that the library prepares.

`src/` states its contracts in `requires`/`ensures` and proves them; the few
calls into other crates (digests, hex, base64, Authenticode, ordered maps and
sets, randomness, the file system) go through small trusted functions whose
contracts say what those crates document.
