# smtp-types

Misuse-resistant data structures for SMTP (RFC 5321), written in Verus: every
validation rule, constructor and formatter has a contract, and Verus proves
the code against it.

## Layout

- `src/` — the verified library.
  - `core_types.rs`: `Domain`, `LocalPart`, `Atom`, `Text` (validated strings
    whose type invariant is their validation rule), `Vec1`, `Parameter`,
    `Mailbox`, `EhloDomain`, `AddressLiteral`, `ReversePath`, `ForwardPath`.
  - `response.rs`: `ReplyCode`, `EnhancedStatusCode`, `Greeting`, `Response`,
    `Capability`, `EhloResponse`.
  - `command.rs`: `Command` and its constructors.
  - `auth.rs`: `AuthMechanism`, `AuthenticateData`.
  - `state.rs`: the session `State`.
  - `secret.rs`: `Secret`.
  - `utils.rs`, `utils/indicators.rs`: character classes, quoting and the
    printable form of byte strings.
  - `ascii.rs`: UTF-8, ASCII case folding and decimal numerals.
- `tests/` — tests of the library.
- `app/` — what the library leaves out: `std::net` conversions, `Display`
  through a wrapper, serde copies of the types, and generators for fuzzing.
