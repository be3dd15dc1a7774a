# helios

A terminal API client (collections of HTTP requests, environments, history, a secret vault,
imports from Postman, HAR and OpenAPI, `.helios.yml` request files) whose logic is a library
verified with Verus.

- `src/` is the library. Every public function carries a `requires`/`ensures` contract over
  mathematical models (`Seq`, `Map`, views of the data types); the laws of the library are
  public proof functions named `law_*`. Calls into outside crates (serde_json, aes-gcm,
  base64, pbkdf2, uuid, chrono, rand, std) go through small wrappers whose contracts are
  trusted; each says in its doc comment what it claims.
- `tests/` runs the library on concrete values.
- `app/` is the program around it: command line (clap), terminal (crossterm, ratatui),
  network (reqwest), files and the keychain. It hands the library plain values and carries out
  what the library decides.

Verify with Verus on `src/lib.rs`; the tests and the program build with Cargo.
