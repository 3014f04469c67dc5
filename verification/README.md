# nexora

The verified core of the Nexora platform: authentication (password hashing,
tokens, TOTP and backup codes, WebAuthn, OIDC and SAML sign-in), the
gateway's middleware (bearer tokens, rate limiting, routing), billing,
clustering, load-test bookkeeping and the platform kernel (modules, plugins,
service registry, permissions, configuration, secrets, health and the event
bus on which every lifecycle change is published).

Layout:

- `src/` is the library, written in Verus: each public function states its
  result in `requires`/`ensures`, and the laws that relate several functions
  are public proof functions. Calls into outside crates (argon2, ed25519,
  HMAC, SHA-2, base64, hex, time, uuid, rand) go through small trusted
  wrappers whose contracts say what those crates document.
- `tests/` runs the library on concrete values.
- `app/` is ordinary Rust around the library: serde wire formats, JSON
  dispatchers, floating-point load-test reports and benchmark printing.
