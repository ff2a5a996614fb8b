# Firaw SSH core

The verified core of Firaw SSH, an SSH and SFTP desktop client: connection
profiles, server identity, authentication decisions, proxies and jump hosts,
tunnels, resumable transfers, the external editor, encrypted backups and the
local automation bridge. Verus verifies every function in `src/`; the laws
the library keeps are public proof functions. Local paths are read by the
path rules of the platform the application runs on, which it passes in.

- `src/` — the library, written for Verus. Calls into `sha2`, `argon2`,
  `aes-gcm`, `base64` and `uuid` go through small trusted wrappers whose
  contracts state what those crates document.
- `tests/` — executable tests of the library.
- `app/` — the desktop application around the library: windows and dialogs,
  sockets, SSH sessions (`ssh2`), the system vault (`keyring`), the bridge's
  local socket (`interprocess`), files and threads.
