# megacore

The core of a MEGA downloader, written in Verus: the logic is proved
against its contracts, and a thin command-line program runs it.

## Layout

- `src/` — the verified library.
  - `crypto/` — big-endian word conversion (`words`), URL-safe Base64
    (`base64url`), AES-128 in CTR, CBC and ECB modes (`aes_modes`), PBKDF2 key
    derivation (`kdf`), file attribute decryption (`attributes`), the file
    CBC-MAC (`mac`), RSA arithmetic on big-endian numbers (`rsa_raw`), and
    whole-file decryption.
  - `core_types` — downloads, file metadata, byte ranges.
  - `downloader/` — the download queue (`manager`), MEGA link parsing
    (`links`), splitting a file into ranges and the retry policy (`chunks`),
    the checks after a transfer (`assembler`), and the `Downloader` state
    machine that decides each step of a download.
  - `mega_api/` — the API session and what the library makes of API replies.
  - `text` — characters, decimal numbers and string search.
- `app/` — the program: HTTP, files, async tasks and logging around the
  library's decisions.
- `tests/` — tests of the library.

The block cipher, Base64 coding, PBKDF2, big-integer arithmetic and random
numbers come from the `aes`, `ctr`, `block-modes`, `base64`, `pbkdf2`, `rsa`
and `rand` crates; the
library states what it assumes of each call next to the call.
