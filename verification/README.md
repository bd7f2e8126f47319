# fints

The logic of a FinTS 3.0 (formerly HBCI) banking client for German banks, written in Verus: every
function of the library states what it returns, and Verus proves it.

- `src/` is the library. It does no input and output: where a step needs the network, the user or
  the disk, one function says what to do and another says what the outcome means.
  - `banks`, `selection`: the bank registry, and how a command picks its bank.
  - `flow`, `ing`, `polling`: the interactive TAN flow, dialogs without a TAN, decoupled TANs.
  - `transport`, `encoding`: messages in HTTP bodies and Base64 text.
  - `session`, `token`: saved sessions, their places and order, resume tokens.
  - `accounts`, `course`, `commands`: what the commands decide between their inputs and outputs.
  - `iban`, `amount`, `dates`, `text`: IBANs, decimal amounts, calendar dates, text.
  - `report`, `overview`, `bank_report`: what the client prints.
  - `input`: the forms in which a raw message is handed to the decoder.
  - `types`, `error`: values and errors.
- `app/` is the command-line client around it: arguments, prompts, files, HTTP, JSON and CSV. Its
  `Protocol` trait is where an implementation of the message syntax goes; as it stands the client
  has none, and its table of known banks is empty.
- `tests/` runs the library with the crates that it calls.

The functions marked `external_body`, the one `assume_specification` and the functions without a
body are what is trusted: they stand for calls into `base64`, `flate2`, `rust_decimal`, `chrono`,
`rand` and the standard library, and say what is claimed of them.
