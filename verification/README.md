# cpsi

Package metadata for a package manager: versions (`major.minor[.patch]`),
processor architectures and dependency constraints such as `glibc>=2.42`.

`src/` is a Verus-verified library. Each parser and renderer has a contract
over a mathematical model of the text it reads or writes, and the laws that
tie them together (written text reads back, white space around a dependency
does not matter, the version order is a total order) are proof functions.

`app/` holds what Verus does not take: serde and thiserror copies of the
library's types, with conversions both ways, the host architecture lookup,
and the helpers that print an error and end the process.
