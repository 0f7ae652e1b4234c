# cloudy_af

The firmware-editor core of a configuration tool for vape mods that run the
ArcticFox firmware, written in Verus: every function in `src/` carries a
contract that Verus proves, except seven small wrappers (marked
`#[verifier::external_body]`) around calls into std and quick-xml: the
clock, building and lowercasing strings, UTF-8 decoding, and reading XML
events. Their contracts are trusted, and each says in its doc comment what
it claims.

- `src/firmware/`: firmware images and their documents.
  - `encryption.rs`: the Joyetech, ArcticFox (two variants) and VandalProof
    schemes and the marker-based detection of which one an image uses;
    `vandalproof.rs` holds the AES-128-CBC cipher behind VandalProof.
  - `definition.rs`, `patch.rs`, `resources/respack.rs`: the XML documents
    (firmware definitions, `.patch` files, `.respack` resource packs), read
    through `xml.rs`.
  - `loader.rs`: decrypting an image and finding its definition.
  - `resources.rs`: image and string tables inside an image.
  - `flasher.rs`: packets, dataflash frames and the firmware stream of the
    HID bootloader protocol, and the flashing flows (guarded flash, LDROM
    switch, product-ID repair, recovery) as step functions from state and
    outcome to next state and action; `app/device.rs` performs the actions.
  - `monitoring.rs`, `stock.rs`, `state.rs`: monitoring reports, the stock
    firmware library and the set of open images.
- `src/emu/`: a Thumb/Thumb-2 emulator (decoder, core, bus, harness) used to
  render animation frames of a patched image.
- `src/anim/`: a small Thumb assembler and the animation effects it builds.
- `app/`: the desktop side: files, JSON documents, the HID device and shared
  session state.
- `tests/`: the test suite.

Laws of the library (decryption undoes encryption for each scheme, a rollback
undoes a patch, decoded pixels read back what was written, and more) are
public proof functions next to the code they speak of.
