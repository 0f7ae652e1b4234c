//! Loading a firmware image: undo its encryption and find the definition
//! whose marker it holds.

use crate::firmware::definition::{copy_bytes, same_definition, FirmwareDefinition};
use crate::firmware::encryption::{decrypt, detect, EncryptionType};
use crate::firmware::error::FirmwareError;
use vstd::prelude::*;

verus! {

/// A loaded firmware image with its matched definition and detected encryption.
#[derive(Debug)]
pub struct FirmwareImage {
    pub definition: FirmwareDefinition,
    pub encryption: EncryptionType,
    pub bytes: Vec<u8>,
}

/// `m` occurs in `d` starting at position `i`.
pub open spec fn occurs_at(d: Seq<u8>, m: Seq<u8>, i: int) -> bool {
    0 <= i && i + m.len() <= d.len() && d.subrange(i, i + m.len()) == m
}

/// `m` occurs somewhere in `d` as a run of consecutive bytes.
pub open spec fn occurs(d: Seq<u8>, m: Seq<u8>) -> bool {
    exists|i: int| occurs_at(d, m, i)
}

/// Index of the first definition, from `j` on, whose marker occurs in `d`.
pub open spec fn first_definition(d: Seq<u8>, defs: Seq<FirmwareDefinition>, j: nat) -> Option<nat>
    decreases defs.len() - j,
{
    if j >= defs.len() {
        None
    } else if occurs(d, defs[j as int].marker@) {
        Some(j)
    } else {
        first_definition(d, defs, j + 1)
    }
}

/// A definition with an empty marker is only ever reached after an earlier
/// one has matched `d`: the scan never looks for an empty marker.
pub open spec fn markers_nonempty_until_match(d: Seq<u8>, defs: Seq<FirmwareDefinition>) -> bool {
    forall|j: int|
        0 <= j < defs.len() && #[trigger] defs[j].marker@.len() == 0 ==> exists|k: int|
            0 <= k < j && occurs(d, #[trigger] defs[k].marker@)
}

/// What an image of `bytes` with `encryption`, matched to `def`, holds.
pub open spec fn image_of(
    img: FirmwareImage,
    bytes: Seq<u8>,
    encryption: EncryptionType,
    def: FirmwareDefinition,
) -> bool {
    &&& same_definition(img.definition, def)
    &&& img.encryption == encryption
    &&& img.bytes@ == bytes
}

/// Whether the definitions can be scanned over `bytes`: no definition with
/// an empty marker is reached before one matches.
pub fn markers_ok(bytes: &[u8], definitions: &[FirmwareDefinition]) -> (r: bool)
    ensures
        r == markers_nonempty_until_match(bytes@, definitions@),
{
    let mut j: usize = 0;
    while j < definitions.len()
        invariant
            0 <= j <= definitions@.len(),
            forall|k: int| 0 <= k < j ==> #[trigger] definitions@[k].marker@.len() > 0 && !occurs(bytes@, definitions@[k].marker@),
        decreases definitions@.len() - j,
    {
        if definitions[j].marker.len() == 0 {
            return false;
        }
        if contains_window(bytes, definitions[j].marker.as_slice()) {
            proof {
                assert forall|i: int|
                    0 <= i < definitions@.len() && #[trigger] definitions@[i].marker@.len() == 0 implies exists|k: int|
                    0 <= k < i && occurs(bytes@, #[trigger] definitions@[k].marker@) by {
                    assert(i > j);
                    assert(occurs(bytes@, definitions@[j as int].marker@));
                }
            }
            return true;
        }
        j = j + 1;
    }
    true
}

/// Whether `m` occurs in `d`.
pub fn contains_window(d: &[u8], m: &[u8]) -> (r: bool)
    ensures
        r == occurs(d@, m@),
{
    if m.len() > d.len() {
        assert forall|i: int| !occurs_at(d@, m@, i) by {}
        return false;
    }
    if m.len() == 0 {
        assert(d@.subrange(0, 0) =~= m@);
        assert(occurs_at(d@, m@, 0));
        return true;
    }
    let n = d.len();
    let last = n - m.len();
    let mut i: usize = 0;
    while i <= last
        invariant
            0 < m@.len() <= d@.len(),
            n == d@.len(),
            last == d@.len() - m@.len(),
            0 <= i <= last + 1,
            forall|k: int| 0 <= k < i ==> !occurs_at(d@, m@, k),
        decreases last + 1 - i,
    {
        let mut j: usize = 0;
        let mut same = true;
        while j < m.len()
            invariant
                i <= last,
                n == d@.len(),
                0 < m@.len() <= d@.len(),
                last == d@.len() - m@.len(),
                0 <= j <= m@.len(),
                same == (forall|t: int| 0 <= t < j ==> d@[i + t] == m@[t]),
            decreases m@.len() - j,
        {
            if d[i + j] != m[j] {
                same = false;
            }
            j = j + 1;
        }
        if same {
            assert(d@.subrange(i as int, i + m@.len()) =~= m@);
            assert(occurs_at(d@, m@, i as int));
            return true;
        }
        assert(!occurs_at(d@, m@, i as int)) by {
            let t = choose|t: int| 0 <= t < m@.len() && d@[i + t] != m@[t];
            if occurs_at(d@, m@, i as int) {
                assert(d@.subrange(i as int, i + m@.len())[t] == d@[i + t]);
            }
        }
        i = i + 1;
    }
    assert forall|k: int| !occurs_at(d@, m@, k) by {
        if occurs_at(d@, m@, k) {
            assert(k <= last);
        }
    }
    false
}

/// The image of `bytes`, taken to be encrypted with `encryption`, matched to
/// the first definition whose marker it holds.
pub fn detect_definition(
    bytes: &[u8],
    encryption: EncryptionType,
    definitions: &[FirmwareDefinition],
) -> (r: Result<FirmwareImage, FirmwareError>)
    ensures
        match first_definition(bytes@, definitions@, 0) {
            Some(j) => r matches Ok(img) && image_of(img, bytes@, encryption, definitions@[j as int]),
            None => r matches Err(FirmwareError::DefinitionNotFound),
        },
{
    let mut j: usize = 0;
    while j < definitions.len()
        invariant
            0 <= j <= definitions@.len(),
            first_definition(bytes@, definitions@, 0) == first_definition(bytes@, definitions@, j as nat),
        decreases definitions@.len() - j,
    {
        let def = &definitions[j];
        if contains_window(bytes, def.marker.as_slice()) {
            return Ok(
                FirmwareImage {
                    definition: def.duplicate(),
                    encryption,
                    bytes: copy_bytes(bytes),
                },
            );
        }
        j = j + 1;
    }
    Err(FirmwareError::DefinitionNotFound)
}

/// Detect the definition of an image already read into memory. Plaintext is
/// tried first, so that decrypted dumps are not mangled by the decryption
/// heuristics; otherwise the image is decrypted and matched again.
pub fn load_firmware_from_bytes(
    bytes: &[u8],
    definitions: &[FirmwareDefinition],
) -> (r: Result<FirmwareImage, FirmwareError>)
    requires
        markers_nonempty_until_match(bytes@, definitions@),
    ensures
        match first_definition(bytes@, definitions@, 0) {
            Some(j) => r matches Ok(img) && image_of(
                img,
                bytes@,
                EncryptionType::Plaintext,
                definitions@[j as int],
            ),
            None => match detect(bytes@) {
                None => r matches Err(FirmwareError::UnsupportedEncryption(_)),
                Some((p, e)) => match first_definition(p, definitions@, 0) {
                    Some(j) => r matches Ok(img) && image_of(img, p, e, definitions@[j as int]),
                    None => r matches Err(FirmwareError::DefinitionNotFound),
                },
            },
        },
{
    match detect_definition(bytes, EncryptionType::Plaintext, definitions) {
        Ok(image) => {
            return Ok(image);
        },
        Err(_) => {},
    }
    match decrypt(bytes) {
        Ok((plain, encryption)) => detect_definition(plain.as_slice(), encryption, definitions),
        Err(e) => Err(e),
    }
}

} // verus!
