//! Firmware patches: byte modifications applied to an image with a rollback
//! log, conflict detection, and rollback of competing animation patches.

use crate::firmware::error::FirmwareError;
use crate::firmware::text::{
    chars_of, find_char, find_char_exec, lemma_find_char_bounds, parse_unsigned, parse_unsigned_exec, push_all,
    push_text, string_from_chars, trim, trimmed,
};
use crate::firmware::xml::{
    bytes_eq, document_events, find_last, last_value, views, xml_events, xml_tokens, XmlAttrView,
    XmlEvent, XmlEventView,
};
use vstd::string::*;
use std::collections::HashMap;
use vstd::prelude::*;

verus! {

broadcast use vstd::std_specs::hash::group_hash_axioms;

/// A single byte modification inside a patch.
#[derive(Debug, Clone, Copy, PartialEq, Eq, Structural)]
pub struct PatchModification {
    pub offset: usize,
    /// Byte the patch expects before writing; None = any.
    pub original: Option<u8>,
    pub patched: u8,
}

/// A firmware patch with metadata and a list of byte modifications.
#[derive(Debug, Clone)]
pub struct Patch {
    pub id: String,
    pub name: String,
    pub version: String,
    pub author: String,
    pub description: String,
    pub modifications: Vec<PatchModification>,
    pub applied: bool,
}

impl Default for Patch {
    fn default() -> (p: Self)
        ensures
            p.id@.len() == 0,
            p.name@.len() == 0,
            p.version@.len() == 0,
            p.author@.len() == 0,
            p.description@.len() == 0,
            p.modifications@.len() == 0,
            !p.applied,
    {
        Patch {
            id: String::new(),
            name: String::new(),
            version: String::new(),
            author: String::new(),
            description: String::new(),
            modifications: Vec::new(),
            applied: false,
        }
    }
}

/// `fw` grown with erased bytes (0xFF) so that `off` is inside it.
pub open spec fn grow(fw: Seq<u8>, off: usize) -> Seq<u8> {
    if off >= fw.len() {
        fw + Seq::new((off + 1 - fw.len()) as nat, |i: int| 0xFFu8)
    } else {
        fw
    }
}

/// Applying `mods[i..]` in order: each grows the image if needed, checks the
/// expected byte, records the byte it replaces (unless the log already has
/// one for that offset) and writes its byte. Stops at the first mismatch.
pub open spec fn apply_mods(fw: Seq<u8>, mods: Seq<PatchModification>, log: Map<usize, u8>, i: nat) -> (
    Result<(), FirmwareError>,
    Seq<u8>,
    Map<usize, u8>,
)
    decreases mods.len() - i,
{
    if i >= mods.len() {
        (Ok(()), fw, log)
    } else {
        let m = mods[i as int];
        let fw1 = grow(fw, m.offset);
        let cur = fw1[m.offset as int];
        if m.original is Some && m.original->0 != cur {
            (
                Err(FirmwareError::IncompatiblePatch {
                    offset: m.offset,
                    expected: m.original->0,
                    found: cur,
                }),
                fw1,
                log,
            )
        } else {
            apply_mods(
                fw1.update(m.offset as int, m.patched),
                mods,
                if log.contains_key(m.offset) { log } else { log.insert(m.offset, cur) },
                i + 1,
            )
        }
    }
}

/// Some modification in `mods[i..]` targets `off`.
pub open spec fn touches(mods: Seq<PatchModification>, i: int, off: usize) -> bool {
    exists|k: int| i <= k < mods.len() && #[trigger] mods[k].offset == off
}

/// Some modification in `mods[..i]` targets `off`.
pub open spec fn touches_before(mods: Seq<PatchModification>, i: int, off: usize) -> bool {
    exists|k: int| 0 <= k < i && #[trigger] mods[k].offset == off
}

/// The offsets a patch touches.
pub open spec fn mod_offsets(mods: Seq<PatchModification>) -> Set<usize> {
    Set::new(|off: usize| touches(mods, 0, off))
}

/// The image after rolling back `mods`: each touched offset that has a log
/// entry gets the logged byte back.
pub open spec fn restored(fw: Seq<u8>, mods: Seq<PatchModification>, log: Map<usize, u8>) -> Seq<u8> {
    Seq::new(
        fw.len(),
        |j: int|
            if 0 <= j && touches(mods, 0, j as usize) && log.contains_key(j as usize) {
                log[j as usize]
            } else {
                fw[j]
            },
    )
}

/// Apply a patch to a firmware image.
///
/// `rollback_log` records the original byte at each modified offset so the
/// patch can be rolled back later; an existing entry (from another patch) is
/// kept. Modifications past the image end grow it with erased bytes (0xFF).
pub fn apply_patch(
    firmware: &mut Vec<u8>,
    patch: &mut Patch,
    rollback_log: &mut HashMap<usize, u8>,
) -> (r: Result<(), FirmwareError>)
    requires
        forall|k: int|
            0 <= k < old(patch).modifications@.len() ==> #[trigger] old(
                patch,
            ).modifications@[k].offset < usize::MAX,
    ensures
        (r, final(firmware)@, final(rollback_log)@) == apply_mods(
            old(firmware)@,
            old(patch).modifications@,
            old(rollback_log)@,
            0,
        ),
        *final(patch) == (Patch { applied: r is Ok || old(patch).applied, ..*old(patch) }),
{
    let mut i: usize = 0;
    let n = patch.modifications.len();
    while i < n
        invariant
            n == patch.modifications@.len(),
            patch == old(patch),
            0 <= i <= n,
            forall|k: int|
                0 <= k < patch.modifications@.len() ==> #[trigger] patch.modifications@[k].offset
                    < usize::MAX,
            apply_mods(old(firmware)@, patch.modifications@, old(rollback_log)@, 0) == apply_mods(
                firmware@,
                patch.modifications@,
                rollback_log@,
                i as nat,
            ),
        decreases n - i,
    {
        let m = patch.modifications[i];
        let ghost fw0 = firmware@;
        if m.offset >= firmware.len() {
            firmware.resize(m.offset + 1, 0xFF);
            assert(firmware@ =~= grow(fw0, m.offset));
        }
        let current = firmware[m.offset];
        match m.original {
            Some(expected) => {
                if current != expected {
                    return Err(
                        FirmwareError::IncompatiblePatch {
                            offset: m.offset,
                            expected,
                            found: current,
                        },
                    );
                }
            },
            None => {},
        }
        if !rollback_log.contains_key(&m.offset) {
            rollback_log.insert(m.offset, current);
        }
        firmware.set(m.offset, m.patched);
        i = i + 1;
    }
    patch.applied = true;
    Ok(())
}

/// Roll back a previously applied patch: restore the logged byte at every
/// offset it touches, then drop those log entries.
pub fn rollback_patch(
    firmware: &mut Vec<u8>,
    patch: &mut Patch,
    rollback_log: &mut HashMap<usize, u8>,
) -> (r: Result<(), FirmwareError>)
    requires
        forall|k: int|
            0 <= k < old(patch).modifications@.len() && old(rollback_log)@.contains_key(
                #[trigger] old(patch).modifications@[k].offset,
            ) ==> old(patch).modifications@[k].offset < old(firmware)@.len(),
    ensures
        r is Ok,
        final(firmware)@ == restored(old(firmware)@, old(patch).modifications@, old(rollback_log)@),
        final(rollback_log)@ == old(rollback_log)@.remove_keys(
            mod_offsets(old(patch).modifications@),
        ),
        *final(patch) == (Patch { applied: false, ..*old(patch) }),
{
    let n = patch.modifications.len();
    let ghost mods = patch.modifications@;
    let ghost log0 = rollback_log@;
    let flen = firmware.len();
    let mut i: usize = 0;
    while i < n
        invariant
            n == mods.len(),
            mods == patch.modifications@,
            patch == old(patch),
            rollback_log@ == log0,
            log0 == old(rollback_log)@,
            0 <= i <= n,
            firmware@.len() == old(firmware)@.len(),
            firmware@.len() == flen,
            forall|k: int|
                0 <= k < mods.len() && log0.contains_key(#[trigger] mods[k].offset)
                    ==> mods[k].offset < old(firmware)@.len(),
            forall|j: int|
                0 <= j < firmware@.len() ==> #[trigger] firmware@[j] == if touches_before(
                    mods,
                    i as int,
                    j as usize,
                ) && log0.contains_key(j as usize) {
                    log0[j as usize]
                } else {
                    old(firmware)@[j]
                },
        decreases n - i,
    {
        let off = patch.modifications[i].offset;
        let ghost fw_before = firmware@;
        match rollback_log.get(&off) {
            Some(original) => {
                let v = *original;
                assert(log0.contains_key(off) && log0[off] == v);
                firmware.set(off, v);
            },
            None => {
                assert(!log0.contains_key(off));
            },
        }
        assert forall|j: int| 0 <= j < firmware@.len() implies #[trigger] firmware@[j] == if touches_before(
            mods,
            i + 1,
            j as usize,
        ) && log0.contains_key(j as usize) {
            log0[j as usize]
        } else {
            old(firmware)@[j]
        } by {
            assert(fw_before[j] == if touches_before(mods, i as int, j as usize) && log0.contains_key(
                j as usize,
            ) {
                log0[j as usize]
            } else {
                old(firmware)@[j]
            });
            if j as usize == off {
                assert(mods[i as int].offset == j as usize);
            } else {
                if touches_before(mods, i + 1, j as usize) {
                    let k = choose|k: int| 0 <= k < i + 1 && #[trigger] mods[k].offset == j as usize;
                    assert(k != i);
                }
            }
        }
        i = i + 1;
    }
    assert forall|j: int| 0 <= j < firmware@.len() implies #[trigger] touches_before(mods, n as int, j as usize)
        == touches(mods, 0, j as usize) by {
        if touches(mods, 0, j as usize) {
            let k = choose|k: int| 0 <= k < mods.len() && #[trigger] mods[k].offset == j as usize;
            assert(touches_before(mods, n as int, j as usize));
        }
    }
    assert(firmware@ =~= restored(old(firmware)@, mods, log0));
    let mut i: usize = 0;
    while i < n
        invariant
            n == mods.len(),
            mods == patch.modifications@,
            patch == old(patch),
            0 <= i <= n,
            rollback_log@ == log0.remove_keys(
                Set::new(|off: usize| exists|k: int| 0 <= k < i && #[trigger] mods[k].offset == off),
            ),
        decreases n - i,
    {
        let off = patch.modifications[i].offset;
        rollback_log.remove(&off);
        assert(rollback_log@ =~= log0.remove_keys(
            Set::new(|o: usize| exists|k: int| 0 <= k < i + 1 && #[trigger] mods[k].offset == o),
        )) by {
            assert(mods[i as int].offset == off);
        }
        i = i + 1;
    }
    assert(Set::new(|o: usize| exists|k: int| 0 <= k < n && #[trigger] mods[k].offset == o)
        =~= mod_offsets(mods));
    patch.applied = false;
    Ok(())
}


/// Conflicts among `patches`, scanning from modification `m` of patch `p`:
/// the first patch to write an offset claims it; a later write of a
/// different byte yields (claimant id, patch id, offset).
pub open spec fn conflicts_from(
    patches: Seq<Patch>,
    p: int,
    m: int,
    claims: Map<usize, (u8, String)>,
) -> Seq<(String, String, usize)>
    decreases patches.len() - p, if 0 <= p < patches.len() {
        patches[p].modifications@.len() - m
    } else {
        0
    },
{
    if p < 0 || p >= patches.len() {
        seq![]
    } else if m < 0 || m >= patches[p].modifications@.len() {
        conflicts_from(patches, p + 1, 0, claims)
    } else {
        let md = patches[p].modifications@[m];
        if claims.contains_key(md.offset) {
            let rest = conflicts_from(patches, p, m + 1, claims);
            if claims[md.offset].0 != md.patched {
                seq![(claims[md.offset].1, patches[p].id, md.offset)] + rest
            } else {
                rest
            }
        } else {
            conflicts_from(patches, p, m + 1, claims.insert(md.offset, (md.patched, patches[p].id)))
        }
    }
}

/// Find conflicts between patches that want to write different bytes to the
/// same offset: (id of the patch that claimed it first, id of the other
/// patch, offset), in scan order.
pub fn find_conflicts(patches: &[Patch]) -> (r: Vec<(String, String, usize)>)
    ensures
        r@ == conflicts_from(patches@, 0, 0, Map::empty()),
{
    let mut claims: HashMap<usize, (u8, String)> = HashMap::new();
    let mut conflicts: Vec<(String, String, usize)> = Vec::new();
    let mut p: usize = 0;
    while p < patches.len()
        invariant
            0 <= p <= patches@.len(),
            conflicts_from(patches@, 0, 0, Map::empty()) == conflicts@ + conflicts_from(
                patches@,
                p as int,
                0,
                claims@,
            ),
        decreases patches@.len() - p,
    {
        let patch = &patches[p];
        let mut m: usize = 0;
        while m < patch.modifications.len()
            invariant
                0 <= p < patches@.len(),
                *patch == patches@[p as int],
                0 <= m <= patch.modifications@.len(),
                conflicts_from(patches@, 0, 0, Map::empty()) == conflicts@ + conflicts_from(
                    patches@,
                    p as int,
                    m as int,
                    claims@,
                ),
            decreases patch.modifications@.len() - m,
        {
            let md = patch.modifications[m];
            let ghost before = conflicts@;
            match claims.get(&md.offset) {
                Some(claim) => {
                    if claim.0 != md.patched {
                        conflicts.push((claim.1.clone(), patch.id.clone(), md.offset));
                        assert(conflicts@ + conflicts_from(patches@, p as int, m + 1, claims@)
                            =~= before + conflicts_from(patches@, p as int, m as int, claims@));
                    }
                },
                None => {
                    claims.insert(md.offset, (md.patched, patch.id.clone()));
                },
            }
            m = m + 1;
        }
        p = p + 1;
    }
    assert(conflicts@ + conflicts_from(patches@, patches@.len() as int, 0, claims@) =~= conflicts@);
    conflicts
}

/// An animation patch id: it starts with `anim-`.
pub open spec fn is_anim_id(id: Seq<char>) -> bool {
    id.len() >= 5 && id.subrange(0, 5) == "anim-"@
}

fn is_animation_id(id: &String) -> (r: bool)
    ensures
        r == is_anim_id(id@),
{
    proof {
        reveal_strlit("anim-");
    }
    let s = id.as_str();
    if s.unicode_len() < 5 {
        return false;
    }
    let c0 = s.get_char(0);
    let c1 = s.get_char(1);
    let c2 = s.get_char(2);
    let c3 = s.get_char(3);
    let c4 = s.get_char(4);
    let r = c0 == 'a' && c1 == 'n' && c2 == 'i' && c3 == 'm' && c4 == '-';
    assert("anim-"@ =~= seq!['a', 'n', 'i', 'm', '-']);
    if r {
        assert(id@.subrange(0, 5) =~= "anim-"@);
    } else {
        assert(id@.subrange(0, 5) != "anim-"@) by {
            if id@.subrange(0, 5) == "anim-"@ {
                assert(id@.subrange(0, 5)[0] == 'a');
                assert(id@.subrange(0, 5)[1] == 'n');
                assert(id@.subrange(0, 5)[2] == 'i');
                assert(id@.subrange(0, 5)[3] == 'm');
                assert(id@.subrange(0, 5)[4] == '-');
            }
        }
    }
    r
}

/// Patch `p` is rolled back by `rollback_other_animations(.., except)`.
pub open spec fn rolls_back(p: Patch, except: Seq<char>) -> bool {
    p.id@ != except && p.applied && is_anim_id(p.id@)
}

/// Image and log after rolling back the patches `patches[i..]` selected by
/// `rolls_back`, in order.
pub open spec fn rollback_others(
    fw: Seq<u8>,
    patches: Seq<Patch>,
    log: Map<usize, u8>,
    except: Seq<char>,
    i: nat,
) -> (Seq<u8>, Map<usize, u8>)
    decreases patches.len() - i,
{
    if i >= patches.len() {
        (fw, log)
    } else if rolls_back(patches[i as int], except) {
        let mods = patches[i as int].modifications@;
        rollback_others(
            restored(fw, mods, log),
            patches,
            log.remove_keys(mod_offsets(mods)),
            except,
            i + 1,
        )
    } else {
        rollback_others(fw, patches, log, except, i + 1)
    }
}

/// Animation patches all detour the same hook site into the same code cave,
/// so at most one may be applied: roll back every other applied animation
/// patch (id prefix `anim-`).
pub fn rollback_other_animations(
    firmware: &mut Vec<u8>,
    patches: &mut Vec<Patch>,
    rollback_log: &mut HashMap<usize, u8>,
    except_id: &str,
)
    requires
        forall|i: int, k: int|
            0 <= i < old(patches)@.len() && 0 <= k < old(patches)@[i].modifications@.len()
                && old(rollback_log)@.contains_key(#[trigger] old(patches)@[i].modifications@[k].offset)
                ==> old(patches)@[i].modifications@[k].offset < old(firmware)@.len(),
    ensures
        (final(firmware)@, final(rollback_log)@) == rollback_others(
            old(firmware)@,
            old(patches)@,
            old(rollback_log)@,
            except_id@,
            0,
        ),
        final(patches)@.len() == old(patches)@.len(),
        forall|i: int|
            0 <= i < old(patches)@.len() ==> #[trigger] final(patches)@[i] == if rolls_back(
                old(patches)@[i],
                except_id@,
            ) {
                Patch { applied: false, ..old(patches)@[i] }
            } else {
                old(patches)@[i]
            },
{
    let except = except_id.to_owned();
    let mut i: usize = 0;
    let n = patches.len();
    while i < n
        invariant
            0 <= i <= n,
            n == patches@.len(),
            n == old(patches)@.len(),
            except@ == except_id@,
            firmware@.len() == old(firmware)@.len(),
            forall|j: int, k: int|
                0 <= j < old(patches)@.len() && 0 <= k < old(patches)@[j].modifications@.len()
                    && rollback_log@.contains_key(#[trigger] old(patches)@[j].modifications@[k].offset)
                    ==> old(patches)@[j].modifications@[k].offset < firmware@.len(),
            forall|j: int| i <= j < n ==> #[trigger] patches@[j] == old(patches)@[j],
            forall|j: int|
                0 <= j < i ==> #[trigger] patches@[j] == if rolls_back(old(patches)@[j], except_id@) {
                    Patch { applied: false, ..old(patches)@[j] }
                } else {
                    old(patches)@[j]
                },
            rollback_others(old(firmware)@, old(patches)@, old(rollback_log)@, except_id@, 0)
                == rollback_others(firmware@, old(patches)@, rollback_log@, except_id@, i as nat),
        decreases n - i,
    {
        let candidate = !(patches[i].id == except) && patches[i].applied && is_animation_id(
            &patches[i].id,
        );
        if candidate {
            let mut p = patches.remove(i);
            assert(p == old(patches)@[i as int]);
            let _ = rollback_patch(firmware, &mut p, rollback_log);
            patches.insert(i, p);
        }
        i = i + 1;
    }
}

/// Byte `j` of `fw` grown with erased flash.
pub open spec fn base_byte(fw: Seq<u8>, j: int) -> u8 {
    if j < fw.len() {
        fw[j]
    } else {
        0xFF
    }
}

/// What applying `mods[..i]` to (`fw0`, `log0`) leaves in (`fw`, `log`).
pub open spec fn applied_prefix(
    fw0: Seq<u8>,
    log0: Map<usize, u8>,
    fw: Seq<u8>,
    log: Map<usize, u8>,
    mods: Seq<PatchModification>,
    i: int,
) -> bool {
    &&& fw.len() >= fw0.len()
    &&& fw.len() <= usize::MAX
    &&& forall|j: int|
        0 <= j < fw.len() && !touches_before(mods, i, j as usize) ==> #[trigger] fw[j] == base_byte(
            fw0,
            j,
        )
    &&& forall|o: usize| #[trigger]
        log.contains_key(o) <==> (log0.contains_key(o) || touches_before(mods, i, o))
    &&& forall|o: usize| #[trigger] log0.contains_key(o) ==> log[o] == log0[o]
    &&& forall|o: usize|
        #[trigger] touches_before(mods, i, o) ==> o < fw.len() && (!log0.contains_key(o) ==> log[o]
            == base_byte(fw0, o as int))
}

proof fn lemma_apply_prefix(
    fw0: Seq<u8>,
    log0: Map<usize, u8>,
    fw: Seq<u8>,
    log: Map<usize, u8>,
    mods: Seq<PatchModification>,
    i: nat,
)
    requires
        i <= mods.len(),
        forall|k: int| 0 <= k < mods.len() ==> #[trigger] mods[k].offset < usize::MAX,
        applied_prefix(fw0, log0, fw, log, mods, i as int),
        apply_mods(fw, mods, log, i).0 is Ok,
    ensures
        applied_prefix(
            fw0,
            log0,
            apply_mods(fw, mods, log, i).1,
            apply_mods(fw, mods, log, i).2,
            mods,
            mods.len() as int,
        ),
    decreases mods.len() - i,
{
    if i < mods.len() {
        let m = mods[i as int];
        let off = m.offset;
        let fw1 = grow(fw, off);
        let cur = fw1[off as int];
        let fw2 = fw1.update(off as int, m.patched);
        let log2 = if log.contains_key(off) { log } else { log.insert(off, cur) };
        assert(mods[i as int].offset == off);
        assert forall|o: usize| #[trigger] touches_before(mods, (i + 1) as int, o) implies touches_before(
            mods,
            i as int,
            o,
        ) || o == off by {
            let k = choose|k: int| 0 <= k < i + 1 && #[trigger] mods[k].offset == o;
            if k < i {
                assert(touches_before(mods, i as int, o));
            }
        }
        assert forall|o: usize| touches_before(mods, i as int, o) implies #[trigger] touches_before(
            mods,
            (i + 1) as int,
            o,
        ) by {
            let k = choose|k: int| 0 <= k < i && #[trigger] mods[k].offset == o;
            assert(0 <= k < i + 1 && mods[k].offset == o);
        }
        assert(touches_before(mods, (i + 1) as int, off));
        if !touches_before(mods, i as int, off) && !log0.contains_key(off) {
            assert(cur == base_byte(fw0, off as int)) by {
                if (off as int) < fw.len() {
                    assert(fw[off as int] == base_byte(fw0, off as int));
                }
            }
        }
        assert(applied_prefix(fw0, log0, fw2, log2, mods, (i + 1) as int)) by {
            assert forall|j: int|
                0 <= j < fw2.len() && !touches_before(mods, (i + 1) as int, j as usize) implies #[trigger] fw2[j]
                == base_byte(fw0, j) by {
                assert(!touches_before(mods, i as int, j as usize));
                if j < fw.len() {
                    assert(fw[j] == base_byte(fw0, j));
                }
            }
        }
        lemma_apply_prefix(fw0, log0, fw2, log2, mods, i + 1);
    }
}

/// Rolling a patch back right after applying it gives back the image (grown
/// with erased bytes where the patch reached past its end) and the log, when
/// the log held no entry at the patch's offsets before.
pub proof fn lemma_rollback_undoes_apply(
    fw: Seq<u8>,
    mods: Seq<PatchModification>,
    log: Map<usize, u8>,
)
    requires
        apply_mods(fw, mods, log, 0).0 is Ok,
        fw.len() <= usize::MAX,
        forall|k: int| 0 <= k < mods.len() ==> #[trigger] mods[k].offset < usize::MAX,
        forall|k: int| 0 <= k < mods.len() ==> !log.contains_key(#[trigger] mods[k].offset),
    ensures
        apply_mods(fw, mods, log, 0).1.len() >= fw.len(),
        restored(apply_mods(fw, mods, log, 0).1, mods, apply_mods(fw, mods, log, 0).2) == fw
            + Seq::new((apply_mods(fw, mods, log, 0).1.len() - fw.len()) as nat, |i: int| 0xFFu8),
        apply_mods(fw, mods, log, 0).2.remove_keys(mod_offsets(mods)) == log,
{
    let fw1 = apply_mods(fw, mods, log, 0).1;
    let log1 = apply_mods(fw, mods, log, 0).2;
    assert(applied_prefix(fw, log, fw, log, mods, 0));
    lemma_apply_prefix(fw, log, fw, log, mods, 0);
    assert forall|o: usize| #[trigger] touches(mods, 0, o) <==> touches_before(mods, mods.len() as int, o) by {
        if touches(mods, 0, o) {
            let k = choose|k: int| 0 <= k < mods.len() && #[trigger] mods[k].offset == o;
            assert(touches_before(mods, mods.len() as int, o));
        }
        if touches_before(mods, mods.len() as int, o) {
            let k = choose|k: int| 0 <= k < mods.len() && #[trigger] mods[k].offset == o;
            assert(touches(mods, 0, o));
        }
    }
    let target = fw + Seq::new((fw1.len() - fw.len()) as nat, |i: int| 0xFFu8);
    assert forall|j: int| 0 <= j < fw1.len() implies #[trigger] restored(fw1, mods, log1)[j]
        == target[j] by {
        if touches(mods, 0, j as usize) {
            let k = choose|k: int| 0 <= k < mods.len() && #[trigger] mods[k].offset == j as usize;
            assert(!log.contains_key(mods[k].offset));
        }
    }
    assert(restored(fw1, mods, log1) =~= target);
    assert forall|o: usize| #[trigger] mod_offsets(mods).contains(o) implies !log.contains_key(o) by {
        let k = choose|k: int| 0 <= k < mods.len() && #[trigger] mods[k].offset == o;
    }
    assert(log1.remove_keys(mod_offsets(mods)) =~= log);
}

// ---------------------------------------------------------------------------
// Patch documents.
// ---------------------------------------------------------------------------

/// First position in `a..b` that starts a comment (`#` or `;`), or `b`.
pub open spec fn comment_start(s: Seq<char>, a: int, b: int) -> int
    decreases b - a,
{
    if a >= b {
        b
    } else if s[a] == '#' || s[a] == ';' {
        a
    } else {
        comment_start(s, a + 1, b)
    }
}

/// The number written in hex in `s[a..b]`, with whitespace around and an
/// optional `0x`/`0X`.
pub open spec fn hex_number(s: Seq<char>, a: int, b: int) -> Option<nat> {
    let (st, y) = hex_span(s, a, b);
    parse_unsigned(s, st, y, 16, usize::MAX as nat)
}

/// The digits of the hex number in `s[a..b]`: trimmed, after a `0x` or `0X`.
pub open spec fn hex_span(s: Seq<char>, a: int, b: int) -> (int, int) {
    let (x, y) = trimmed(s, a, b);
    if y - x >= 2 && s[x] == '0' && (s[x + 1] == 'x' || s[x + 1] == 'X') {
        (x + 2, y)
    } else {
        (x, y)
    }
}

/// What one line `s[a..b]` of a patch's data gives.
pub enum DataLine {
    /// Blank, comment only, or no single `:`.
    Skip,
    Modification(PatchModification),
    /// A number that is no hex: its digits are `s[from..to]`.
    BadHex { from: usize, to: usize },
    /// A line without exactly one `-` after its `:`; `s[from..to]` is the
    /// line without its comment, trimmed.
    BadLine { from: usize, to: usize },
}

/// The message of a refused data line.
pub open spec fn data_error(s: Seq<char>, d: DataLine) -> Seq<char> {
    match d {
        DataLine::BadHex { from, to } => "bad hex: "@ + s.subrange(from as int, to as int),
        DataLine::BadLine { from, to } => "bad patch line: "@ + s.subrange(from as int, to as int),
        _ => seq![],
    }
}

/// One data line: `OFFSET: OLD - NEW` or `OFFSET: * - NEW`, in hex, with
/// comments from `#` or `;` on.
pub open spec fn data_line(s: Seq<char>, a: int, b: int) -> DataLine {
    let e = comment_start(s, a, b);
    let (ta, tb) = trimmed(s, a, e);
    let p = find_char(s, ta, tb, ':');
    if ta == tb || p == tb || find_char(s, p + 1, tb, ':') < tb {
        DataLine::Skip
    } else {
        let q = find_char(s, p + 1, tb, '-');
        let (oa, ob) = trimmed(s, p + 1, q);
        match hex_number(s, ta, p) {
            None => DataLine::BadHex { from: hex_span(s, ta, p).0 as usize, to: hex_span(s, ta, p).1 as usize },
            Some(off) => if q == tb || find_char(s, q + 1, tb, '-') < tb {
                DataLine::BadLine { from: ta as usize, to: tb as usize }
            } else {
                let original: Option<Option<u8>> = if ob - oa == 1 && s[oa] == '*' {
                    Some(None)
                } else {
                    match hex_number(s, oa, ob) {
                        Some(v) => Some(Some((v % 256) as u8)),
                        None => None,
                    }
                };
                match (original, hex_number(s, q + 1, tb)) {
                    (Some(o), Some(n)) => DataLine::Modification(
                        PatchModification { offset: off as usize, original: o, patched: (n % 256) as u8 },
                    ),
                    (None, _) => DataLine::BadHex {
                        from: hex_span(s, oa, ob).0 as usize,
                        to: hex_span(s, oa, ob).1 as usize,
                    },
                    (Some(_), None) => DataLine::BadHex {
                        from: hex_span(s, q + 1, tb).0 as usize,
                        to: hex_span(s, q + 1, tb).1 as usize,
                    },
                }
            },
        }
    }
}

/// The modifications of the data text `s` from position `a` on, line by
/// line; the message of the first refused line, if one is.
pub open spec fn data_mods(s: Seq<char>, a: int) -> Result<Seq<PatchModification>, Seq<char>>
    decreases s.len() + 1 - a,
{
    if a >= s.len() || a < 0 {
        Ok(seq![])
    } else {
        let e = find_char(s, a, s.len() as int, '\n');
        proof {
            lemma_find_char_bounds(s, a, s.len() as int, '\n');
        }
        match data_line(s, a, e) {
            DataLine::Skip => data_mods(s, e + 1),
            DataLine::Modification(m) => match data_mods(s, e + 1) {
                Ok(rest) => Ok(seq![m] + rest),
                Err(msg) => Err(msg),
            },
            bad => Err(data_error(s, bad)),
        }
    }
}

proof fn lemma_comment_start_bounds(s: Seq<char>, a: int, b: int)
    requires
        a <= b,
    ensures
        a <= comment_start(s, a, b) <= b,
    decreases b - a,
{
    if a < b && !(s[a] == '#' || s[a] == ';') {
        lemma_comment_start_bounds(s, a + 1, b);
    }
}

fn comment_start_exec(s: &[char], a: usize, b: usize) -> (r: usize)
    requires
        a <= b <= s@.len(),
    ensures
        r == comment_start(s@, a as int, b as int),
        a <= r <= b,
{
    let mut k = a;
    while k < b && s[k] != '#' && s[k] != ';'
        invariant
            a <= k <= b <= s@.len(),
            comment_start(s@, a as int, b as int) == comment_start(s@, k as int, b as int),
        decreases b - k,
    {
        k = k + 1;
    }
    k
}

fn hex_span_exec(s: &[char], a: usize, b: usize) -> (r: (usize, usize))
    requires
        a <= b <= s@.len(),
    ensures
        r.0 as int == hex_span(s@, a as int, b as int).0,
        r.1 as int == hex_span(s@, a as int, b as int).1,
        a <= r.0 <= r.1 <= b,
{
    let (x, y) = trim(s, a, b);
    if y - x >= 2 && s[x] == '0' && (s[x + 1] == 'x' || s[x + 1] == 'X') {
        (x + 2, y)
    } else {
        (x, y)
    }
}

fn hex_number_exec(s: &[char], a: usize, b: usize) -> (r: Option<usize>)
    requires
        a <= b <= s@.len(),
    ensures
        match hex_number(s@, a as int, b as int) {
            Some(v) => r == Some(v as usize),
            None => r is None,
        },
{
    let (st, y) = hex_span_exec(s, a, b);
    match parse_unsigned_exec(s, st, y, 16, usize::MAX as u64) {
        Some(v) => Some(v as usize),
        None => None,
    }
}

fn data_line_exec(s: &[char], a: usize, b: usize) -> (r: DataLine)
    requires
        a <= b <= s@.len(),
    ensures
        r == data_line(s@, a as int, b as int),
        match r {
            DataLine::BadHex { from, to } => from <= to <= b,
            DataLine::BadLine { from, to } => from <= to <= b,
            _ => true,
        },
{
    let e = comment_start_exec(s, a, b);
    let (ta, tb) = trim(s, a, e);
    let p = find_char_exec(s, ta, tb, ':');
    if ta == tb || p == tb || find_char_exec(s, p + 1, tb, ':') < tb {
        return DataLine::Skip;
    }
    let q = find_char_exec(s, p + 1, tb, '-');
    let (oa, ob) = trim(s, p + 1, q);
    let off = match hex_number_exec(s, ta, p) {
        None => {
            let (h0, h1) = hex_span_exec(s, ta, p);
            return DataLine::BadHex { from: h0, to: h1 };
        },
        Some(off) => off,
    };
    if q == tb || find_char_exec(s, q + 1, tb, '-') < tb {
        return DataLine::BadLine { from: ta, to: tb };
    }
    let original: Option<Option<u8>> = if ob - oa == 1 && s[oa] == '*' {
        Some(None)
    } else {
        match hex_number_exec(s, oa, ob) {
            Some(v) => Some(Some((v % 256) as u8)),
            None => None,
        }
    };
    match (original, hex_number_exec(s, q + 1, tb)) {
        (Some(o), Some(n)) => DataLine::Modification(
            PatchModification { offset: off, original: o, patched: (n % 256) as u8 },
        ),
        (None, _) => {
            let (h0, h1) = hex_span_exec(s, oa, ob);
            DataLine::BadHex { from: h0, to: h1 }
        },
        (Some(_), None) => {
            let (h0, h1) = hex_span_exec(s, q + 1, tb);
            DataLine::BadHex { from: h0, to: h1 }
        },
    }
}

/// The modifications listed in a patch's data text; the first refused line
/// is reported.
pub fn parse_data(s: &[char]) -> (r: Result<Vec<PatchModification>, FirmwareError>)
    ensures
        match data_mods(s@, 0) {
            Ok(m) => r matches Ok(v) && v@ == m,
            Err(msg) => r matches Err(FirmwareError::Xml(t)) && t@ == msg,
        },
{
    let mut out: Vec<PatchModification> = Vec::new();
    let mut a: usize = 0;
    while a < s.len()
        invariant
            0 <= a <= s@.len(),
            data_mods(s@, 0) == (match data_mods(s@, a as int) {
                Ok(rest) => Ok(out@ + rest),
                Err(msg) => Err::<Seq<PatchModification>, Seq<char>>(msg),
            }),
        decreases s@.len() - a,
    {
        let e = find_char_exec(s, a, s.len(), '\n');
        match data_line_exec(s, a, e) {
            DataLine::Skip => {},
            DataLine::Modification(m) => {
                let ghost before = out@;
                out.push(m);
                proof {
                    match data_mods(s@, e + 1) {
                        Ok(rest) => {
                            assert(before + (seq![m] + rest) =~= out@ + rest);
                        },
                        Err(_) => {},
                    }
                }
            },
            DataLine::BadHex { from, to } => {
                let mut m: Vec<char> = Vec::new();
                push_text(&mut m, "bad hex: ");
                push_all(&mut m, slice_of(s, from, to).as_slice());
                return Err(FirmwareError::Xml(string_from_chars(m.as_slice())));
            },
            DataLine::BadLine { from, to } => {
                let mut m: Vec<char> = Vec::new();
                push_text(&mut m, "bad patch line: ");
                push_all(&mut m, slice_of(s, from, to).as_slice());
                return Err(FirmwareError::Xml(string_from_chars(m.as_slice())));
            },
        }
        if e == s.len() {
            a = e;
            assert(data_mods(s@, a as int) == Ok::<Seq<PatchModification>, Seq<char>>(Seq::<PatchModification>::empty()));
        } else {
            a = e + 1;
        }
    }
    assert(out@ + Seq::<PatchModification>::empty() =~= out@);
    Ok(out)
}

/// `Patch`.
pub open spec fn w_patch() -> Seq<u8> {
    seq![80u8, 97, 116, 99, 104]
}

/// `Name`.
pub open spec fn w_name() -> Seq<u8> {
    seq![78u8, 97, 109, 101]
}

/// `Version`.
pub open spec fn w_version() -> Seq<u8> {
    seq![86u8, 101, 114, 115, 105, 111, 110]
}

/// `Author`.
pub open spec fn w_author() -> Seq<u8> {
    seq![65u8, 117, 116, 104, 111, 114]
}

/// `Description`.
pub open spec fn w_description() -> Seq<u8> {
    seq![68u8, 101, 115, 99, 114, 105, 112, 116, 105, 111, 110]
}

/// `Data`.
pub open spec fn w_data() -> Seq<u8> {
    seq![68u8, 97, 116, 97]
}


/// The fields of a patch document read so far.
pub struct PatchFields {
    pub name: Seq<char>,
    pub version: Seq<char>,
    pub author: Seq<char>,
    pub description: Seq<char>,
    pub modifications: Seq<PatchModification>,
}

/// The fields a `Patch` start tag with `attrs` sets (the last of each).
pub open spec fn patch_attrs(f: PatchFields, attrs: Seq<XmlAttrView>) -> PatchFields {
    PatchFields {
        name: match last_value(attrs, w_name()) { Some(v) => v, None => f.name },
        version: match last_value(attrs, w_version()) { Some(v) => v, None => f.version },
        author: match last_value(attrs, w_author()) { Some(v) => v, None => f.author },
        ..f
    }
}

/// The fields read from the events `evs`, given those read so far and the
/// text gathered since the last tag; None if the document is refused.
pub open spec fn scan_patch(evs: Seq<XmlEventView>, f: PatchFields, text: Seq<char>) -> Result<PatchFields, Seq<char>>
    decreases evs.len(),
{
    if evs.len() == 0 {
        Ok(f)
    } else {
        let rest = evs.drop_first();
        match evs[0] {
            XmlEventView::Eof => Ok(f),
            XmlEventView::Malformed => Err("malformed patch document"@),
            XmlEventView::Open { name, attrs, bad_attr, empty } => if empty {
                scan_patch(rest, f, text)
            } else if name == w_patch() {
                if bad_attr {
                    Err("malformed patch attribute"@)
                } else {
                    scan_patch(rest, patch_attrs(f, attrs), seq![])
                }
            } else {
                scan_patch(rest, f, seq![])
            },
            XmlEventView::Text { text: t } => scan_patch(rest, f, text + t),
            XmlEventView::Close { name } => if name == w_description() {
                let (a, b) = trimmed(text, 0, text.len() as int);
                scan_patch(rest, PatchFields { description: text.subrange(a, b), ..f }, seq![])
            } else if name == w_data() {
                match data_mods(text, 0) {
                    Ok(m) => scan_patch(rest, PatchFields { modifications: m, ..f }, seq![]),
                    Err(msg) => Err(msg),
                }
            } else {
                scan_patch(rest, f, seq![])
            },
            XmlEventView::Other => scan_patch(rest, f, text),
        }
    }
}

/// The fields of a patch document with the events `evs`.
pub open spec fn patch_of(evs: Seq<XmlEventView>) -> Result<PatchFields, Seq<char>> {
    scan_patch(evs, PatchFields { name: seq![], version: seq![], author: seq![], description: seq![], modifications: seq![] }, seq![])
}

/// `p` holds the fields `f`, has the id `id` and is not applied.
pub open spec fn patch_holds(p: Patch, id: Seq<char>, f: PatchFields) -> bool {
    &&& p.id@ == id
    &&& p.name@ == f.name
    &&& p.version@ == f.version
    &&& p.author@ == f.author
    &&& p.description@ == f.description
    &&& p.modifications@ == f.modifications
    &&& !p.applied
}

fn is_patch(b: &[u8]) -> (r: bool)
    ensures
        r == (b@ == w_patch()),
{
    let w: [u8; 5] = [80, 97, 116, 99, 104];
    bytes_eq(b, &w)
}

fn is_name(b: &[u8]) -> (r: bool)
    ensures
        r == (b@ == w_name()),
{
    let w: [u8; 4] = [78, 97, 109, 101];
    bytes_eq(b, &w)
}

fn is_version(b: &[u8]) -> (r: bool)
    ensures
        r == (b@ == w_version()),
{
    let w: [u8; 7] = [86, 101, 114, 115, 105, 111, 110];
    bytes_eq(b, &w)
}

fn is_author(b: &[u8]) -> (r: bool)
    ensures
        r == (b@ == w_author()),
{
    let w: [u8; 6] = [65, 117, 116, 104, 111, 114];
    bytes_eq(b, &w)
}

fn is_description(b: &[u8]) -> (r: bool)
    ensures
        r == (b@ == w_description()),
{
    let w: [u8; 11] = [68, 101, 115, 99, 114, 105, 112, 116, 105, 111, 110];
    bytes_eq(b, &w)
}

fn is_data(b: &[u8]) -> (r: bool)
    ensures
        r == (b@ == w_data()),
{
    let w: [u8; 4] = [68, 97, 116, 97];
    bytes_eq(b, &w)
}


fn fields_of(p: &Patch) -> (f: Ghost<PatchFields>)
    ensures
        f@ == (PatchFields { name: p.name@, version: p.version@, author: p.author@, description: p.description@, modifications: p.modifications@ }),
{
    Ghost(PatchFields { name: p.name@, version: p.version@, author: p.author@, description: p.description@, modifications: p.modifications@ })
}

/// The patch that the events of a patch document give, with the id `id`.
pub fn patch_from_events(evs: &[XmlEvent], id: &str) -> (r: Result<Patch, FirmwareError>)
    ensures
        match patch_of(views(evs@)) {
            Ok(f) => r matches Ok(p) && patch_holds(p, id@, f),
            Err(msg) => r matches Err(FirmwareError::Xml(m)) && m@ == msg,
        },
{
    let mut patch = Patch::default();
    patch.id = id.to_owned();
    let mut text: Vec<char> = Vec::new();
    let mut i: usize = 0;
    let ghost all = views(evs@);
    assert(all.subrange(0, all.len() as int) =~= all);
    proof {
        let f0 = PatchFields { name: seq![], version: seq![], author: seq![], description: seq![], modifications: seq![] };
        assert(patch.name@ =~= f0.name);
        assert(patch.version@ =~= f0.version);
        assert(patch.author@ =~= f0.author);
        assert(patch.description@ =~= f0.description);
        assert(patch.modifications@ =~= f0.modifications);
        assert(text@ =~= Seq::<char>::empty());
    }
    while i < evs.len()
        invariant
            0 <= i <= evs@.len(),
            all == views(evs@),
            patch.id@ == id@,
            !patch.applied,
            patch_of(all) == scan_patch(all.subrange(i as int, all.len() as int), fields_of_spec(patch), text@),
        decreases evs@.len() - i,
    {
        let ghost rest = all.subrange(i as int, all.len() as int);
        assert(rest.drop_first() =~= all.subrange(i + 1, all.len() as int));
        assert(rest[0] == evs@[i as int]@);
        match &evs[i] {
            XmlEvent::Eof => {
                return Ok(patch);
            },
            XmlEvent::Malformed => {
                return Err(FirmwareError::Xml("malformed patch document".to_owned()));
            },
            XmlEvent::Open { name, attrs, bad_attr, empty } => {
                if !*empty {
                    if is_patch(name.as_slice()) {
                        if *bad_attr {
                            return Err(FirmwareError::Xml("malformed patch attribute".to_owned()));
                        }
                        let kn: [u8; 4] = [78, 97, 109, 101];
                        let kv: [u8; 7] = [86, 101, 114, 115, 105, 111, 110];
                        let ka: [u8; 6] = [65, 117, 116, 104, 111, 114];
                        match find_last(attrs.as_slice(), &kn) {
                            Some(v) => {
                                patch.name = v.clone();
                            },
                            None => {},
                        }
                        match find_last(attrs.as_slice(), &kv) {
                            Some(v) => {
                                patch.version = v.clone();
                            },
                            None => {},
                        }
                        match find_last(attrs.as_slice(), &ka) {
                            Some(v) => {
                                patch.author = v.clone();
                            },
                            None => {},
                        }
                    }
                    text = Vec::new();
                }
            },
            XmlEvent::Text { text: t } => {
                let cs = chars_of(t.as_str());
                let ghost before = text@;
                let mut k: usize = 0;
                while k < cs.len()
                    invariant
                        0 <= k <= cs@.len(),
                        text@ == before + cs@.subrange(0, k as int),
                    decreases cs@.len() - k,
                {
                    text.push(cs[k]);
                    assert(text@ =~= before + cs@.subrange(0, k + 1));
                    k = k + 1;
                }
                assert(cs@.subrange(0, cs@.len() as int) =~= cs@);
            },
            XmlEvent::Close { name } => {
                if is_description(name.as_slice()) {
                    let (a, b) = trim(text.as_slice(), 0, text.len());
                    let slice = slice_of(text.as_slice(), a, b);
                    patch.description = string_from_chars(slice.as_slice());
                } else if is_data(name.as_slice()) {
                    match parse_data(text.as_slice()) {
                        Ok(m) => {
                            patch.modifications = m;
                        },
                        Err(e) => {
                            return Err(e);
                        },
                    }
                }
                text = Vec::new();
            },
            XmlEvent::Other => {},
        }
        i = i + 1;
    }
    Ok(patch)
}

/// The fields a patch value holds.
pub open spec fn fields_of_spec(p: Patch) -> PatchFields {
    PatchFields { name: p.name@, version: p.version@, author: p.author@, description: p.description@, modifications: p.modifications@ }
}

fn slice_of(s: &[char], a: usize, b: usize) -> (r: Vec<char>)
    requires
        a <= b <= s@.len(),
    ensures
        r@ == s@.subrange(a as int, b as int),
{
    let mut out: Vec<char> = Vec::new();
    let mut k = a;
    while k < b
        invariant
            a <= k <= b <= s@.len(),
            out@ == s@.subrange(a as int, k as int),
        decreases b - k,
    {
        out.push(s[k]);
        assert(out@ =~= s@.subrange(a as int, k + 1));
        k = k + 1;
    }
    out
}

/// Parse a `.patch` document: a `Patch` element with `Name`, `Version` and
/// `Author` attributes, a `Description` and a `Data` text of lines
/// `0xOFFSET: 0xOLD - 0xNEW` (`*` for any old byte; `#` and `;` start
/// comments).
pub fn parse_patch(xml: &str, id: &str) -> (r: Result<Patch, FirmwareError>)
    ensures
        match patch_of(document_events(xml@)) {
            Ok(f) => r matches Ok(p) && patch_holds(p, id@, f),
            Err(msg) => r matches Err(FirmwareError::Xml(m)) && m@ == msg,
        },
{
    let evs = xml_events(xml);
    patch_from_events(evs.as_slice(), id)
}

} // verus!
