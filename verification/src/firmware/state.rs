//! The open firmware images of a session, keyed by handle.

use crate::firmware::loader::FirmwareImage;
use crate::firmware::patch::Patch;
use std::collections::HashMap;
use vstd::prelude::*;

verus! {

/// Mutable state for one open firmware image.
#[derive(Debug)]
pub struct OpenFirmware {
    pub image: FirmwareImage,
    pub rollback_log: HashMap<usize, u8>,
    pub patches: Vec<Patch>,
}

/// The open images, each under its own handle.
#[derive(Debug)]
pub struct FirmwareState {
    entries: Vec<(String, OpenFirmware)>,
}

/// The image under `handle` in `entries` (the first one), if any.
pub open spec fn lookup(entries: Seq<(String, OpenFirmware)>, handle: Seq<char>) -> Option<OpenFirmware>
    decreases entries.len(),
{
    if entries.len() == 0 {
        None
    } else if entries[0].0@ == handle {
        Some(entries[0].1)
    } else {
        lookup(entries.drop_first(), handle)
    }
}

/// No two entries share a handle.
pub open spec fn unique_handles(entries: Seq<(String, OpenFirmware)>) -> bool {
    forall|a: int, b: int| 0 <= a < b < entries.len() ==> #[trigger] entries[a].0@ != #[trigger] entries[b].0@
}

/// No entry has this handle.
proof fn lemma_lookup_absent(s: Seq<(String, OpenFirmware)>, handle: Seq<char>)
    requires
        forall|k: int| 0 <= k < s.len() ==> #[trigger] s[k].0@ != handle,
    ensures
        lookup(s, handle) is None,
    decreases s.len(),
{
    if s.len() > 0 {
        lemma_lookup_absent(s.drop_first(), handle);
    }
}

impl FirmwareState {
    #[verifier::type_invariant]
    spec fn handles_unique(self) -> bool {
        unique_handles(self.entries@)
    }

    /// The image open under `handle`, if any.
    pub closed spec fn get_spec(&self, handle: Seq<char>) -> Option<OpenFirmware> {
        lookup(self.entries@, handle)
    }

    /// No image is open.
    pub fn new() -> (s: Self)
        ensures
            forall|h: Seq<char>| s.get_spec(h) is None,
    {
        FirmwareState { entries: Vec::new() }
    }

    fn position(&self, handle: &str) -> (r: Option<usize>)
        ensures
            r matches Some(i) ==> i < self.entries@.len() && self.entries@[i as int].0@ == handle@ && lookup(self.entries@, handle@) == Some(self.entries@[i as int].1) && forall|k: int| 0 <= k < i ==> #[trigger] self.entries@[k].0@ != handle@,
            r is None ==> lookup(self.entries@, handle@) is None && forall|k: int| 0 <= k < self.entries@.len() ==> #[trigger] self.entries@[k].0@ != handle@,
    {
        let h = handle.to_owned();
        let ghost all = self.entries@;
        let mut i: usize = 0;
        assert(all.subrange(0, all.len() as int) =~= all);
        while i < self.entries.len()
            invariant
                0 <= i <= all.len(),
                all == self.entries@,
                h@ == handle@,
                lookup(all, handle@) == lookup(all.subrange(i as int, all.len() as int), handle@),
                forall|k: int| 0 <= k < i ==> #[trigger] all[k].0@ != handle@,
            decreases all.len() - i,
        {
            let ghost rest = all.subrange(i as int, all.len() as int);
            assert(rest.drop_first() =~= all.subrange(i + 1, all.len() as int));
            if self.entries[i].0 == h {
                return Some(i);
            }
            i = i + 1;
        }
        None
    }

    /// Open `fw` under `handle`, replacing what was open there.
    pub fn insert(&mut self, handle: String, fw: OpenFirmware)
        ensures
            final(self).get_spec(handle@) == Some(fw),
            forall|h: Seq<char>| h != handle@ ==> #[trigger] final(self).get_spec(h) == old(self).get_spec(h),
    {
        let ghost hv = handle@;
        proof {
            use_type_invariant(&*self);
        }
        match self.position(handle.as_str()) {
            Some(i) => {
                let mut entries: Vec<(String, OpenFirmware)> = Vec::new();
                std::mem::swap(&mut entries, &mut self.entries);
                let ghost before = entries@;
                let ghost e = (handle, fw);
                entries.set(i, (handle, fw));
                proof {
                    assert(entries@ == before.update(i as int, e));
                    assert forall|h: Seq<char>| #[trigger] lookup(entries@, h) == (if h == hv { Some(fw) } else { lookup(before, h) }) by {
                        lemma_lookup_set(before, i as int, e, h);
                    }
                    assert forall|a: int, b: int| 0 <= a < b < entries@.len() implies #[trigger] entries@[a].0@ != #[trigger] entries@[b].0@ by {
                        if a != i && b != i {
                            assert(before[a].0@ != before[b].0@);
                        }
                    }
                }
                self.entries = entries;
            },
            None => {
                let mut entries: Vec<(String, OpenFirmware)> = Vec::new();
                std::mem::swap(&mut entries, &mut self.entries);
                let ghost before = entries@;
                let ghost e = (handle, fw);
                entries.push((handle, fw));
                proof {
                    assert forall|h: Seq<char>| #[trigger] lookup(entries@, h) == (if h == hv { Some(fw) } else { lookup(before, h) }) by {
                        lemma_lookup_push(before, e, h);
                    }
                    assert forall|a: int, b: int| 0 <= a < b < entries@.len() implies #[trigger] entries@[a].0@ != #[trigger] entries@[b].0@ by {
                        if b < before.len() {
                            assert(before[a].0@ != before[b].0@);
                        }
                    }
                }
                self.entries = entries;
            },
        }
    }

    /// The image open under `handle`.
    pub fn get(&self, handle: &str) -> (r: Option<&OpenFirmware>)
        ensures
            match self.get_spec(handle@) {
                Some(fw) => r == Some(&fw),
                None => r is None,
            },
    {
        match self.position(handle) {
            Some(i) => Some(&self.entries[i].1),
            None => None,
        }
    }

    /// Close the image open under `handle` and hand it back.
    pub fn remove(&mut self, handle: &str) -> (r: Option<OpenFirmware>)
        ensures
            r == old(self).get_spec(handle@),
            final(self).get_spec(handle@) is None,
            forall|h: Seq<char>| h != handle@ ==> #[trigger] final(self).get_spec(h) == old(self).get_spec(h),
    {
        proof {
            use_type_invariant(&*self);
        }
        match self.position(handle) {
            Some(i) => {
                let mut entries: Vec<(String, OpenFirmware)> = Vec::new();
                std::mem::swap(&mut entries, &mut self.entries);
                let ghost before = entries@;
                proof {
                    lemma_lookup_remove(before, i as int, handle@);
                }
                let (_, fw) = entries.remove(i);
                self.entries = entries;
                Some(fw)
            },
            None => None,
        }
    }
}

proof fn lemma_lookup_set(s: Seq<(String, OpenFirmware)>, i: int, e: (String, OpenFirmware), h: Seq<char>)
    requires
        0 <= i < s.len(),
        s[i].0@ == e.0@,
        forall|k: int| 0 <= k < i ==> #[trigger] s[k].0@ != e.0@,
    ensures
        lookup(s.update(i, e), h) == (if h == e.0@ { Some(e.1) } else { lookup(s, h) }),
    decreases i,
{
    let u = s.update(i, e);
    if i > 0 {
        lemma_lookup_set(s.drop_first(), i - 1, e, h);
        assert(u.drop_first() =~= s.drop_first().update(i - 1, e));
        assert(u[0] == s[0]);
    } else {
        assert(u.drop_first() =~= s.drop_first());
    }
}

proof fn lemma_lookup_push(s: Seq<(String, OpenFirmware)>, e: (String, OpenFirmware), h: Seq<char>)
    requires
        forall|k: int| 0 <= k < s.len() ==> #[trigger] s[k].0@ != e.0@,
    ensures
        lookup(s.push(e), h) == (if h == e.0@ { Some(e.1) } else { lookup(s, h) }),
    decreases s.len(),
{
    let p = s.push(e);
    if s.len() > 0 {
        lemma_lookup_push(s.drop_first(), e, h);
        assert(p.drop_first() =~= s.drop_first().push(e));
        assert(p[0] == s[0]);
    } else {
        assert(p.drop_first() =~= s);
    }
}

proof fn lemma_lookup_remove(s: Seq<(String, OpenFirmware)>, i: int, handle: Seq<char>)
    requires
        0 <= i < s.len(),
        s[i].0@ == handle,
        forall|k: int| 0 <= k < i ==> #[trigger] s[k].0@ != handle,
    ensures
        lookup(s, handle) == Some(s[i].1),
        forall|h: Seq<char>| h != handle ==> #[trigger] lookup(s.remove(i), h) == lookup(s, h),
        unique_handles(s) ==> lookup(s.remove(i), handle) is None,
        unique_handles(s) ==> unique_handles(s.remove(i)),
    decreases i,
{
    if unique_handles(s) {
        assert forall|k: int| 0 <= k < s.remove(i).len() implies #[trigger] s.remove(i)[k].0@ != handle by {
            if k < i {
                assert(s.remove(i)[k] == s[k]);
            } else {
                assert(s.remove(i)[k] == s[k + 1]);
                assert(s[i].0@ != s[k + 1].0@);
            }
        }
        lemma_lookup_absent(s.remove(i), handle);
        assert forall|a: int, b: int| 0 <= a < b < s.remove(i).len() implies #[trigger] s.remove(i)[a].0@ != #[trigger] s.remove(i)[b].0@ by {
            let a2 = if a < i { a } else { a + 1 };
            let b2 = if b < i { b } else { b + 1 };
            assert(s.remove(i)[a] == s[a2]);
            assert(s.remove(i)[b] == s[b2]);
            assert(s[a2].0@ != s[b2].0@);
        }
    }
    if i > 0 {
        lemma_lookup_remove(s.drop_first(), i - 1, handle);
    }
    assert forall|h: Seq<char>| h != handle implies #[trigger] lookup(s.remove(i), h) == lookup(s, h) by {
        lemma_lookup_remove_other(s, i, handle, h);
    }
}

proof fn lemma_lookup_remove_other(s: Seq<(String, OpenFirmware)>, i: int, handle: Seq<char>, h: Seq<char>)
    requires
        0 <= i < s.len(),
        s[i].0@ == handle,
        h != handle,
    ensures
        lookup(s.remove(i), h) == lookup(s, h),
    decreases i,
{
    if i > 0 {
        lemma_lookup_remove_other(s.drop_first(), i - 1, handle, h);
        assert(s.remove(i).drop_first() =~= s.drop_first().remove(i - 1));
        assert(s.remove(i)[0] == s[0]);
    } else {
        assert(s.remove(0) =~= s.drop_first());
    }
}

} // verus!
