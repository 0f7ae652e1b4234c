//! Stock firmware library: matches a device's product ID (and firmware
//! version word) against the bundled builds.

use crate::firmware::text::chars_of;
use vstd::prelude::*;

verus! {

/// The bundled builds and the device lines they belong to.
#[derive(Debug)]
pub struct StockLibrary {
    pub lines: Vec<Line>,
    pub builds: Vec<StockBuild>,
}

/// A device line: its name and the product IDs of its devices.
#[derive(Debug)]
pub struct Line {
    pub name: String,
    pub product_ids: Vec<String>,
}

/// One bundled build.
#[derive(Debug)]
pub struct StockBuild {
    pub id: String,
    pub file: String,
    pub line: String,
    pub fw_versions: Vec<i32>,
}

#[derive(Debug, Clone, Copy, PartialEq, Eq, Structural)]
pub enum MatchKind {
    /// A build in the device's line records this exact fw_version.
    ExactVersion,
    /// Line known, but no build records this fw_version; the newest
    /// build in the line is returned and the caller must warn.
    LineOnly,
    /// Product ID not in any known line.
    NoLine,
}

/// Line `l` lists the product ID `pid`.
pub open spec fn lists(l: Line, pid: Seq<char>) -> bool {
    exists|k: int| 0 <= k < l.product_ids@.len() && #[trigger] l.product_ids@[k]@ == pid
}

/// Index of the first line, from `j` on, that lists `pid`.
pub open spec fn first_line(lines: Seq<Line>, pid: Seq<char>, j: int) -> Option<int>
    decreases lines.len() - j,
{
    if j >= lines.len() || j < 0 {
        None
    } else if lists(lines[j], pid) {
        Some(j)
    } else {
        first_line(lines, pid, j + 1)
    }
}

/// Index of the first build, from `j` on, of line `name` that records
/// `fw_version`.
pub open spec fn first_exact(builds: Seq<StockBuild>, name: Seq<char>, fw_version: i32, j: int) -> Option<int>
    decreases builds.len() - j,
{
    if j >= builds.len() || j < 0 {
        None
    } else if builds[j].line@ == name && builds[j].fw_versions@.contains(fw_version) {
        Some(j)
    } else {
        first_exact(builds, name, fw_version, j + 1)
    }
}

/// `a` comes before `b` in code point order (which is the byte order of
/// their UTF-8 text, the order of `String`).
pub open spec fn text_less(a: Seq<char>, b: Seq<char>) -> bool
    decreases a.len(),
{
    if a.len() == 0 {
        b.len() > 0
    } else if b.len() == 0 {
        false
    } else if a[0] != b[0] {
        (a[0] as u32) < (b[0] as u32)
    } else {
        text_less(a.drop_first(), b.drop_first())
    }
}

/// The newest build of line `name` among builds `j..`, given the best so
/// far: the one with the greatest id, the last of equal ones.
pub open spec fn newest_from(builds: Seq<StockBuild>, name: Seq<char>, j: int, best: Option<int>) -> Option<int>
    decreases builds.len() - j,
{
    if j >= builds.len() || j < 0 {
        best
    } else if builds[j].line@ == name && (best is None || !text_less(builds[j].id@, builds[best->0].id@)) {
        newest_from(builds, name, j + 1, Some(j))
    } else {
        newest_from(builds, name, j + 1, best)
    }
}

proof fn lemma_newest_bound(builds: Seq<StockBuild>, name: Seq<char>, j: int, best: Option<int>)
    requires
        best matches Some(b) ==> 0 <= b < builds.len(),
    ensures
        newest_from(builds, name, j, best) matches Some(b) ==> 0 <= b < builds.len(),
    decreases builds.len() - j,
{
    if !(j >= builds.len() || j < 0) {
        if builds[j].line@ == name && (best is None || !text_less(builds[j].id@, builds[best->0].id@)) {
            lemma_newest_bound(builds, name, j + 1, Some(j));
        } else {
            lemma_newest_bound(builds, name, j + 1, best);
        }
    }
}

proof fn lemma_first_line_bound(lines: Seq<Line>, pid: Seq<char>, j: int)
    ensures
        first_line(lines, pid, j) matches Some(b) ==> 0 <= b < lines.len(),
    decreases lines.len() - j,
{
    if !(j >= lines.len() || j < 0) {
        lemma_first_line_bound(lines, pid, j + 1);
    }
}

proof fn lemma_first_exact_bound(builds: Seq<StockBuild>, name: Seq<char>, fw: i32, j: int)
    ensures
        first_exact(builds, name, fw, j) matches Some(b) ==> 0 <= b < builds.len(),
    decreases builds.len() - j,
{
    if !(j >= builds.len() || j < 0) {
        lemma_first_exact_bound(builds, name, fw, j + 1);
    }
}

fn lists_exec(l: &Line, pid: &String) -> (r: bool)
    ensures
        r == lists(*l, pid@),
{
    let mut k: usize = 0;
    while k < l.product_ids.len()
        invariant
            0 <= k <= l.product_ids@.len(),
            forall|t: int| 0 <= t < k ==> #[trigger] l.product_ids@[t]@ != pid@,
        decreases l.product_ids@.len() - k,
    {
        if l.product_ids[k] == *pid {
            return true;
        }
        k = k + 1;
    }
    false
}

fn line_index(lib: &StockLibrary, product_id: &str) -> (r: Option<usize>)
    ensures
        r matches Some(j) ==> first_line(lib.lines@, product_id@, 0) == Some(j as int) && j < lib.lines@.len(),
        r is None ==> first_line(lib.lines@, product_id@, 0) is None,
{
    proof {
        lemma_first_line_bound(lib.lines@, product_id@, 0);
    }
    let pid = product_id.to_owned();
    let mut j: usize = 0;
    while j < lib.lines.len()
        invariant
            0 <= j <= lib.lines@.len(),
            pid@ == product_id@,
            first_line(lib.lines@, product_id@, 0) == first_line(lib.lines@, product_id@, j as int),
        decreases lib.lines@.len() - j,
    {
        if lists_exec(&lib.lines[j], &pid) {
            return Some(j);
        }
        j = j + 1;
    }
    None
}

/// The first line that lists `product_id`.
pub fn line_for_product<'a>(lib: &'a StockLibrary, product_id: &str) -> (r: Option<&'a Line>)
    ensures
        match first_line(lib.lines@, product_id@, 0) {
            Some(j) => r == Some(&lib.lines@[j]),
            None => r is None,
        },
{
    match line_index(lib, product_id) {
        Some(j) => {
            Some(&lib.lines[j])
        },
        None => None,
    }
}

fn text_less_exec(a: &String, b: &String) -> (r: bool)
    ensures
        r == text_less(a@, b@),
{
    let x = chars_of(a.as_str());
    let y = chars_of(b.as_str());
    let mut i: usize = 0;
    assert(x@.subrange(0, x@.len() as int) =~= x@);
    assert(y@.subrange(0, y@.len() as int) =~= y@);
    while i < x.len() && i < y.len() && x[i] == y[i]
        invariant
            0 <= i <= x@.len(),
            i <= y@.len(),
            text_less(x@, y@) == text_less(x@.subrange(i as int, x@.len() as int), y@.subrange(i as int, y@.len() as int)),
        decreases x@.len() - i,
    {
        assert(x@.subrange(i as int, x@.len() as int).drop_first() =~= x@.subrange(i + 1, x@.len() as int));
        assert(y@.subrange(i as int, y@.len() as int).drop_first() =~= y@.subrange(i + 1, y@.len() as int));
        i = i + 1;
    }
    if i == x.len() {
        i < y.len()
    } else if i == y.len() {
        false
    } else {
        (x[i] as u32) < (y[i] as u32)
    }
}

fn contains_version(v: &Vec<i32>, fw: i32) -> (r: bool)
    ensures
        r == v@.contains(fw),
{
    let mut k: usize = 0;
    while k < v.len()
        invariant
            0 <= k <= v@.len(),
            forall|t: int| 0 <= t < k ==> v@[t] != fw,
        decreases v@.len() - k,
    {
        if v[k] == fw {
            assert(v@[k as int] == fw);
            return true;
        }
        k = k + 1;
    }
    false
}

/// Pick the best stock build for a device. Unknown product ID: `(NoLine,
/// None)`. Known line: the first build of the line whose `fw_versions`
/// holds `fw_version` (`ExactVersion`); otherwise the newest build of the
/// line by id (`LineOnly`), the `af_YYMMDD` ids sorting by date.
pub fn match_build<'a>(lib: &'a StockLibrary, product_id: &str, fw_version: i32) -> (r: (MatchKind, Option<&'a StockBuild>))
    ensures
        match first_line(lib.lines@, product_id@, 0) {
            None => r == (MatchKind::NoLine, None::<&StockBuild>),
            Some(j) => {
                let name = lib.lines@[j].name@;
                match first_exact(lib.builds@, name, fw_version, 0) {
                    Some(b) => r == (MatchKind::ExactVersion, Some(&lib.builds@[b])),
                    None => r.0 == MatchKind::LineOnly && match newest_from(lib.builds@, name, 0, None) {
                        Some(b) => r.1 == Some(&lib.builds@[b]),
                        None => r.1 is None,
                    },
                }
            },
        },
{
    let j = match line_index(lib, product_id) {
        Some(j) => j,
        None => {
            return (MatchKind::NoLine, None);
        },
    };
    let name = &lib.lines[j].name;
    let mut k: usize = 0;
    while k < lib.builds.len()
        invariant
            0 <= k <= lib.builds@.len(),
            j < lib.lines@.len(),
            first_line(lib.lines@, product_id@, 0) == Some(j as int),
            *name == lib.lines@[j as int].name,
            first_exact(lib.builds@, name@, fw_version, 0) == first_exact(lib.builds@, name@, fw_version, k as int),
        decreases lib.builds@.len() - k,
    {
        let b = &lib.builds[k];
        if b.line == *name && contains_version(&b.fw_versions, fw_version) {
            return (MatchKind::ExactVersion, Some(b));
        }
        k = k + 1;
    }
    proof {
        lemma_first_exact_bound(lib.builds@, name@, fw_version, 0);
        lemma_newest_bound(lib.builds@, name@, 0, None);
    }
    let mut best: Option<usize> = None;
    let mut k: usize = 0;
    while k < lib.builds.len()
        invariant
            0 <= k <= lib.builds@.len(),
            best matches Some(b) ==> b < k,
            j < lib.lines@.len(),
            first_line(lib.lines@, product_id@, 0) == Some(j as int),
            *name == lib.lines@[j as int].name,
            newest_from(lib.builds@, name@, 0, None) == newest_from(
                lib.builds@,
                name@,
                k as int,
                match best { Some(b) => Some(b as int), None => None },
            ),
        decreases lib.builds@.len() - k,
    {
        let b = &lib.builds[k];
        if b.line == *name {
            let newer = match best {
                None => true,
                Some(bi) => !text_less_exec(&b.id, &lib.builds[bi].id),
            };
            if newer {
                best = Some(k);
            }
        }
        k = k + 1;
    }
    match best {
        Some(bi) => (MatchKind::LineOnly, Some(&lib.builds[bi])),
        None => (MatchKind::LineOnly, None),
    }
}

} // verus!
