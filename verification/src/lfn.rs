//! Path parsing and name resolution.
//!
//! A path is split into components at `/`. Each component becomes an
//! `Fname`: the component's bytes plus the derived 11-byte 8.3 short name
//! (upper-cased, space-padded, reserved characters replaced by `_`, and a
//! `~1` marker when the component does not fit 8.3). Resolution walks a
//! directory's records and matches either a complete long-name run
//! (case-insensitive, window by window) or, for a component that fits 8.3
//! exactly, the generated short name.

use vstd::prelude::*;

use crate::device::SectorRead;
use crate::dir_entry::{
    spec_checksum_prefix, DirEntry, DOT, LFN, SFN, SPACE,
};
use crate::dir_iter::{DirectoryIterator, MAX_DIR_STEPS};
use crate::errors::FatError;
use crate::file::{File, O_ACCESS_MODE, O_RDONLY};
use crate::volume::{spec_cursor_ok, Volume};

verus! {

pub const DIR_SEPARATOR: u8 = 0x2f;
pub const MAX_PATHNAME_LEN: usize = 256;
pub const MAX_LFN_LEN: usize = 255;

pub const FNAME_FLAG_TRUNCATED: u8 = 0x01;
pub const FNAME_FLAG_MIXED_CASE: u8 = 0x02;
pub const FNAME_FLAG_LC_BASE: u8 = 0x08;
pub const FNAME_FLAG_LC_EXT: u8 = 0x10;

/// Characters FAT forbids inside a generated 8.3 short name; they are
/// replaced with `_`.
pub open spec fn spec_sfn_reserved(c: u8) -> bool {
    c < 0x20 || c > 0x7f || c == 0x5b || c == 0x5c || c == 0x5d || c == 0x7c || (0x2a <= c && c
        <= 0x2f && c != 0x2d) || (0x3a <= c && c <= 0x3f)
}

#[verifier::when_used_as_spec(spec_sfn_reserved)]
pub fn sfn_reserved_char(c: u8) -> (r: bool)
    ensures
        r == spec_sfn_reserved(c),
{
    c < 0x20 || c > 0x7f || c == 0x5b || c == 0x5c || c == 0x5d || c == 0x7c || (0x2a <= c && c
        <= 0x2f && c != 0x2d) || (0x3a <= c && c <= 0x3f)
}

/// Characters a long filename may not contain.
pub open spec fn spec_lfn_reserved(c: u8) -> bool {
    c < 0x20 || c == 0x22 || c == 0x2a || c == 0x2f || c == 0x3a || c == 0x3c || c == 0x3e || c
        == 0x3f || c == 0x5c || c == 0x7c
}

#[verifier::when_used_as_spec(spec_lfn_reserved)]
pub fn lfn_reserved_char(c: u8) -> (r: bool)
    ensures
        r == spec_lfn_reserved(c),
{
    c < 0x20 || c == 0x22 || c == 0x2a || c == 0x2f || c == 0x3a || c == 0x3c || c == 0x3e || c
        == 0x3f || c == 0x5c || c == 0x7c
}

/// ASCII upper-casing.
pub open spec fn spec_upper(c: u8) -> u8 {
    if 0x61 <= c && c <= 0x7a {
        (c - 32) as u8
    } else {
        c
    }
}

/// A character a plain 8.3 base name may hold: not a dot or space, not
/// reserved, and not lowercase.
pub open spec fn spec_plain_base_char(c: u8) -> bool {
    c != DOT && c != SPACE && !spec_sfn_reserved(c) && !(0x61 <= c <= 0x7a)
}

/// A component that is already a plain 8.3 base without extension: at
/// most eight such characters. Such a name passes into the short name
/// verbatim.
pub open spec fn spec_plain_base(path: Seq<u8>, end: int) -> bool {
    &&& 1 <= end <= 8
    &&& forall|i: int| 0 <= i < end ==> spec_plain_base_char(#[trigger] path[i])
}

/// Index of the first byte at or after `i` (and before `end`) that is
/// not a dot.
pub open spec fn spec_leading_dots(path: Seq<u8>, i: int, end: int) -> int
    decreases end - i,
{
    if i < 0 || i >= end || path[i] != DOT {
        i
    } else {
        spec_leading_dots(path, i + 1, end)
    }
}

/// Scans backward from `i` for a dot, stopping at `lo`: the 8.3
/// extension boundary.
pub open spec fn spec_last_dot(path: Seq<u8>, i: int, lo: int) -> int
    decreases i - lo,
{
    if i <= lo || path[i] == DOT {
        i
    } else {
        spec_last_dot(path, i - 1, lo)
    }
}

/// Intermediate state of the 8.3 short-name generator: the name bytes
/// collected so far, the write cursor and current field boundary, the
/// recorded truncation index, the read cursor, the per-part lowercase
/// and non-lowercase sightings, whether the component still fits 8.3,
/// whether the extension field is being filled, and whether collection
/// has finished.
pub ghost struct NameGen {
    pub sfn: Seq<u8>,
    pub sfn_pos: int,
    pub sfn_end: int,
    pub trunc_pos: int,
    pub pos: int,
    pub lc_parts: u8,
    pub uc_parts: u8,
    pub is83: bool,
    pub in_ext: bool,
    pub done: bool,
}

/// The generator's starting state: a space-filled name, the read cursor
/// past any leading dots (which a short name cannot keep), the write
/// cursor at the base field.
pub open spec fn spec_gen_init(path: Seq<u8>, end: int) -> NameGen {
    let lead = spec_leading_dots(path, 0, end);
    NameGen {
        sfn: Seq::new(11, |i: int| SPACE),
        sfn_pos: 0,
        sfn_end: 7,
        trunc_pos: 0,
        pos: lead,
        lc_parts: 0,
        uc_parts: 0,
        is83: lead == 0,
        in_ext: false,
        done: false,
    }
}

/// One generator step over the character at the read cursor. The last
/// dot `ld` switches to the extension field; other dots and spaces are
/// dropped; reserved characters become `_`; lowercase is raised and the
/// case sightings recorded; a full field either skips ahead to the
/// extension or ends collection.
pub open spec fn spec_gen_step(g: NameGen, path: Seq<u8>, end: int, ld: int) -> NameGen {
    if g.done || g.pos >= end {
        g
    } else {
        let c0 = path[g.pos];
        if c0 == DOT && g.pos == ld {
            NameGen { sfn_pos: 8, sfn_end: 10, in_ext: true, pos: g.pos + 1, ..g }
        } else if c0 == SPACE || c0 == DOT {
            NameGen { is83: false, pos: g.pos + 1, ..g }
        } else {
            let c1 = if spec_sfn_reserved(c0) {
                0x5fu8
            } else {
                c0
            };
            let ok83 = if spec_sfn_reserved(c0) {
                false
            } else {
                g.is83
            };
            if g.sfn_pos > g.sfn_end {
                if !g.in_ext && ld > g.pos {
                    NameGen { is83: false, pos: ld, ..g }
                } else {
                    NameGen { is83: false, done: true, pos: g.pos + 1, ..g }
                }
            } else {
                let lower = 0x61 <= c1 && c1 <= 0x7a;
                let c2 = if lower {
                    (c1 - 32) as u8
                } else {
                    c1
                };
                let part = if g.in_ext {
                    FNAME_FLAG_LC_EXT
                } else {
                    FNAME_FLAG_LC_BASE
                };
                NameGen {
                    sfn: g.sfn.update(g.sfn_pos, c2),
                    sfn_pos: g.sfn_pos + 1,
                    trunc_pos: if g.sfn_pos + 1 < 7 {
                        g.sfn_pos + 1
                    } else {
                        g.trunc_pos
                    },
                    lc_parts: if lower {
                        g.lc_parts | part
                    } else {
                        g.lc_parts
                    },
                    uc_parts: if lower {
                        g.uc_parts
                    } else {
                        g.uc_parts | part
                    },
                    is83: ok83,
                    pos: g.pos + 1,
                    ..g
                }
            }
        }
    }
}

/// The generator state after `k` steps.
pub open spec fn spec_gen_run(path: Seq<u8>, end: int, ld: int, k: nat) -> NameGen
    decreases k,
{
    if k == 0 {
        spec_gen_init(path, end)
    } else {
        spec_gen_step(spec_gen_run(path, end, ld, (k - 1) as nat), path, end, ld)
    }
}

/// The extension boundary the generator works with.
pub open spec fn spec_gen_ld(path: Seq<u8>, end: int) -> int {
    spec_last_dot(path, end - 1, spec_leading_dots(path, 0, end))
}

/// The generator's final state: the read cursor advances every step, so
/// `end` steps always finish.
pub open spec fn spec_gen_final(path: Seq<u8>, end: int) -> NameGen {
    spec_gen_run(path, end, spec_gen_ld(path, end), end as nat)
}

/// The flag byte the generator settles on: truncated when the component
/// does not fit 8.3, else mixed-case or the per-part lowercase bits.
pub open spec fn spec_name_flags(path: Seq<u8>, end: int) -> u8 {
    let g = spec_gen_final(path, end);
    if g.is83 {
        if g.lc_parts != g.uc_parts {
            FNAME_FLAG_MIXED_CASE
        } else {
            g.lc_parts & (FNAME_FLAG_LC_BASE | FNAME_FLAG_LC_EXT)
        }
    } else {
        FNAME_FLAG_TRUNCATED
    }
}

/// The 11 generated short-name bytes; a truncated component carries the
/// `~1` marker at the recorded truncation index.
pub open spec fn spec_name_sfn(path: Seq<u8>, end: int) -> Seq<u8> {
    let g = spec_gen_final(path, end);
    if g.is83 {
        g.sfn
    } else {
        g.sfn.update(g.trunc_pos, 0x7eu8).update(g.trunc_pos + 1, 0x31u8)
    }
}

/// Where the `~1` marker goes when the component is truncated.
pub open spec fn spec_name_trunc_pos(path: Seq<u8>, end: int) -> int {
    spec_gen_final(path, end).trunc_pos
}

/// A finished generator state stays put under further steps.
pub proof fn lemma_gen_stable(path: Seq<u8>, end: int, ld: int, k: nat, j: nat)
    requires
        k <= j,
        spec_gen_run(path, end, ld, k).done || spec_gen_run(path, end, ld, k).pos >= end,
    ensures
        spec_gen_run(path, end, ld, j) == spec_gen_run(path, end, ld, k),
    decreases j,
{
    if j > k {
        lemma_gen_stable(path, end, ld, k, (j - 1) as nat);
    }
}

/// One parsed path component: its bytes, the derived short name, the case
/// and truncation flags, and where the `~1` marker sits when truncated.
pub struct Fname {
    pub path: Vec<u8>,
    pub flags: u8,
    pub trunc_pos: usize,
    pub sfn: [u8; 11],
}

impl Fname {
    /// Derives the 8.3 short name for the component `path[0 .. path_end]`.
    ///
    /// The component must be non-empty printable ASCII and must not end
    /// in a dot or space (the parser trims those).
    #[verifier::loop_isolation(false)]
    pub fn new(path: &[u8], path_end: usize) -> (f: Fname)
        requires
            1 <= path_end <= path@.len(),
            path_end <= MAX_LFN_LEN,
            forall|i: int| 0 <= i < path_end ==> 0x20 <= #[trigger] path@[i] <= 0x7f,
            path@[path_end - 1] != DOT && path@[path_end - 1] != SPACE,
        ensures
            f.path@ == path@.subrange(0, path_end as int),
            f.trunc_pos + 1 <= 7,
            // The generated name, flag byte and truncation index are
            // exactly what the generator model derives from the bytes.
            f.sfn@ == spec_name_sfn(path@, path_end as int),
            f.flags == spec_name_flags(path@, path_end as int),
            f.trunc_pos == spec_name_trunc_pos(path@, path_end as int),
            f.flags & FNAME_FLAG_TRUNCATED != 0 <==> !spec_gen_final(path@, path_end as int).is83,
            f.flags & FNAME_FLAG_TRUNCATED != 0 ==> f.sfn@[f.trunc_pos as int] == 0x7e
                && f.sfn@[f.trunc_pos + 1] == 0x31,
            // A name that already fits is re-encoded verbatim, space
            // padded, and is never marked truncated.
            spec_plain_base(path@, path_end as int) ==> {
                &&& f.flags & FNAME_FLAG_TRUNCATED == 0
                &&& (forall|i: int| 0 <= i < path_end ==> f.sfn@[i] == path@[i])
                &&& (forall|i: int| path_end <= i < 11 ==> f.sfn@[i] == SPACE)
            },
    {
        let ghost plain = spec_plain_base(path@, path_end as int);
        let mut flags: u8 = 0;
        let mut trunc_pos: usize = 0;
        let mut sfn: [u8; 11] = [SPACE; 11];
        let mut sfn_pos: usize = 0;
        let mut sfn_end: usize = 7;
        let mut path_pos: usize = 0;
        let mut last_dot_pos: usize = path_end - 1;

        let mut lc_parts: u8 = 0;
        let mut uc_parts: u8 = 0;
        // Whether the component as given is already a valid 8.3 name.
        let mut is83 = true;
        let mut in_ext = false;

        let ghost end = path_end as int;
        // A short name cannot start with a dot; skip leading dots. The
        // component's last byte is not a dot, so this stays in bounds.
        while path[path_pos] == DOT
            invariant
                path_pos < path_end <= path@.len(),
                path@[path_end - 1] != DOT,
                plain ==> path_pos == 0 && is83,
                is83 == (path_pos == 0),
                spec_leading_dots(path@, path_pos as int, end) == spec_leading_dots(path@, 0, end),
            decreases path_end - path_pos,
        {
            proof {
                if plain {
                    assert(spec_plain_base_char(path@[0]));
                }
            }
            path_pos += 1;
            is83 = false;
        }

        proof {
            assert(path_pos as int == spec_leading_dots(path@, 0, end));
        }
        let ghost lead = path_pos as int;

        // Find the last dot: the extension boundary.
        while path[last_dot_pos] != DOT && last_dot_pos > path_pos
            invariant
                path_pos <= last_dot_pos < path_end <= path@.len(),
                path_pos as int == lead,
                spec_last_dot(path@, last_dot_pos as int, lead) == spec_last_dot(
                    path@,
                    end - 1,
                    lead,
                ),
            decreases last_dot_pos,
        {
            last_dot_pos -= 1;
        }
        proof {
            assert(last_dot_pos as int == spec_gen_ld(path@, end));
            if plain {
                assert(spec_plain_base_char(path@[last_dot_pos as int]));
            }
        }
        let ghost ld = last_dot_pos as int;
        let ghost mut k: nat = 0;

        let mut done = false;
        while path_pos < path_end && !done
            invariant
                path_end <= path@.len(),
                last_dot_pos < path_end,
                sfn_end == 7 || sfn_end == 10,
                sfn_pos <= sfn_end + 1,
                trunc_pos <= 6,
                sfn@.len() == 11,
                forall|i: int| 0 <= i < path_end ==> 0x20 <= #[trigger] path@[i] <= 0x7f,
                path_pos <= path_end,
                plain ==> !done,
                plain ==> is83 && !in_ext && sfn_end == 7 && last_dot_pos == 0 && lc_parts == 0
                    && sfn_pos == path_pos,
                plain ==> forall|i: int| 0 <= i < sfn_pos ==> sfn@[i] == path@[i],
                plain ==> forall|i: int| sfn_pos <= i < 11 ==> sfn@[i] == SPACE,
                k <= path_pos,
                ({
                    let g = spec_gen_run(path@, end, ld, k);
                    &&& g.sfn == sfn@
                    &&& g.sfn_pos == sfn_pos as int
                    &&& g.sfn_end == sfn_end as int
                    &&& g.trunc_pos == trunc_pos as int
                    &&& g.pos == path_pos as int
                    &&& g.lc_parts == lc_parts
                    &&& g.uc_parts == uc_parts
                    &&& g.is83 == is83
                    &&& g.in_ext == in_ext
                    &&& g.done == done
                }),
            decreases path_end - path_pos,
        {
            let ghost gpre = spec_gen_run(path@, end, ld, k);
            proof {
                if plain {
                    assert(spec_plain_base_char(path@[path_pos as int]));
                }
            }
            let c0 = path[path_pos];
            if c0 == DOT && path_pos == last_dot_pos {
                // Switch to the three-character extension field.
                sfn_pos = 8;
                sfn_end = 10;
                in_ext = true;
            } else if c0 == SPACE || c0 == DOT {
                // Embedded spaces and extra dots are dropped.
                is83 = false;
            } else {
                let mut c = c0;
                if sfn_reserved_char(c) {
                    is83 = false;
                    c = 0x5f;
                }
                if sfn_pos > sfn_end {
                    is83 = false;
                    if in_ext || path_pos > last_dot_pos {
                        // The base or extension is full and nothing is
                        // left to collect.
                        done = true;
                    } else if last_dot_pos > path_pos {
                        // Base full: skip ahead to the extension.
                        path_pos = last_dot_pos - 1;
                    } else {
                        done = true;
                    }
                } else {
                    if 0x61 <= c && c <= 0x7a {
                        c -= 32;
                        if in_ext {
                            lc_parts = lc_parts | FNAME_FLAG_LC_EXT;
                        } else {
                            lc_parts = lc_parts | FNAME_FLAG_LC_BASE;
                        }
                    } else {
                        if in_ext {
                            uc_parts = uc_parts | FNAME_FLAG_LC_EXT;
                        } else {
                            uc_parts = uc_parts | FNAME_FLAG_LC_BASE;
                        }
                    }
                    sfn[sfn_pos] = c;
                    sfn_pos += 1;
                    if sfn_pos < 7 {
                        trunc_pos = sfn_pos;
                    }
                }
            }
            path_pos += 1;
            proof {
                k = k + 1;
                assert(spec_gen_run(path@, end, ld, k) == spec_gen_step(gpre, path@, end, ld));
            }
        }
        proof {
            lemma_gen_stable(path@, end, ld, k, end as nat);
        }

        if is83 {
            // Only the two lowercase bits can be set in the case flags.
            flags = if lc_parts != uc_parts {
                FNAME_FLAG_MIXED_CASE
            } else {
                lc_parts & (FNAME_FLAG_LC_BASE | FNAME_FLAG_LC_EXT)
            };
        } else {
            flags = FNAME_FLAG_TRUNCATED;
            sfn[trunc_pos] = 0x7e;
            sfn[trunc_pos + 1] = 0x31;
        }
        proof {
            let l = lc_parts;
            assert(0x02u8 & 0x01u8 == 0 && (l & (0x08u8 | 0x10u8)) & 0x01u8 == 0 && 0x01u8 & 0x01u8
                != 0) by (bit_vector);
        }

        let mut component: Vec<u8> = Vec::new();
        let mut k: usize = 0;
        while k < path_end
            invariant
                k <= path_end <= path@.len(),
                component@.len() == k,
                forall|i: int| 0 <= i < k ==> component@[i] == path@[i],
            decreases path_end - k,
        {
            component.push(path[k]);
            k += 1;
        }
        proof {
            assert(component@ =~= path@.subrange(0, path_end as int));
        }
        Fname { path: component, flags, trunc_pos, sfn }
    }

    /// The rotate-and-add checksum over the component bytes.
    pub fn checksum(&self) -> (r: u8)
        ensures
            r == spec_checksum_prefix(self.path@, self.path@.len() as nat),
    {
        let mut sum: u8 = 0;
        let mut i: usize = 0;
        while i < self.path.len()
            invariant
                i <= self.path@.len(),
                sum == spec_checksum_prefix(self.path@, i as nat),
            decreases self.path@.len() - i,
        {
            sum = ((sum & 1) << 7 | sum >> 1).wrapping_add(self.path[i]);
            i += 1;
        }
        sum
    }

    /// How many long-name fragments the component occupies on disk: 13
    /// UTF-16 code units per fragment.
    pub fn lfn_entry_count(&self) -> (r: usize)
        requires
            self.path@.len() <= MAX_LFN_LEN,
        ensures
            r == (self.path@.len() + 12) / 13,
    {
        (self.path.len() + 12) / 13
    }
}

/// Whether fragment `lfn` (1-indexed sequence `seq`) matches its
/// 13-character window of the component, case-insensitively; a component
/// that ends inside the window must be terminated by a zero code unit.
pub open spec fn spec_segment_matches(lfn: LFN, path: Seq<u8>, seq: int, i: int) -> bool
    decreases 13 - i,
{
    if i >= 13 {
        true
    } else {
        let pos = (seq - 1) * 13 + i;
        if pos > path.len() {
            true
        } else if pos == path.len() {
            lfn.spec_get_char(i) == 0
        } else if spec_upper(lfn.spec_get_char(i)) != spec_upper(path[pos]) {
            false
        } else {
            spec_segment_matches(lfn, path, seq, i + 1)
        }
    }
}

/// Compares one long-name fragment against its window of the component.
pub fn compare_lfn_name_segment(lfn: &LFN, fname: &Fname) -> (r: bool)
    requires
        1 <= lfn.spec_sequence_num() <= 31,
        fname.path@.len() <= MAX_LFN_LEN,
    ensures
        r == spec_segment_matches(*lfn, fname.path@, lfn.spec_sequence_num() as int, 0),
{
    let seq = lfn.sequence_num();
    let mut i: usize = 0;
    while i < 13
        invariant
            i <= 13,
            1 <= seq <= 31,
            seq == lfn.spec_sequence_num(),
            fname.path@.len() <= MAX_LFN_LEN,
            spec_segment_matches(*lfn, fname.path@, seq as int, 0) == spec_segment_matches(
                *lfn,
                fname.path@,
                seq as int,
                i as int,
            ),
        decreases 13 - i,
    {
        let pos = (seq - 1) * 13 + i;
        if pos > fname.path.len() {
            return true;
        }
        let c = lfn.get_char(i);
        if pos == fname.path.len() {
            return c == 0;
        }
        let cu = if 0x61 <= c && c <= 0x7a {
            c - 32
        } else {
            c
        };
        let f = fname.path[pos];
        let fu = if 0x61 <= f && f <= 0x7a {
            f - 32
        } else {
            f
        };
        if cu != fu {
            return false;
        }
        i += 1;
    }
    true
}

/// Index where the component scan stops: the path's end, a NUL byte or a
/// separator, whichever comes first from `i`.
pub open spec fn spec_scan_stop(path: Seq<u8>, i: int) -> int
    decreases path.len() - i,
{
    if i < 0 || i >= path.len() || path[i] == 0 || path[i] == DIR_SEPARATOR {
        i
    } else {
        spec_scan_stop(path, i + 1)
    }
}

/// Length of the scanned component once trailing dots and spaces are
/// trimmed away.
pub open spec fn spec_trim_end(path: Seq<u8>, i: int) -> int
    decreases i,
{
    if i <= 0 {
        0
    } else if path[i - 1] == DOT || path[i - 1] == SPACE {
        spec_trim_end(path, i - 1)
    } else {
        i
    }
}

/// The scan never stops before where it starts.
pub proof fn lemma_scan_stop_ge(path: Seq<u8>, i: int)
    ensures
        spec_scan_stop(path, i) >= i,
    decreases path.len() - i,
{
    if !(i < 0 || i >= path.len() || path[i] == 0 || path[i] == DIR_SEPARATOR) {
        lemma_scan_stop_ge(path, i + 1);
    }
}

/// A forbidden byte — beyond ASCII or in the long-name reserved set —
/// occurs before the scan stops.
pub open spec fn spec_component_malformed(path: Seq<u8>) -> bool {
    exists|j: int|
        0 <= j < spec_scan_stop(path, 0) && ((#[trigger] path[j]) >= 0x80 || spec_lfn_reserved(
            path[j],
        ))
}

/// Exactly when the component parser rejects a path.
pub open spec fn spec_parse_rejects(path: Seq<u8>) -> bool {
    ||| spec_component_malformed(path)
    ||| spec_trim_end(path, spec_scan_stop(path, 0)) == 0
    ||| spec_trim_end(path, spec_scan_stop(path, 0)) > MAX_LFN_LEN
}

/// Index of the next component: past the scanned bytes and any run of
/// separators and spaces.
pub open spec fn spec_resume(path: Seq<u8>, i: int) -> int
    decreases path.len() - i,
{
    if i < 0 || i >= path.len() || path[i] == 0 || !(path[i] == SPACE || path[i]
        == DIR_SEPARATOR) {
        i
    } else {
        spec_resume(path, i + 1)
    }
}

/// Index of the first byte past the path's leading separators.
pub open spec fn spec_leading_separators(path: Seq<u8>, i: int) -> int
    decreases path.len() - i,
{
    if i < 0 || i >= path.len() || path[i] != DIR_SEPARATOR {
        i
    } else {
        spec_leading_separators(path, i + 1)
    }
}

/// Splits the next path component off `path`.
///
/// Accepts printable ASCII except the long-name reserved set, trims
/// trailing dots and spaces, and returns the component together with the
/// index where the next component starts. Parsing fails exactly when a
/// forbidden byte occurs or the trimmed component is empty or over-long.
#[verifier::loop_isolation(false)]
pub fn parse_path_name(path: &[u8]) -> (r: Result<(Fname, usize), FatError>)
    ensures
        (r matches Ok(out) ==> {
            &&& 1 <= out.0.path@.len() <= MAX_LFN_LEN
            &&& out.0.path@.len() <= path@.len()
            &&& out.0.path@ == path@.subrange(0, out.0.path@.len() as int)
            &&& out.0.path@[out.0.path@.len() - 1] != DOT
            &&& out.0.path@[out.0.path@.len() - 1] != SPACE
            &&& (forall|i: int|
                0 <= i < out.0.path@.len() ==> 0x20 <= out.0.path@[i] <= 0x7f
                    && !spec_lfn_reserved(#[trigger] out.0.path@[i]))
            &&& out.0.path@.len() == spec_trim_end(path@, spec_scan_stop(path@, 0))
            &&& out.1 == spec_resume(path@, spec_scan_stop(path@, 0))
            &&& out.0.path@.len() <= out.1 <= path@.len()
            &&& out.0.trunc_pos + 1 <= 7
            &&& out.0.sfn@ == spec_name_sfn(path@, out.0.path@.len() as int)
            &&& out.0.flags == spec_name_flags(path@, out.0.path@.len() as int)
            &&& out.0.trunc_pos == spec_name_trunc_pos(path@, out.0.path@.len() as int)
            &&& (out.0.flags & FNAME_FLAG_TRUNCATED != 0 <==> !spec_gen_final(
                path@,
                out.0.path@.len() as int,
            ).is83)
            &&& (out.0.flags & FNAME_FLAG_TRUNCATED != 0 ==> out.0.sfn@[out.0.trunc_pos as int]
                == 0x7e && out.0.sfn@[out.0.trunc_pos + 1] == 0x31)
            &&& (spec_plain_base(out.0.path@, out.0.path@.len() as int) ==> {
                &&& out.0.flags & FNAME_FLAG_TRUNCATED == 0
                &&& (forall|i: int| 0 <= i < out.0.path@.len() ==> out.0.sfn@[i] == out.0.path@[i])
                &&& (forall|i: int| out.0.path@.len() <= i < 11 ==> out.0.sfn@[i] == SPACE)
            })
        }),
        r is Err <==> spec_parse_rejects(path@),
        (r matches Err(e) ==> e == FatError::ParsePathError),
{
    let n = path.len();
    let mut pos: usize = 0;
    let mut end: usize = 0;
    while pos < n && path[pos] > 0 && path[pos] != DIR_SEPARATOR
        invariant
            end <= pos <= n == path@.len(),
            end > 0 ==> path@[end - 1] != DOT && path@[end - 1] != SPACE,
            spec_scan_stop(path@, pos as int) == spec_scan_stop(path@, 0),
            end == spec_trim_end(path@, pos as int),
            forall|i: int|
                0 <= i < pos ==> 0x20 <= path@[i] <= 0x7f && !spec_lfn_reserved(
                    #[trigger] path@[i],
                ),
        decreases n - pos,
    {
        if path[pos] >= 0x80 || lfn_reserved_char(path[pos]) {
            proof {
                lemma_scan_stop_ge(path@, pos + 1);
                assert(spec_scan_stop(path@, pos as int) == spec_scan_stop(path@, pos + 1));
                assert(0 <= pos < spec_scan_stop(path@, 0) && ((path@[pos as int]) >= 0x80
                    || spec_lfn_reserved(path@[pos as int])));
            }
            return Err(FatError::ParsePathError);
        }
        if path[pos] != DOT && path[pos] != SPACE {
            end = pos + 1;
        }
        pos += 1;
    }
    proof {
        // The loop stopped exactly where the scan stops.
        assert(spec_scan_stop(path@, pos as int) == pos);
    }

    if end == 0 || end > MAX_LFN_LEN {
        return Err(FatError::ParsePathError);
    }

    // We stopped on a separator (or the end); swallow it and any padding
    // so the caller resumes at the next component.
    let ghost stop = pos as int;
    while pos < n && path[pos] > 0 && (path[pos] == SPACE || path[pos] == DIR_SEPARATOR)
        invariant
            end <= pos <= n == path@.len(),
            spec_resume(path@, pos as int) == spec_resume(path@, stop),
        decreases n - pos,
    {
        pos += 1;
    }
    proof {
        assert(spec_resume(path@, pos as int) == pos);
    }

    let f = Fname::new(path, end);
    proof {
        if spec_plain_base(f.path@, f.path@.len() as int) {
            assert forall|i: int| 0 <= i < end implies spec_plain_base_char(#[trigger] path@[i]) by {
                assert(f.path@[i] == path@[i]);
                assert(spec_plain_base_char(f.path@[i]));
            }
        }
    }
    Ok((f, pos))
}

impl Volume {
    /// Scans `dir` for a record matching `fname` and opens it.
    ///
    /// A match is either a complete long-name run whose fragments all
    /// match the component case-insensitively and whose anchor follows,
    /// or, for a component that already fits 8.3, a bare short-name
    /// record equal to the generated short name. `FileNotFound` when the
    /// directory ends without a match.
    #[verifier::loop_isolation(false)]
    pub fn open_file_from_lfn<D: SectorRead>(
        &self,
        dev: &mut D,
        dir: &mut File,
        fname: &Fname,
        flags: u8,
    ) -> (r: Result<File, FatError>)
        requires
            self.partition.wf(),
            old(dir).wf(),
            spec_cursor_ok(self.partition, old(dev).model(), *old(dir)),
            flags & O_ACCESS_MODE != 3,
            fname.path@.len() <= MAX_LFN_LEN,
        ensures
            final(dev).model() == old(dev).model(),
            (r matches Ok(f) ==> {
                &&& f.vol_id == self.id
                &&& f.pos == 0
                &&& f.cluster == f.start_cluster
                &&& f.wf()
                &&& f.spec_is_open()
                &&& !f.spec_is_root()
                &&& !f.spec_is_contiguous()
                &&& (f.spec_is_readable() <==> (flags & O_ACCESS_MODE == O_RDONLY || flags
                    & O_ACCESS_MODE == crate::file::O_RDWR))
            }),
            r == Err::<File, FatError>(FatError::VolumeIdMismatch) <==> old(dir).vol_id != self.id,
            r == Err::<File, FatError>(FatError::NotADirectory) <==> (old(dir).vol_id == self.id
                && !old(dir).spec_is_directory()),
            // Whatever was opened is a record that really sits on the
            // modeled disk, live and not a volume label, and the handle
            // carries its first cluster, size and kind. (A short-name
            // match additionally compared the record's name to the
            // generated one, and a long-name match was validated fragment
            // by fragment by `dir_next`.)
            (r matches Ok(f) ==> exists|sfn: SFN, rp: u32|
                {
                    &&& #[trigger] crate::dir_iter::spec_short_from_record(
                        self.partition,
                        old(dev).model(),
                        *final(dir),
                        rp,
                        sfn,
                    )
                    &&& sfn.spec_first_cluster() == f.start_cluster
                    &&& f.size == sfn.size
                    &&& f.spec_is_directory() == sfn.spec_is_directory()
                    &&& f.spec_is_file() == !sfn.spec_is_directory()
                    &&& sfn.name@[0] != crate::dir_entry::DELETED
                    &&& sfn.attributes & crate::dir_entry::DIRENT_ATTR_VOLUME_LABEL == 0
                }),
            (r matches Err(e) ==> e == FatError::VolumeIdMismatch || e == FatError::NotADirectory
                || e == FatError::FileNotFound || e == FatError::LfnParseError || e
                == FatError::SeekError || e == FatError::InvalidCluster || e
                == FatError::CorruptFat || e == FatError::BlockDeviceFailed),
            // A missing name is reported only after the whole directory
            // was scanned to its end marker.
            (r == Err::<File, FatError>(FatError::FileNotFound) ==> crate::volume::spec_byte_at(
                self.partition,
                old(dev).model(),
                *final(dir),
                final(dir).pos,
            ) == 0),
    {
        let ghost p = self.partition;
        let ghost m = old(dev).model();
        let ghost d0 = *old(dir);
        match self.check_dir(dir) {
            Ok(()) => (),
            Err(e) => {
                return Err(e);
            },
        }
        proof {
            let a = d0.attributes;
            assert(a & 0x50u8 > 0 ==> a != 0) by (bit_vector);
        }
        match self.seek(dev, dir, 0) {
            Ok(()) => (),
            Err(e) => {
                return Err(e);
            },
        }
        let mut it = DirectoryIterator::new();
        proof {
            assert(0u32 & 0x1f == 0) by (bit_vector);
        }
        // Whether every fragment of the run in progress has matched.
        let mut lfn_match = false;
        // Highest fragment sequence number seen in the run.
        let mut last_seq: usize = 0;
        let mut fuel: u32 = MAX_DIR_STEPS;
        loop
            invariant
                self.partition == p,
                self.partition.wf(),
                dev.model() == m,
                dir.wf(),
                spec_cursor_ok(p, m, *dir),
                dir.pos & 0x1f == 0,
                dir.vol_id == d0.vol_id,
                dir.vol_id == self.id,
                dir.attributes == d0.attributes,
                dir.spec_is_directory(),
                it.wf(),
                flags & O_ACCESS_MODE != 3,
            decreases fuel,
        {
            if fuel == 0 {
                return Err(FatError::CorruptFat);
            }
            fuel -= 1;
            let entry = match self.dir_next(dev, dir, &mut it) {
                Ok(Some(e)) => e,
                Ok(None) => {
                    return Err(FatError::FileNotFound);
                },
                Err(e) => {
                    return Err(e);
                },
            };
            match entry {
                DirEntry::Long(lfn, _) => {
                    let seq = lfn.sequence_num();
                    proof {
                        let sq = lfn.sequence_byte;
                        assert((sq & 0x1f) <= 31) by (bit_vector);
                    }
                    if seq == 0 {
                        lfn_match = false;
                        last_seq = 0;
                    } else {
                        let matched = compare_lfn_name_segment(&lfn, fname);
                        if seq == 1 {
                            lfn_match = matched;
                        } else {
                            lfn_match = lfn_match && matched;
                        }
                        last_seq = seq;
                    }
                },
                DirEntry::Short(sfn, had_lfn) => {
                    if sfn.name[0] != crate::dir_entry::DELETED && sfn.is_file_or_subdir() {
                        if had_lfn && lfn_match && last_seq == fname.lfn_entry_count() {
                            proof {
                                assert(crate::dir_iter::spec_short_from_record(
                                    p,
                                    m,
                                    *dir,
                                    (dir.pos - 32) as u32,
                                    sfn,
                                ));
                            }
                            return Ok(self.open(&sfn, flags));
                        }
                        if !had_lfn && fname.flags & FNAME_FLAG_TRUNCATED == 0 && sfn_name_equal(
                            &sfn,
                            &fname.sfn,
                        ) {
                            proof {
                                assert(crate::dir_iter::spec_short_from_record(
                                    p,
                                    m,
                                    *dir,
                                    (dir.pos - 32) as u32,
                                    sfn,
                                ));
                            }
                            return Ok(self.open(&sfn, flags));
                        }
                    }
                    lfn_match = false;
                    last_seq = 0;
                },
            }
        }
    }

    /// Resolves a path from the root directory and opens its final
    /// component with `flags`; intermediate components are opened
    /// read-only. Leading separators are skipped; an empty path opens the
    /// root itself.
    #[verifier::loop_isolation(false)]
    pub fn open_by_name<D: SectorRead>(&self, dev: &mut D, filename: &[u8], flags: u8) -> (r:
        Result<File, FatError>)
        requires
            self.partition.wf(),
            flags & O_ACCESS_MODE != 3,
        ensures
            final(dev).model() == old(dev).model(),
            (r matches Ok(f) ==> {
                &&& f.vol_id == self.id
                &&& f.pos == 0
                &&& f.cluster == f.start_cluster
                &&& f.wf()
                &&& f.spec_is_open()
                &&& (f.spec_is_readable() <==> (flags & O_ACCESS_MODE == O_RDONLY || flags
                    & O_ACCESS_MODE == crate::file::O_RDWR))
            }),
            // An empty path — nothing after the leading separators, or a
            // NUL — opens the root with the requested flags.
            ({
                let sp = spec_leading_separators(filename@, 0);
                sp >= filename@.len() || filename@[sp] == 0
            } ==> (r matches Ok(f) && f.spec_is_root() && f.attributes == crate::file::ATTR_ROOT
                && f.cluster == crate::file::ROOT_CLUSTER && f.start_cluster
                == crate::file::ROOT_CLUSTER)),
            // A first component the parser rejects fails the whole
            // resolution with its error.
            ({
                let sp = spec_leading_separators(filename@, 0);
                &&& sp < filename@.len()
                &&& filename@[sp] != 0
                &&& spec_parse_rejects(filename@.subrange(sp, filename@.len() as int))
            } ==> r == Err::<File, FatError>(FatError::ParsePathError)),
            (r matches Err(e) ==> e == FatError::ParsePathError || e == FatError::NotADirectory
                || e == FatError::FileNotFound || e == FatError::LfnParseError || e
                == FatError::SeekError || e == FatError::InvalidCluster || e
                == FatError::CorruptFat || e == FatError::BlockDeviceFailed),
            // A non-empty path never answers with the root: the opened
            // handle carries the first cluster, size and kind of a live
            // file-or-subdirectory record that sits on the modeled disk
            // in some directory context.
            ({
                let sp = spec_leading_separators(filename@, 0);
                sp < filename@.len() && filename@[sp] != 0
            } ==> (r matches Ok(f) ==> !f.spec_is_root() && (exists|sfn: SFN, rp: u32, fdir: File|
                {
                    &&& #[trigger] crate::dir_iter::spec_short_from_record(
                        self.partition,
                        old(dev).model(),
                        fdir,
                        rp,
                        sfn,
                    )
                    &&& sfn.spec_first_cluster() == f.start_cluster
                    &&& f.size == sfn.size
                    &&& f.spec_is_directory() == sfn.spec_is_directory()
                    &&& f.spec_is_file() == !sfn.spec_is_directory()
                    &&& sfn.name@[0] != crate::dir_entry::DELETED
                    &&& sfn.attributes & crate::dir_entry::DIRENT_ATTR_VOLUME_LABEL == 0
                }))),
    {
        let ghost m = old(dev).model();
        let ghost sp = spec_leading_separators(filename@, 0);
        let n = filename.len();
        let mut pos: usize = 0;
        while pos < n && filename[pos] == DIR_SEPARATOR
            invariant
                pos <= n == filename@.len(),
                spec_leading_separators(filename@, pos as int) == sp,
            decreases n - pos,
        {
            pos += 1;
        }
        proof {
            assert(pos == sp);
        }
        if pos >= n || filename[pos] == 0 {
            return Ok(self.open_root(flags));
        }
        let ghost first_bad = spec_parse_rejects(filename@.subrange(sp, n as int));
        proof {
            assert(0u8 & 3u8 != 3u8) by (bit_vector);
        }
        let mut current_dir = self.open_root(O_RDONLY);
        loop
            invariant
                self.partition.wf(),
                dev.model() == m,
                pos <= n == filename@.len(),
                current_dir.wf(),
                spec_cursor_ok(self.partition, m, current_dir),
                current_dir.vol_id == self.id,
                flags & O_ACCESS_MODE != 3,
                first_bad ==> pos == sp,
            decreases n - pos,
        {
            let rest = &filename[pos..n];
            let (fname, consumed) = match parse_path_name(rest) {
                Ok(out) => out,
                Err(e) => {
                    return Err(e);
                },
            };
            pos = pos + consumed;
            if pos >= n || filename[pos] == 0 {
                let r = self.open_file_from_lfn(dev, &mut current_dir, &fname, flags);
                proof {
                    if r is Ok {
                        let (sfn0, rp0) = choose|sfn: SFN, rp: u32|
                            {
                                &&& #[trigger] crate::dir_iter::spec_short_from_record(
                                    self.partition,
                                    m,
                                    current_dir,
                                    rp,
                                    sfn,
                                )
                                &&& sfn.spec_first_cluster() == (r->Ok_0).start_cluster
                                &&& (r->Ok_0).size == sfn.size
                                &&& (r->Ok_0).spec_is_directory() == sfn.spec_is_directory()
                                &&& (r->Ok_0).spec_is_file() == !sfn.spec_is_directory()
                                &&& sfn.name@[0] != crate::dir_entry::DELETED
                                &&& sfn.attributes & crate::dir_entry::DIRENT_ATTR_VOLUME_LABEL
                                    == 0
                            };
                        assert(crate::dir_iter::spec_short_from_record(
                            self.partition,
                            m,
                            current_dir,
                            rp0,
                            sfn0,
                        ));
                    }
                }
                return r;
            }
            let next = match self.open_file_from_lfn(dev, &mut current_dir, &fname, O_RDONLY) {
                Ok(f) => f,
                Err(e) => {
                    return Err(e);
                },
            };
            current_dir = next;
        }
    }
}

/// Byte-for-byte equality of a record's name with a generated one.
fn sfn_name_equal(sfn: &SFN, name: &[u8; 11]) -> (r: bool)
    ensures
        r == (sfn.name@ == name@),
{
    let mut i: usize = 0;
    while i < 11
        invariant
            i <= 11,
            forall|j: int| 0 <= j < i ==> sfn.name@[j] == name@[j],
        decreases 11 - i,
    {
        if sfn.name[i] != name[i] {
            proof {
                assert(sfn.name@[i as int] != name@[i as int]);
            }
            return false;
        }
        i += 1;
    }
    proof {
        assert(sfn.name@ =~= name@);
    }
    true
}

} // verus!
