//! Hardware fingerprints, summaries and GPU roles.
use std::hash::{Hash, Hasher};
use vstd::prelude::*;

use crate::capacity::profile::{GpuInfo, GpuRole, HardwareSnapshot};
use crate::text::{
    chars_of, contains, contains_chars, decimal, hex_fixed, join, join_strings, line_bounds, lines,
    lower, marks, parse_usize, parse_usize_chars, push_decimal, push_hex_fixed, push_str,
    slice_range, split_bounds, split_pieces, string_of, trim, trimmed, views_of,
};

verus! {

/// What a GPU contributes to the fingerprint, in hashing order: its uuid,
/// name, VRAM and bus id (not its role).
pub struct GpuKey {
    pub uuid: Option<String>,
    pub name: String,
    pub vram_total_mb: u32,
    pub bus_id: Option<String>,
}

/// What the fingerprint hashes, in order: each GPU's key, then the core
/// count, the RAM size and the OS string.
pub struct FingerprintInput {
    pub gpus: Vec<GpuKey>,
    pub cpu_cores: u32,
    pub ram_mb: u64,
    pub os: String,
}

pub open spec fn opt_text(o: Option<String>) -> Option<Seq<char>> {
    match o {
        Some(s) => Some(s@),
        None => None,
    }
}

pub open spec fn gpu_key_view(k: GpuKey) -> (Option<Seq<char>>, Seq<char>, u32, Option<Seq<char>>) {
    (opt_text(k.uuid), k.name@, k.vram_total_mb, opt_text(k.bus_id))
}

pub open spec fn gpu_info_key(g: GpuInfo) -> (Option<Seq<char>>, Seq<char>, u32, Option<Seq<char>>) {
    (opt_text(g.uuid), g.name@, g.vram_total_mb, opt_text(g.bus_id))
}

fn copy_opt(o: &Option<String>) -> (r: Option<String>)
    ensures
        opt_text(r) == opt_text(*o),
{
    match o {
        Some(s) => Some(s.clone()),
        None => None,
    }
}

/// The values the fingerprint of this hardware hashes.
pub fn fingerprint_input(gpus: &[GpuInfo], cpu_cores: u32, ram_mb: u64, os: &str) -> (r: FingerprintInput)
    ensures
        r.gpus@.map_values(|k: GpuKey| gpu_key_view(k)) == gpus@.map_values(|g: GpuInfo| gpu_info_key(g)),
        r.cpu_cores == cpu_cores,
        r.ram_mb == ram_mb,
        r.os@ == os@,
{
    let mut keys: Vec<GpuKey> = Vec::new();
    let mut i: usize = 0;
    while i < gpus.len()
        invariant
            i <= gpus@.len(),
            keys@.map_values(|k: GpuKey| gpu_key_view(k)) == gpus@.take(i as int).map_values(
                |g: GpuInfo| gpu_info_key(g),
            ),
        decreases gpus.len() - i,
    {
        let g = &gpus[i];
        let k = GpuKey {
            uuid: copy_opt(&g.uuid),
            name: g.name.clone(),
            vram_total_mb: g.vram_total_mb,
            bus_id: copy_opt(&g.bus_id),
        };
        assert(gpu_key_view(k) == gpu_info_key(gpus@[i as int]));
        let ghost before = keys@;
        keys.push(k);
        assert(keys@ == before.push(k));
        assert(before.push(k).map_values(|k: GpuKey| gpu_key_view(k)) =~= before.map_values(|k: GpuKey| gpu_key_view(k)).push(gpu_key_view(k)));
        assert(gpus@.take(i + 1) =~= gpus@.take(i as int).push(gpus@[i as int]));
        assert(keys@.map_values(|k: GpuKey| gpu_key_view(k)) =~= gpus@.take(i + 1).map_values(
            |g: GpuInfo| gpu_info_key(g),
        ));
        i = i + 1;
    }
    assert(gpus@.take(i as int) =~= gpus@);
    FingerprintInput { gpus: keys, cpu_cores, ram_mb, os: String::from_str(os) }
}

/// `DefaultHasher` over the fingerprint input, each value hashed in order.
/// `std` documents that hashed bytes differ with endianness and type sizes
/// and that `DefaultHasher`'s algorithm may change between releases, so the
/// value is not the same on every machine; nothing is claimed of it.
#[verifier::external_body]
fn hardware_hash(input: &FingerprintInput) -> (r: u64)
{
    let mut h = std::collections::hash_map::DefaultHasher::new();
    for k in input.gpus.iter() {
        k.uuid.hash(&mut h);
        k.name.hash(&mut h);
        k.vram_total_mb.hash(&mut h);
        k.bus_id.hash(&mut h);
    }
    input.cpu_cores.hash(&mut h);
    input.ram_mb.hash(&mut h);
    input.os.hash(&mut h);
    h.finish()
}

/// `fp_` and the hash as sixteen lowercase hexadecimal digits.
pub open spec fn fingerprint_text(h: u64) -> Seq<char> {
    "fp_"@ + hex_fixed(h as nat, 16)
}

/// The fingerprint text of a hash.
pub fn fingerprint_of_hash(h: u64) -> (r: String)
    ensures
        r@ == fingerprint_text(h),
{
    let mut s = String::from_str("fp_");
    push_hex_fixed(&mut s, h, 16);
    s
}

/// The machine's fingerprint: its `fingerprint_input` hashed with `std`'s
/// `DefaultHasher`, written by `fingerprint_of_hash`.
pub fn compute_fingerprint(gpus: &[GpuInfo], cpu_cores: u32, ram_mb: u64, os: &str) -> (r: String)
    ensures
        exists|h: u64| r@ == fingerprint_text(h),
{
    let input = fingerprint_input(gpus, cpu_cores, ram_mb, os);
    let h = hardware_hash(&input);
    fingerprint_of_hash(h)
}

/// GPUs that count for inference: compute and unknown roles.
pub open spec fn counted(gs: Seq<GpuInfo>) -> Seq<GpuInfo>
    decreases gs.len(),
{
    if gs.len() == 0 {
        Seq::empty()
    } else if gs.last().role == GpuRole::Compute || gs.last().role == GpuRole::Unknown {
        counted(gs.drop_last()).push(gs.last())
    } else {
        counted(gs.drop_last())
    }
}

pub open spec fn gpu_label(g: GpuInfo) -> Seq<char> {
    g.name@ + " "@ + decimal(g.vram_total_mb as nat) + "MB"@
}

/// One line about the machine: the counted GPUs joined with ` + `, or, with
/// no GPU at all, its cores and RAM in whole GB.
pub open spec fn summary_text(hw: HardwareSnapshot) -> Seq<char> {
    let c = counted(hw.gpus@);
    if c.len() == 0 && hw.gpus@.len() == 0 {
        "CPU "@ + decimal(hw.cpu_cores as nat) + " cores, "@ + decimal((hw.ram_mb / 1024) as nat)
            + " GB RAM"@
    } else {
        join(c.map_values(|g: GpuInfo| gpu_label(g)), " + "@)
    }
}

pub fn hardware_summary(snapshot: &HardwareSnapshot) -> (r: String)
    ensures
        r@ == summary_text(*snapshot),
{
    let gs = &snapshot.gpus;
    if gs.len() == 0 {
        let mut s = String::from_str("CPU ");
        push_decimal(&mut s, snapshot.cpu_cores as u128);
        push_str(&mut s, " cores, ");
        push_decimal(&mut s, (snapshot.ram_mb / 1024) as u128);
        push_str(&mut s, " GB RAM");
        assert(counted(gs@) =~= Seq::<GpuInfo>::empty());
        return s;
    }
    let mut labels: Vec<String> = Vec::new();
    let mut i: usize = 0;
    while i < gs.len()
        invariant
            i <= gs@.len(),
            views_of(labels@) == counted(gs@.take(i as int)).map_values(|g: GpuInfo| gpu_label(g)),
        decreases gs.len() - i,
    {
        let g = &gs[i];
        assert(gs@.take(i + 1).drop_last() =~= gs@.take(i as int));
        assert(gs@.take(i + 1).last() == gs@[i as int]);
        let ghost before = views_of(labels@);
        match g.role {
            GpuRole::Compute | GpuRole::Unknown => {
                let mut l = String::new();
                push_str(&mut l, g.name.as_str());
                push_str(&mut l, " ");
                push_decimal(&mut l, g.vram_total_mb as u128);
                push_str(&mut l, "MB");
                labels.push(l);
                assert(views_of(labels@) =~= before.push(gpu_label(gs@[i as int])));
                assert(counted(gs@.take(i + 1)).map_values(|g: GpuInfo| gpu_label(g)) =~= counted(
                    gs@.take(i as int),
                ).map_values(|g: GpuInfo| gpu_label(g)).push(gpu_label(gs@[i as int])));
            },
            GpuRole::Display => {},
        }
        i = i + 1;
    }
    assert(gs@.take(gs@.len() as int) =~= gs@);
    join_strings(&labels, " + ")
}

/// What `str::to_lowercase` makes of a text (Unicode lowercase mapping).
pub uninterp spec fn unicode_lowercase(s: Seq<char>) -> Seq<char>;

/// `str::to_lowercase`. Its full Unicode mapping is named, not stated; on
/// ASCII-only text it folds exactly the capitals.
#[verifier::external_body]
fn to_lowercase(s: &str) -> (r: String)
    ensures
        r@ == unicode_lowercase(s@),
        (forall|i: int| 0 <= i < s@.len() ==> (#[trigger] s@[i] as u32) < 128) ==> r@ == lower(s@),
{
    s.to_lowercase()
}

/// A GPU's role from its name: known datacenter and recent consumer parts
/// compute, two old GeForce parts drive a display, and otherwise the first
/// GPU computes and the rest are unknown.
pub open spec fn role_for(lower_name: Seq<char>, index: nat) -> GpuRole {
    let l = lower_name;
    if contains(l, "tesla"@) || contains(l, "a100"@) || contains(l, "h100"@) || contains(l, "p40"@)
        || contains(l, "p100"@) || contains(l, "v100"@) || contains(l, "rtx 40"@) || contains(
        l,
        "rtx 30"@,
    ) {
        GpuRole::Compute
    } else if contains(l, "geforce"@) && (contains(l, "970"@) || contains(l, "1050"@)) {
        GpuRole::Display
    } else if index == 0 {
        GpuRole::Compute
    } else {
        GpuRole::Unknown
    }
}

/// The fields of one `nvidia-smi` CSV line: the trimmed line split at every comma,
/// each piece trimmed.
pub open spec fn smi_fields(line: Seq<char>) -> Seq<Seq<char>> {
    split_pieces(trim(line), seq![',']).map_values(|p: Seq<char>| trim(p))
}

/// The rows that describe a GPU: non-blank lines with at least two fields.
pub open spec fn smi_rows(ls: Seq<Seq<char>>) -> Seq<Seq<Seq<char>>>
    decreases ls.len(),
{
    if ls.len() == 0 {
        Seq::empty()
    } else {
        let r = smi_rows(ls.drop_last());
        if trim(ls.last()).len() == 0 || smi_fields(ls.last()).len() < 2 {
            r
        } else {
            r.push(smi_fields(ls.last()))
        }
    }
}

/// `str::parse::<u32>`.
pub open spec fn parse_u32(s: Seq<char>) -> Option<nat> {
    match parse_usize(s) {
        Some(v) => if v <= u32::MAX {
            Some(v)
        } else {
            None
        },
        None => None,
    }
}

/// The GPU a row describes, as the `k`-th GPU: uuid, name, VRAM in MiB (0 when
/// absent or not a `u32`), PCI bus id when present, and the role its name and place give.
pub open spec fn smi_gpu_matches(g: GpuInfo, f: Seq<Seq<char>>, k: nat) -> bool {
    &&& (g.uuid matches Some(u) && u@ == f[0])
    &&& g.name@ == f[1]
    &&& g.vram_total_mb as nat == (if f.len() > 2 && parse_u32(f[2]) is Some {
        parse_u32(f[2])->0
    } else {
        0
    })
    &&& (if f.len() > 3 {
        g.bus_id matches Some(b) && b@ == f[3]
    } else {
        g.bus_id is None
    })
    &&& g.role == role_for(unicode_lowercase(f[1]), k)
}

fn parse_u32_chars(s: &[char]) -> (r: Option<u32>)
    ensures
        match r {
            Some(v) => parse_u32(s@) == Some(v as nat),
            None => parse_u32(s@) is None,
        },
{
    match parse_usize_chars(s) {
        Some(v) => if v <= u32::MAX as usize {
            Some(v as u32)
        } else {
            None
        },
        None => None,
    }
}

fn field_text(line: &[char], bs: &Vec<(usize, usize)>, i: usize, Ghost(ps): Ghost<Seq<Seq<char>>>) -> (r: String)
    requires
        i < bs@.len(),
        bs@.len() == ps.len(),
        forall|k: int| 0 <= k < bs@.len() ==> marks(line@, #[trigger] bs@[k], ps[k]),
    ensures
        r@ == trim(ps[i as int]),
{
    let (a, b) = bs[i];
    assert(marks(line@, bs@[i as int], ps[i as int]));
    let piece = slice_range(line, a, b);
    let t = trimmed(piece.as_slice());
    string_of(t.as_slice())
}

/// The GPUs `nvidia-smi --query-gpu=uuid,name,memory.total,pci.bus_id
/// --format=csv,noheader,nounits` lists, in order.
pub fn parse_nvidia_smi(text: &str) -> (r: Vec<GpuInfo>)
    ensures
        r@.len() == smi_rows(lines(text@)).len(),
        forall|k: int| 0 <= k < r@.len() ==> smi_gpu_matches(#[trigger] r@[k], smi_rows(lines(text@))[k], k as nat),
{
    let tc = chars_of(text);
    let lb = line_bounds(tc.as_slice());
    let ghost ls = lines(text@);
    let comma = vec![','];
    assert(comma@ =~= seq![',']);
    let mut gpus: Vec<GpuInfo> = Vec::new();
    let mut i: usize = 0;
    assert(ls.take(0) =~= Seq::<Seq<char>>::empty());
    while i < lb.len()
        invariant
            i <= lb@.len(),
            tc@ == text@,
            ls == lines(tc@),
            lb@.len() == ls.len(),
            forall|k: int| 0 <= k < lb@.len() ==> marks(tc@, #[trigger] lb@[k], ls[k]),
            comma@ == seq![','],
            gpus@.len() == smi_rows(ls.take(i as int)).len(),
            forall|k: int| 0 <= k < gpus@.len() ==> smi_gpu_matches(#[trigger] gpus@[k], smi_rows(ls.take(i as int))[k], k as nat),
        decreases lb.len() - i,
    {
        let (a, b) = lb[i];
        assert(marks(tc@, lb@[i as int], ls[i as int]));
        assert(ls.take(i + 1).drop_last() =~= ls.take(i as int));
        assert(ls.take(i + 1).last() == ls[i as int]);
        let raw = slice_range(tc.as_slice(), a, b);
        let line = trimmed(raw.as_slice());
        if line.len() > 0 {
            let pb = split_bounds(line.as_slice(), comma.as_slice());
            let ghost ps = split_pieces(line@, seq![',']);
            let ghost f = smi_fields(ls[i as int]);
            assert(f =~= ps.map_values(|p: Seq<char>| trim(p)));
            if pb.len() >= 2 {
                let uuid = field_text(line.as_slice(), &pb, 0, Ghost(ps));
                let name = field_text(line.as_slice(), &pb, 1, Ghost(ps));
                let vram = if pb.len() > 2 {
                    let v = field_text(line.as_slice(), &pb, 2, Ghost(ps));
                    let vc = chars_of(v.as_str());
                    match parse_u32_chars(vc.as_slice()) {
                        Some(n) => n,
                        None => 0,
                    }
                } else {
                    0
                };
                let bus_id = if pb.len() > 3 {
                    Some(field_text(line.as_slice(), &pb, 3, Ghost(ps)))
                } else {
                    None
                };
                let role = infer_gpu_role(name.as_str(), gpus.len());
                let ghost before = gpus@;
                gpus.push(GpuInfo { name, uuid: Some(uuid), bus_id, vram_total_mb: vram, role });
                proof {
                    let rows = smi_rows(ls.take(i + 1));
                    assert(rows == smi_rows(ls.take(i as int)).push(f));
                    assert forall|k: int| 0 <= k < gpus@.len() implies smi_gpu_matches(
                        #[trigger] gpus@[k],
                        rows[k],
                        k as nat,
                    ) by {
                        if k < before.len() {
                            assert(gpus@[k] == before[k]);
                        }
                    }
                }
            }
        }
        i = i + 1;
    }
    assert(ls.take(lb@.len() as int) =~= ls);
    gpus
}

fn has(s: &[char], lit: &str) -> (r: bool)
    ensures
        r == contains(s@, lit@),
{
    let l = chars_of(lit);
    contains_chars(s, l.as_slice())
}

pub fn infer_gpu_role(name: &str, index: usize) -> (r: GpuRole)
    ensures
        r == role_for(unicode_lowercase(name@), index as nat),
{
    let lowered = to_lowercase(name);
    let c = chars_of(lowered.as_str());
    let l = c.as_slice();
    if has(l, "tesla") || has(l, "a100") || has(l, "h100") || has(l, "p40") || has(l, "p100") || has(
        l,
        "v100",
    ) || has(l, "rtx 40") || has(l, "rtx 30") {
        return GpuRole::Compute;
    }
    if has(l, "geforce") && (has(l, "970") || has(l, "1050")) {
        return GpuRole::Display;
    }
    if index == 0 {
        GpuRole::Compute
    } else {
        GpuRole::Unknown
    }
}

} // verus!
