//! Machine classification and the Whisper runtime tuning chosen for it.
use vstd::prelude::*;
use crate::text::{append_vec, contains, contains_exec, decimal, decimal_exec, from_chars, join, starts_with, to_chars, join_vecs, views};

verus! {

pub const APPLE_SILICON_THREADS: i32 = 4;
pub const INTEL_AVX2_THREADS: i32 = 6;
pub const INTEL_LEGACY_THREADS: i32 = 8;
pub const DEFAULT_CPU_THREADS: i32 = 4;
pub const APPLE_SILICON_MIN_AUDIO_CTX: i32 = 256;
pub const INTEL_MIN_AUDIO_CTX: i32 = 384;
pub const DEFAULT_MIN_AUDIO_CTX: i32 = 320;

#[derive(Clone, Copy, Debug, PartialEq, Eq, Structural)]
pub enum ComputeBackendPreference {
    CpuOnly,
    PreferGpu,
    GpuOnly,
}

#[derive(Clone, Copy, Debug, PartialEq, Eq, Structural)]
pub struct RuntimeTuning {
    pub compute_backend: ComputeBackendPreference,
    pub flash_attn: bool,
    pub gpu_device: i32,
    pub n_threads: i32,
    pub adaptive_audio_ctx_min: i32,
}

#[derive(Clone, Copy, Debug, PartialEq, Eq, Structural)]
pub enum Architecture {
    Arm64,
    X86_64,
    Unknown,
}

#[derive(Clone, Copy, Debug, PartialEq, Eq, Structural)]
pub enum AppleChipTier {
    Base,
    Pro,
    Max,
    Ultra,
}

#[derive(Clone, Copy, Debug, PartialEq, Eq, Structural)]
pub struct AppleChip {
    pub generation: Option<u8>,
    pub tier: AppleChipTier,
}

#[derive(Clone, Copy, Debug, PartialEq, Eq, Structural)]
pub enum MachineFamily {
    AppleSilicon(AppleChip),
    Intel,
    OtherArm,
    Other,
}

#[derive(Clone, Copy, Debug, Default, PartialEq, Eq, Structural)]
pub struct CpuFeatures {
    pub avx: bool,
    pub avx2: bool,
    pub fma: bool,
    pub f16c: bool,
}

#[derive(Debug)]
pub struct MachineProfile {
    pub brand: String,
    pub architecture: Architecture,
    pub family: MachineFamily,
    pub physical_cores: usize,
    pub logical_cores: usize,
    pub performance_cores: Option<usize>,
    pub efficiency_cores: Option<usize>,
    pub translated: bool,
    pub cpu_features: CpuFeatures,
}

/// `x.clamp(lo, hi)`.
pub open spec fn clamp(x: int, lo: int, hi: int) -> int {
    if x < lo {
        lo
    } else if x > hi {
        hi
    } else {
        x
    }
}

pub fn clamp_threads(x: usize, hi: i32) -> (r: i32)
    requires
        1 <= hi,
    ensures
        r == clamp(x as int, 1, hi as int),
{
    if x < 1 {
        1
    } else if x > hi as usize {
        hi
    } else {
        x as i32
    }
}

/// `recommended_tuning`: Apple silicon runs on the GPU with flash attention (on the CPU
/// without it under Rosetta) with up to 4 threads, one per performance core; Intel stays on
/// the CPU with up to 6 threads with AVX2 and 8 without; other ARM machines prefer the GPU;
/// anything else uses up to 4 CPU threads.
pub open spec fn tuning_for(p: MachineProfile) -> RuntimeTuning {
    match p.family {
        MachineFamily::AppleSilicon(_) => RuntimeTuning {
            compute_backend: if p.translated {
                ComputeBackendPreference::CpuOnly
            } else {
                ComputeBackendPreference::GpuOnly
            },
            flash_attn: !p.translated,
            gpu_device: 0,
            n_threads: clamp(
                match p.performance_cores {
                    Some(c) => c as int,
                    None => p.physical_cores as int,
                },
                1,
                APPLE_SILICON_THREADS as int,
            ) as i32,
            adaptive_audio_ctx_min: APPLE_SILICON_MIN_AUDIO_CTX,
        },
        MachineFamily::Intel => RuntimeTuning {
            compute_backend: ComputeBackendPreference::CpuOnly,
            flash_attn: false,
            gpu_device: 0,
            n_threads: clamp(
                p.physical_cores as int,
                1,
                if p.cpu_features.avx2 {
                    INTEL_AVX2_THREADS as int
                } else {
                    INTEL_LEGACY_THREADS as int
                },
            ) as i32,
            adaptive_audio_ctx_min: INTEL_MIN_AUDIO_CTX,
        },
        MachineFamily::OtherArm => RuntimeTuning {
            compute_backend: ComputeBackendPreference::PreferGpu,
            flash_attn: true,
            gpu_device: 0,
            n_threads: clamp(p.physical_cores as int, 1, APPLE_SILICON_THREADS as int) as i32,
            adaptive_audio_ctx_min: APPLE_SILICON_MIN_AUDIO_CTX,
        },
        MachineFamily::Other => RuntimeTuning {
            compute_backend: ComputeBackendPreference::CpuOnly,
            flash_attn: false,
            gpu_device: 0,
            n_threads: clamp(p.physical_cores as int, 1, DEFAULT_CPU_THREADS as int) as i32,
            adaptive_audio_ctx_min: DEFAULT_MIN_AUDIO_CTX,
        },
    }
}

pub open spec fn arch_name(a: Architecture) -> Seq<char> {
    match a {
        Architecture::Arm64 => "arm64"@,
        Architecture::X86_64 => "x86_64"@,
        Architecture::Unknown => "unknown"@,
    }
}

/// The instruction-set extensions named in an Intel summary.
pub open spec fn intel_caps(f: CpuFeatures) -> Seq<Seq<char>> {
    let a = if f.avx2 {
        seq!["AVX2"@]
    } else {
        Seq::empty()
    };
    let b = if f.fma {
        a.push("FMA"@)
    } else {
        a
    };
    if f.f16c {
        b.push("F16C"@)
    } else {
        b
    }
}

/// The parts of `MachineProfile::summary`, before they are joined with " | ".
pub open spec fn summary_parts(p: &MachineProfile) -> Seq<Seq<char>> {
    let first = seq![p.brand@ + " ("@ + arch_name(p.architecture) + ")"@];
    let cores = match p.performance_cores {
        Some(perf) => match p.efficiency_cores {
            Some(eff) => first.push(decimal(perf as nat) + "P+"@ + decimal(eff as nat) + "E"@),
            None => first,
        },
        None => first.push(decimal(p.physical_cores as nat) + " cores"@),
    };
    let rosetta = if p.translated {
        cores.push("Rosetta"@)
    } else {
        cores
    };
    if p.family == MachineFamily::Intel && intel_caps(p.cpu_features).len() > 0 {
        rosetta.push(join(intel_caps(p.cpu_features), "/"@))
    } else {
        rosetta
    }
}

impl MachineProfile {
    pub fn recommended_tuning(&self) -> (r: RuntimeTuning)
        ensures
            r == tuning_for(*self),
    {
        match self.family {
            MachineFamily::AppleSilicon(_) => RuntimeTuning {
                compute_backend: if self.translated {
                    ComputeBackendPreference::CpuOnly
                } else {
                    ComputeBackendPreference::GpuOnly
                },
                flash_attn: !self.translated,
                gpu_device: 0,
                n_threads: clamp_threads(
                    match self.performance_cores {
                        Some(c) => c,
                        None => self.physical_cores,
                    },
                    APPLE_SILICON_THREADS,
                ),
                adaptive_audio_ctx_min: APPLE_SILICON_MIN_AUDIO_CTX,
            },
            MachineFamily::Intel => {
                let cpu_threads = if self.cpu_features.avx2 {
                    INTEL_AVX2_THREADS
                } else {
                    INTEL_LEGACY_THREADS
                };
                RuntimeTuning {
                    compute_backend: ComputeBackendPreference::CpuOnly,
                    flash_attn: false,
                    gpu_device: 0,
                    n_threads: clamp_threads(self.physical_cores, cpu_threads),
                    adaptive_audio_ctx_min: INTEL_MIN_AUDIO_CTX,
                }
            },
            MachineFamily::OtherArm => RuntimeTuning {
                compute_backend: ComputeBackendPreference::PreferGpu,
                flash_attn: true,
                gpu_device: 0,
                n_threads: clamp_threads(self.physical_cores, APPLE_SILICON_THREADS),
                adaptive_audio_ctx_min: APPLE_SILICON_MIN_AUDIO_CTX,
            },
            MachineFamily::Other => RuntimeTuning {
                compute_backend: ComputeBackendPreference::CpuOnly,
                flash_attn: false,
                gpu_device: 0,
                n_threads: clamp_threads(self.physical_cores, DEFAULT_CPU_THREADS),
                adaptive_audio_ctx_min: DEFAULT_MIN_AUDIO_CTX,
            },
        }
    }

    /// A one-line description: brand and architecture, core counts, Rosetta, and the
    /// Intel instruction-set extensions, separated by " | ".
    pub fn summary(&self) -> (r: String)
        ensures
            r@ == join(summary_parts(self), " | "@),
    {
        let arch = match self.architecture {
            Architecture::Arm64 => "arm64",
            Architecture::X86_64 => "x86_64",
            Architecture::Unknown => "unknown",
        };
        let mut first = to_chars(self.brand.as_str());
        append_vec(&mut first, &to_chars(" ("));
        append_vec(&mut first, &to_chars(arch));
        append_vec(&mut first, &to_chars(")"));
        let mut parts: Vec<Vec<char>> = Vec::new();
        let ghost p0 = first@;
        parts.push(first);
        assert(views(parts@) =~= seq![p0]);
        match self.performance_cores {
            Some(perf) => match self.efficiency_cores {
                Some(eff) => {
                    let mut s = decimal_exec(perf as u64);
                    append_vec(&mut s, &to_chars("P+"));
                    append_vec(&mut s, &decimal_exec(eff as u64));
                    append_vec(&mut s, &to_chars("E"));
                    proof { crate::text::lemma_views_push(parts@, s); }
                    parts.push(s);
                },
                None => {},
            },
            None => {
                let mut s = decimal_exec(self.physical_cores as u64);
                append_vec(&mut s, &to_chars(" cores"));
                proof { crate::text::lemma_views_push(parts@, s); }
                parts.push(s);
            },
        }
        if self.translated {
            let s = to_chars("Rosetta");
            proof { crate::text::lemma_views_push(parts@, s); }
            parts.push(s);
        }
        if self.family == MachineFamily::Intel {
            let mut caps: Vec<Vec<char>> = Vec::new();
            if self.cpu_features.avx2 {
                let s = to_chars("AVX2");
                proof { crate::text::lemma_views_push(caps@, s); }
                caps.push(s);
            }
            if self.cpu_features.fma {
                let s = to_chars("FMA");
                proof { crate::text::lemma_views_push(caps@, s); }
                caps.push(s);
            }
            if self.cpu_features.f16c {
                let s = to_chars("F16C");
                proof { crate::text::lemma_views_push(caps@, s); }
                caps.push(s);
            }
            assert(views(caps@) =~= intel_caps(self.cpu_features));
            if caps.len() > 0 {
                let s = join_vecs(&caps, &to_chars("/"));
                proof { crate::text::lemma_views_push(parts@, s); }
                parts.push(s);
            }
        }
        assert(views(parts@) =~= summary_parts(self));
        let j = join_vecs(&parts, &to_chars(" | "));
        from_chars(&j)
    }
}

pub open spec fn is_digit(c: char) -> bool {
    '0' <= c <= '9'
}

/// The leading ASCII digits.
pub open spec fn digit_prefix(s: Seq<char>) -> Seq<char>
    decreases s.len(),
{
    if s.len() > 0 && is_digit(s[0]) {
        seq![s[0]] + digit_prefix(s.drop_first())
    } else {
        Seq::empty()
    }
}

/// The number that a string of ASCII digits spells.
pub open spec fn digits_value(d: Seq<char>) -> nat
    decreases d.len(),
{
    if d.len() == 0 {
        0
    } else {
        digits_value(d.drop_last()) * 10 + ((d.last() as u32) - 48) as nat
    }
}

/// `str::parse::<u8>` on a string of ASCII digits: its value when the string is not empty
/// and the value fits in a byte.
pub open spec fn parse_u8(d: Seq<char>) -> Option<u8> {
    if d.len() > 0 && digits_value(d) <= 255 {
        Some(digits_value(d) as u8)
    } else {
        None
    }
}

/// `parse_apple_chip`: for a brand that starts with "Apple M", the generation number that
/// follows and the tier named later in it (Ultra, then Max, then Pro, else Base).
pub open spec fn apple_chip_of(brand: Seq<char>) -> Option<AppleChip> {
    if starts_with(brand, "Apple M"@) {
        let rest = brand.skip(7);
        let tier = if contains(rest, "Ultra"@) {
            AppleChipTier::Ultra
        } else if contains(rest, "Max"@) {
            AppleChipTier::Max
        } else if contains(rest, "Pro"@) {
            AppleChipTier::Pro
        } else {
            AppleChipTier::Base
        };
        Some(AppleChip { generation: parse_u8(digit_prefix(rest)), tier })
    } else {
        None
    }
}

pub fn parse_apple_chip(brand: &str) -> (r: Option<AppleChip>)
    ensures
        r == apple_chip_of(brand@),
{
    let b = to_chars(brand);
    let prefix = to_chars("Apple M");
    proof {
        reveal_strlit("Apple M");
    }
    if !crate::text::starts_with_exec(&b, &prefix) {
        return None;
    }
    let rest = crate::text::slice_vec(&b, 7, b.len());
    assert(rest@ =~= brand@.skip(7));
    let tier = if contains_exec(&rest, &to_chars("Ultra")) {
        AppleChipTier::Ultra
    } else if contains_exec(&rest, &to_chars("Max")) {
        AppleChipTier::Max
    } else if contains_exec(&rest, &to_chars("Pro")) {
        AppleChipTier::Pro
    } else {
        AppleChipTier::Base
    };
    let mut value: u32 = 0;
    let mut over = false;
    let mut i: usize = 0;
    assert(rest@.skip(0) =~= rest@);
    assert(rest@.take(0) + digit_prefix(rest@) =~= digit_prefix(rest@));
    assert(rest@.take(0) =~= Seq::<char>::empty());
    while i < rest.len() && '0' <= rest[i] && rest[i] <= '9'
        invariant
            i <= rest@.len(),
            digit_prefix(rest@) == rest@.take(i as int) + digit_prefix(rest@.skip(i as int)),
            forall|k: int| 0 <= k < i ==> is_digit(#[trigger] rest@[k]),
            !over ==> value == digits_value(rest@.take(i as int)) && value <= 255,
            over ==> digits_value(rest@.take(i as int)) > 255,
        decreases rest.len() - i,
    {
        let ghost t = rest@.skip(i as int);
        assert(t.drop_first() =~= rest@.skip(i + 1));
        assert(rest@.take(i as int) + seq![rest@[i as int]] =~= rest@.take(i + 1));
        assert(rest@.take(i + 1).drop_last() =~= rest@.take(i as int));
        let d = (rest[i] as u32) - 48;
        if !over {
            let nv = value * 10 + d;
            if nv > 255 {
                over = true;
            } else {
                value = nv;
            }
        }
        i = i + 1;
    }
    proof {
        assert(digit_prefix(rest@.skip(i as int)) =~= Seq::<char>::empty());
        assert(digit_prefix(rest@) =~= rest@.take(i as int));
    }
    let generation = if i > 0 && !over {
        Some(value as u8)
    } else {
        None
    };
    Some(AppleChip { generation, tier })
}

pub open spec fn family_of(brand: Seq<char>, architecture: Architecture) -> MachineFamily {
    match apple_chip_of(brand) {
        Some(chip) => MachineFamily::AppleSilicon(chip),
        None => if contains(brand, "Intel"@) {
            MachineFamily::Intel
        } else {
            match architecture {
                Architecture::Arm64 => MachineFamily::OtherArm,
                Architecture::X86_64 => MachineFamily::Intel,
                Architecture::Unknown => MachineFamily::Other,
            }
        },
    }
}

/// Apple silicon when the brand names an Apple M chip, Intel when it names Intel, else by
/// architecture.
pub fn classify_family(brand: &str, architecture: Architecture) -> (r: MachineFamily)
    ensures
        r == family_of(brand@, architecture),
{
    if let Some(chip) = parse_apple_chip(brand) {
        return MachineFamily::AppleSilicon(chip);
    }
    if contains_exec(&to_chars(brand), &to_chars("Intel")) {
        return MachineFamily::Intel;
    }
    match architecture {
        Architecture::Arm64 => MachineFamily::OtherArm,
        Architecture::X86_64 => MachineFamily::Intel,
        Architecture::Unknown => MachineFamily::Other,
    }
}

} // verus!
