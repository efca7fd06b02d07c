use vstd::prelude::*;
use vstd::string::StringExecFns;

verus! {

#[derive(Debug)]
pub struct OptimizerError {
    pub message: String,
}

impl OptimizerError {
    pub fn to_string(&self) -> (r: String)
        ensures
            r@ == "Optimizer error: "@ + self.message@,
    {
        let mut out = "Optimizer error: ".to_string();
        out.append(self.message.as_str());
        out
    }
}

/// The optimization tier: levels above 3 count as 3.
pub open spec fn tier(opt_level: u8) -> u8 {
    if opt_level > 3 {
        3
    } else {
        opt_level
    }
}

pub const TIER_0: &'static str = "// Z Language code with optimization level 0\n// Optimizations applied:\n// - No optimizations\n\n";

pub const TIER_1: &'static str = "// Z Language code with optimization level 1\n// Optimizations applied:\n// - Basic loop optimizations\n// - Simple function inlining\n#define Z_OPT_LEVEL 1\n\n";

pub const TIER_2: &'static str = "// Z Language code with optimization level 2\n// Optimizations applied:\n// - Aggressive loop optimizations\n// - Function inlining\n// - Memory access optimizations\n#define Z_OPT_LEVEL 2\n#define likely(x)   __builtin_expect(!!(x), 1)\n#define unlikely(x) __builtin_expect(!!(x), 0)\n\n";

pub const TIER_3: &'static str = "// Z Language code with optimization level 3\n// Optimizations applied:\n// - Maximum optimizations\n// - Aggressive inlining\n// - SIMD vectorization\n// - Cache optimization\n// - Branch prediction\n#define Z_OPT_LEVEL 3\n#define likely(x)   __builtin_expect(!!(x), 1)\n#define unlikely(x) __builtin_expect(!!(x), 0)\n#ifdef __SSE__\n#define Z_HAS_SIMD 1\n#endif\n#ifdef _OPENMP\n#define Z_HAS_PARALLEL 1\n#endif\n\n";

/// The directives that a tier puts in front of the generated source.
pub open spec fn directives(t: u8) -> Seq<char> {
    if t == 0 {
        TIER_0@
    } else if t == 1 {
        TIER_1@
    } else if t == 2 {
        TIER_2@
    } else {
        TIER_3@
    }
}

/// Prepends the directives of the tier that `opt_level` selects to `code`.
pub fn optimize(code: String, opt_level: u8) -> (r: Result<String, OptimizerError>)
    ensures
        r is Ok,
        r->Ok_0@ == directives(tier(opt_level)) + code@,
{
    let header = if opt_level == 0 {
        TIER_0
    } else if opt_level == 1 {
        TIER_1
    } else if opt_level == 2 {
        TIER_2
    } else {
        TIER_3
    };
    let mut out = header.to_string();
    out.append(code.as_str());
    Ok(out)
}

} // verus!
