//! Small renderer-wide value types: debug rendering modes, tonemapper
//! modes, compute-dispatch sizing, and animation node bookkeeping.

use vstd::prelude::*;

verus! {

/// What the main fragment shader draws.
#[derive(Debug, Copy, Clone, PartialEq, Eq, Structural)]
pub enum Mode {
    Full,
    Normals,
    Noise,
    HueNoise,
    ShadowCascade,
}

/// How the tonemapper treats the rendered image.
#[derive(Debug, Copy, Clone, PartialEq, Eq, Structural)]
pub enum TonemapperMode {
    On,
    NoCrosstalk,
    Off,
    WasmGammaCorrect,
}

impl Mode {
    /// All rendering modes, each paired with its shader-side index.
    pub fn iter() -> (r: Vec<(Mode, u32)>)
        ensures
            r@.len() == 5,
            r@[0] == (Mode::Full, 0u32),
            r@[1] == (Mode::Normals, 1u32),
            r@[2] == (Mode::Noise, 2u32),
            r@[3] == (Mode::HueNoise, 3u32),
            r@[4] == (Mode::ShadowCascade, 4u32),
    {
        let mut modes: Vec<Mode> = Vec::new();
        modes.push(Mode::Full);
        modes.push(Mode::Normals);
        modes.push(Mode::Noise);
        modes.push(Mode::HueNoise);
        modes.push(Mode::ShadowCascade);
        enumerate(modes.as_slice())
    }
}

impl TonemapperMode {
    /// All tonemapper modes, in presentation order.
    pub fn iter() -> (r: Vec<TonemapperMode>)
        ensures
            r@.len() == 4,
            r@[0] == TonemapperMode::On,
            r@[1] == TonemapperMode::NoCrosstalk,
            r@[2] == TonemapperMode::Off,
            r@[3] == TonemapperMode::WasmGammaCorrect,
    {
        let mut modes: Vec<TonemapperMode> = Vec::new();
        modes.push(TonemapperMode::On);
        modes.push(TonemapperMode::NoCrosstalk);
        modes.push(TonemapperMode::Off);
        modes.push(TonemapperMode::WasmGammaCorrect);
        modes
    }
}

/// Pairs each element of a slice with its index.
pub fn enumerate<T: Copy>(slice: &[T]) -> (r: Vec<(T, u32)>)
    requires
        slice@.len() <= u32::MAX,
    ensures
        r@.len() == slice@.len(),
        forall|i: int| 0 <= i < slice@.len() ==> r@[i] == (slice@[i], i as u32),
{
    let mut out: Vec<(T, u32)> = Vec::new();
    let mut i: usize = 0;
    while i < slice.len()
        invariant
            i <= slice@.len() <= u32::MAX,
            out@.len() == i,
            forall|j: int| 0 <= j < i ==> out@[j] == (slice@[j], j as u32),
        decreases slice@.len() - i,
    {
        let t = slice[i];
        out.push((t, i as u32));
        i = i + 1;
    }
    out
}

/// The number of compute workgroups that cover `num` items at `group_size`
/// items per group: the quotient rounded up, so the groups cover all items
/// and at most one group runs short.
pub fn dispatch_count(num: u32, group_size: u32) -> (count: u32)
    requires
        group_size > 0,
    ensures
        num <= count * group_size < num + group_size,
{
    let mut count = num / group_size;
    let rem = num % group_size;
    proof {
        vstd::arithmetic::div_mod::lemma_fundamental_div_mod(num as int, group_size as int);
        if rem != 0 {
            vstd::arithmetic::div_mod::lemma_div_is_ordered_by_denominator(num as int, 2, group_size as int);
        }
        assert(num == group_size * count + rem && 0 <= rem < group_size);
        assert(count * group_size == num - rem) by (nonlinear_arith)
            requires
                num == group_size * count + rem,
        ;
        if rem != 0 {
            assert((count + 1) * group_size == num - rem + group_size) by (nonlinear_arith)
                requires
                    num == group_size * count + rem,
            ;
        }
    }
    if rem != 0 {
        count += 1;
    }
    count
}

/// An animation node index together with its parent (or `-1` at a root).
#[derive(Debug, Copy, Clone, PartialEq, Eq, Structural)]
pub struct NodeAndParent {
    pub node_index: u32,
    pub parent_index: i32,
}

} // verus!
