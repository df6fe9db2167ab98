//! Rolling dice: uniform samples from the system's random generator,
//! and the full report of one rolled die.

use vstd::prelude::*;

use crate::dice::Args;
use crate::dice::Die;
use crate::render::render_rolls;
use crate::render::result_line_model;
use crate::render::header_model;
use crate::render::wrap_i16;

verus! {

/// The random generator the rolls are drawn from; its state is opaque.
#[verifier::external_type_specification]
#[verifier::external_body]
pub struct ExThreadRng(rand::rngs::ThreadRng);

/// Relies on rand's `Rng::gen_range` on an inclusive range: a sample
/// uniform in `[low, high]`; an empty range would panic and is kept out.
#[verifier::external_body]
fn sample_range(rng: &mut rand::rngs::ThreadRng, low: u16, high: u16) -> (r: u16)
    requires
        low <= high,
    ensures
        low <= r <= high,
{
    rand::Rng::gen_range(rng, low..=high)
}

/// Are these rolls a possible outcome of this die: one sample per die
/// of the quantity, each between one and the size?
pub open spec fn rolls_ok(d: Die, rolls: Seq<u16>) -> bool {
    &&& rolls.len() == d.quantity
    &&& forall|i: int| 0 <= i < rolls.len() ==> 1 <= #[trigger] rolls[i] <= d.size
}

/// Draw one sample per die of the quantity, each uniform in
/// `[1, size]`.
pub fn roll_pool(d: &Die, rng: &mut rand::rngs::ThreadRng) -> (rolls: Vec<u16>)
    requires
        d.wf(),
    ensures
        rolls_ok(*d, rolls@),
{
    let mut rolls: Vec<u16> = Vec::new();
    let mut k: u16 = 0;
    while k < d.quantity()
        invariant
            d.wf(),
            k <= d.quantity,
            rolls@.len() == k,
            forall|i: int| 0 <= i < rolls@.len() ==> 1 <= #[trigger] rolls@[i] <= d.size,
        decreases d.quantity - k,
    {
        let r = sample_range(rng, 1, d.size());
        rolls.push(r);
        k = k + 1;
    }
    rolls
}

/// Everything one rolled die produced: the samples, the values they
/// are displayed as, and the two text lines that report them.
pub struct RollReport {
    /// The raw samples, each in `[1, size]`.
    pub rolls: Vec<u16>,
    /// Each sample plus the modifier, wrapped to sixteen bits.
    pub displayed: Vec<i16>,
    /// The header line and the result line.
    pub lines: Vec<String>,
}

/// Does a report faithfully describe one roll of this die under these
/// options?
pub open spec fn report_ok(rep: RollReport, d: Die, args: Args) -> bool {
    &&& rolls_ok(d, rep.rolls@)
    &&& rep.displayed@.len() == rep.rolls@.len()
    &&& forall|i: int|
        0 <= i < rep.rolls@.len() ==> rep.displayed@[i] == wrap_i16(rep.rolls@[i] + d.modifier)
    &&& rep.lines@.len() == 2
    &&& rep.lines@[0]@ == header_model(d)
    &&& rep.lines@[1]@ == result_line_model(d, rep.rolls@, args)
}

/// Roll one die: draw its samples and render its report lines.
pub fn roll_die(d: &Die, args: &Args, rng: &mut rand::rngs::ThreadRng) -> (rep: RollReport)
    requires
        d.wf(),
    ensures
        report_ok(rep, *d, *args),
{
    let rolls = roll_pool(d, rng);
    let mut displayed: Vec<i16> = Vec::new();
    let mut k: usize = 0;
    while k < rolls.len()
        invariant
            k <= rolls@.len(),
            displayed@.len() == k,
            forall|i: int|
                0 <= i < k ==> displayed@[i] == wrap_i16(rolls@[i] + d.modifier),
        decreases rolls@.len() - k,
    {
        displayed.push(crate::render::displayed_value(rolls[k], d.modifier));
        k = k + 1;
    }
    let lines = render_rolls(d, &rolls, args);
    RollReport { rolls, displayed, lines }
}

/// Decide a painful reroll: only in painful mode, and then with a
/// fixed probability drawn from the generator.
pub fn reroll_happens(rng: &mut rand::rngs::ThreadRng, painful: bool) -> (b: bool)
    ensures
        !painful ==> !b,
{
    let p = sample_range(rng, 1, 100);
    p > 78 && painful
}

} // verus!
