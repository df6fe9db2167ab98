//! Rendering of rolled dice as text lines, with optional coloring of
//! critical successes and failures.

use vstd::prelude::*;

use crate::dice::Args;
use crate::dice::Die;
use crate::digits::dec_digits;
use crate::digits::dec_int;
use crate::digits::i64_to_string;
use crate::digits::u64_to_string;
use crate::eval::count_eq;
use crate::eval::eval_counts;
use crate::eval::eval_sum;
use crate::eval::lemma_count_le_len;
use crate::eval::report_sum;
use vstd::arithmetic::div_mod::lemma_mod_multiples_vanish;
use vstd::arithmetic::div_mod::lemma_small_mod;

verus! {

/// Sixteen-bit two's-complement wrapping of an integer: the displayed
/// value of a roll wraps rather than erroring when the modifier
/// addition overflows.
pub open spec fn wrap_i16(n: int) -> int {
    ((n + 32768) % 65536) - 32768
}

/// The SGR sequence that starts bold red text.
pub open spec fn red_bold_prefix() -> Seq<char> {
    seq!['\u{1b}', '[', '1', ';', '3', '1', 'm']
}

/// The SGR sequence that starts bold blue text.
pub open spec fn blue_bold_prefix() -> Seq<char> {
    seq!['\u{1b}', '[', '1', ';', '3', '4', 'm']
}

/// The SGR sequence that resets all styles.
pub open spec fn sgr_reset() -> Seq<char> {
    seq!['\u{1b}', '[', '0', 'm']
}

/// Text wrapped in the bold red style.
pub open spec fn red_bold(s: Seq<char>) -> Seq<char> {
    red_bold_prefix() + s + sgr_reset()
}

/// Text wrapped in the bold blue style.
pub open spec fn blue_bold(s: Seq<char>) -> Seq<char> {
    blue_bold_prefix() + s + sgr_reset()
}

/// How one displayed value is rendered: plain when color is off; in
/// the failure style when it is at most one; in the success style when
/// it reaches the die's size; plain otherwise.
pub open spec fn die_format_model(x: int, size: int, color: bool) -> Seq<char> {
    if !color {
        dec_int(x)
    } else if x <= 1 {
        red_bold(dec_int(x))
    } else if x >= size {
        blue_bold(dec_int(x))
    } else {
        dec_int(x)
    }
}

/// The displayed values of a batch of rolls: each roll plus the
/// modifier, wrapped to sixteen bits, each rendered.
pub open spec fn shown_model(d: Die, rolls: Seq<u16>, color: bool) -> Seq<Seq<char>> {
    rolls.map_values(|r: u16| die_format_model(wrap_i16(r + d.modifier), d.size as int, color))
}

/// The parts joined with a comma and a space between each two.
pub open spec fn join_model(parts: Seq<Seq<char>>) -> Seq<char>
    decreases parts.len(),
{
    if parts.len() == 0 {
        Seq::empty()
    } else if parts.len() == 1 {
        parts[0]
    } else {
        join_model(parts.drop_last()) + seq![',', ' '] + parts.last()
    }
}

/// The header line of one die: quantity, separator, size, and the
/// signed modifier when there is one.
pub open spec fn header_model(d: Die) -> Seq<char> {
    let plain = dec_digits(d.quantity as int) + seq!['d'] + dec_digits(d.size as int);
    if d.modifier == 0 {
        plain + seq![':']
    } else if d.modifier < 0 {
        plain + seq![' ', '-'] + dec_digits(-(d.modifier as int)) + seq![':']
    } else {
        plain + seq![' ', '+'] + dec_digits(d.modifier as int) + seq![':']
    }
}

/// The result line of one die: the displayed values, then the sum or
/// the counts when one of those modes is on.
pub open spec fn result_line_model(d: Die, rolls: Seq<u16>, args: Args) -> Seq<char> {
    let joined = join_model(shown_model(d, rolls, args.color));
    if args.sum {
        "=> ("@ + joined + "): ["@ + dec_int(report_sum(d, rolls)) + "]"@
    } else if args.count {
        "=> ("@ + joined + "): [crit successes: "@ + dec_digits(count_eq(rolls, d.size))
            + ", crit failures: "@ + dec_digits(count_eq(rolls, 1)) + "]"@
    } else {
        "=> ("@ + joined + ")"@
    }
}

/// The notice printed when a painful reroll happens.
pub open spec fn notice_model(d: Die) -> Seq<char> {
    if d.quantity == 1 {
        "Your die rolled off the table. Doesn't count!"@
    } else {
        "Your dice rolled off the table. Doesn't count!"@
    }
}

/// Relies on ansi_term: painting text with `Colour::Red.bold()` wraps
/// it in the SGR codes `ESC [1;31m` and `ESC [0m`.
#[verifier::external_body]
fn paint_red_bold(s: &str) -> (r: String)
    ensures
        r@ == red_bold(s@),
{
    ansi_term::Colour::Red.bold().paint(s).to_string()
}

/// Relies on ansi_term: painting text with `Colour::Blue.bold()` wraps
/// it in the SGR codes `ESC [1;34m` and `ESC [0m`.
#[verifier::external_body]
fn paint_blue_bold(s: &str) -> (r: String)
    ensures
        r@ == blue_bold(s@),
{
    ansi_term::Colour::Blue.bold().paint(s).to_string()
}

/// The value a roll is displayed as: the modifier added to the roll,
/// wrapping around the sixteen-bit signed range.
pub fn displayed_value(roll: u16, modifier: i16) -> (d: i16)
    ensures
        d == wrap_i16(roll + modifier),
{
    let t: i32 = (roll as i32) + (modifier as i32);
    if t > 32767 {
        proof {
            lemma_mod_multiples_vanish(1, t - 32768, 65536);
            lemma_small_mod((t - 32768) as nat, 65536);
        }
        (t - 65536) as i16
    } else {
        proof {
            lemma_small_mod((t + 32768) as nat, 65536);
        }
        t as i16
    }
}

/// Render one displayed value, coloring it when asked to.
pub fn die_format(x: i16, size: u16, color: bool) -> (r: String)
    ensures
        r@ == die_format_model(x as int, size as int, color),
{
    let plain = i64_to_string(x as i64);
    if !color {
        plain
    } else if x <= 1 {
        paint_red_bold(plain.as_str())
    } else if (x as i32) >= (size as i32) {
        paint_blue_bold(plain.as_str())
    } else {
        plain
    }
}

/// Join rendered parts with a comma and a space between each two.
fn join_strings(parts: &Vec<String>) -> (r: String)
    ensures
        r@ == join_model(parts@.map_values(|p: String| p@)),
{
    let ghost model = parts@.map_values(|p: String| p@);
    let mut out = String::new();
    let mut k: usize = 0;
    while k < parts.len()
        invariant
            k <= parts@.len(),
            model == parts@.map_values(|p: String| p@),
            out@ == join_model(model.take(k as int)),
        decreases parts@.len() - k,
    {
        proof {
            assert(model.take(k as int + 1).drop_last() =~= model.take(k as int));
            assert(model.take(k as int + 1).last() == model[k as int]);
        }
        if k > 0 {
            out.append(", ");
            proof {
                reveal_strlit(", ");
                assert(", "@ =~= seq![',', ' ']);
            }
        }
        out.append(parts[k].as_str());
        proof {
            if k == 0 {
                assert(model.take(1) =~= seq![model[0]]);
            }
        }
        k = k + 1;
    }
    proof {
        assert(model.take(k as int) =~= model);
    }
    out
}

/// Render the header line of one die.
pub fn header_line(d: &Die) -> (r: String)
    ensures
        r@ == header_model(*d),
{
    let mut s = u64_to_string(d.quantity as u64);
    s.append("d");
    s.append(u64_to_string(d.size as u64).as_str());
    proof {
        reveal_strlit("d");
        assert("d"@ =~= seq!['d']);
    }
    if d.modifier == 0 {
        s.append(":");
        proof {
            reveal_strlit(":");
            assert(":"@ =~= seq![':']);
        }
        s
    } else if d.modifier < 0 {
        let mag: i64 = -(d.modifier as i64);
        s.append(" -");
        s.append(u64_to_string(mag as u64).as_str());
        s.append(":");
        proof {
            reveal_strlit(" -");
            reveal_strlit(":");
            assert(" -"@ =~= seq![' ', '-']);
            assert(":"@ =~= seq![':']);
            assert(s@ =~= header_model(*d));
        }
        s
    } else {
        s.append(" +");
        s.append(u64_to_string(d.modifier as u64).as_str());
        s.append(":");
        proof {
            reveal_strlit(" +");
            reveal_strlit(":");
            assert(" +"@ =~= seq![' ', '+']);
            assert(":"@ =~= seq![':']);
            assert(s@ =~= header_model(*d));
        }
        s
    }
}

/// Render the two output lines of one rolled die: its header and its
/// result line.
pub fn render_rolls(d: &Die, rolls: &Vec<u16>, args: &Args) -> (lines: Vec<String>)
    requires
        rolls@.len() <= u16::MAX,
    ensures
        lines@.len() == 2,
        lines@[0]@ == header_model(*d),
        lines@[1]@ == result_line_model(*d, rolls@, *args),
{
    let ghost model = shown_model(*d, rolls@, args.color);
    let mut shown: Vec<String> = Vec::new();
    let mut k: usize = 0;
    while k < rolls.len()
        invariant
            k <= rolls@.len(),
            model == shown_model(*d, rolls@, args.color),
            shown@.len() == k,
            forall|i: int| 0 <= i < k ==> shown@[i]@ == model[i],
        decreases rolls@.len() - k,
    {
        let x = displayed_value(rolls[k], d.modifier);
        let rendered = die_format(x, d.size, args.color);
        shown.push(rendered);
        k = k + 1;
    }
    proof {
        assert(shown@.map_values(|p: String| p@) =~= model);
    }
    let joined = join_strings(&shown);

    let mut line = String::new();
    line.append("=> (");
    line.append(joined.as_str());
    if args.sum {
        let total = eval_sum(d, rolls);
        line.append("): [");
        line.append(i64_to_string(total).as_str());
        line.append("]");
    } else if args.count {
        let c = eval_counts(d, rolls);
        proof {
            lemma_count_le_len(rolls@, d.size);
            lemma_count_le_len(rolls@, 1);
        }
        line.append("): [crit successes: ");
        line.append(u64_to_string(c.0 as u64).as_str());
        line.append(", crit failures: ");
        line.append(u64_to_string(c.1 as u64).as_str());
        line.append("]");
    } else {
        line.append(")");
    }
    proof {
        assert(line@ == result_line_model(*d, rolls@, *args));
    }

    let mut lines: Vec<String> = Vec::new();
    lines.push(header_line(d));
    lines.push(line);
    lines
}

/// Render the notice shown when a painful reroll happens.
pub fn reroll_notice(d: &Die) -> (r: String)
    ensures
        r@ == notice_model(*d),
{
    let mut s = String::new();
    if d.quantity() == 1 {
        s.append("Your die rolled off the table. Doesn't count!");
    } else {
        s.append("Your dice rolled off the table. Doesn't count!");
    }
    s
}

} // verus!
