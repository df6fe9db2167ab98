//! The dice-expression grammar and its verified parser.
//!
//! An expression is matched the way the pattern
//! `(quantity digits) [d \ /] (size digits) ([+-] modifier digits)?`
//! matches a string: at the leftmost position where a digit run,
//! a separator and a second digit run meet, with greedy digit runs
//! and an optional signed modifier right after the size.

use vstd::prelude::*;

use crate::dice::Args;
use crate::dice::Die;
use crate::digits::all_digits;
use crate::digits::digits_val;
use crate::digits::is_digit;
use crate::digits::lemma_digits_val_nonneg;
use crate::digits::lemma_digits_val_prefix_le;
use crate::digits::lemma_digits_val_push;
use crate::error::DiceError;
use crate::error::ErrKind;

verus! {

/// Is this character one of the accepted quantity/size separators?
pub open spec fn is_sep(c: char) -> bool {
    c == 'd' || c == '/' || c == '\\'
}

/// Is this character a modifier sign?
pub open spec fn is_sign(c: char) -> bool {
    c == '+' || c == '-'
}

/// The end of the maximal digit run that starts at `i`.
pub open spec fn run_end(s: Seq<char>, i: int) -> int
    decreases s.len() - i,
    when 0 <= i <= s.len()
{
    if i < s.len() && is_digit(s[i]) {
        run_end(s, i + 1)
    } else {
        i
    }
}

/// Does a dice expression match at position `i`: a nonempty digit run,
/// then a separator, then at least one more digit?
pub open spec fn match_at(s: Seq<char>, i: int) -> bool {
    let qe = run_end(s, i);
    &&& qe > i
    &&& qe < s.len()
    &&& is_sep(s[qe])
    &&& run_end(s, qe + 1) > qe + 1
}

/// The first position at or after `i` where the expression matches,
/// or -1 when there is none.
pub open spec fn first_match_from(s: Seq<char>, i: int) -> int
    decreases s.len() - i,
    when 0 <= i <= s.len()
{
    if i >= s.len() {
        -1
    } else if match_at(s, i) {
        i
    } else {
        first_match_from(s, i + 1)
    }
}

/// The leftmost match position, or -1 when nothing matches.
pub open spec fn first_match(s: Seq<char>) -> int {
    first_match_from(s, 0)
}

/// Does any position match?
pub open spec fn has_match(s: Seq<char>) -> bool {
    first_match(s) >= 0
}

/// The end of the quantity digits of the leftmost match.
pub open spec fn quantity_end(s: Seq<char>) -> int {
    run_end(s, first_match(s))
}

/// The end of the size digits of the leftmost match.
pub open spec fn size_end(s: Seq<char>) -> int {
    run_end(s, quantity_end(s) + 1)
}

/// The captured quantity digits of the leftmost match.
pub open spec fn cap_quantity(s: Seq<char>) -> Seq<char> {
    s.subrange(first_match(s), quantity_end(s))
}

/// The captured size digits of the leftmost match.
pub open spec fn cap_size(s: Seq<char>) -> Seq<char> {
    s.subrange(quantity_end(s) + 1, size_end(s))
}

/// Does a signed modifier follow the size digits of the leftmost match?
pub open spec fn has_modifier(s: Seq<char>) -> bool {
    let se = size_end(s);
    &&& se < s.len()
    &&& is_sign(s[se])
    &&& se + 1 < s.len()
    &&& is_digit(s[se + 1])
}

/// The captured modifier digits of the leftmost match, sign excluded.
pub open spec fn cap_modifier(s: Seq<char>) -> Seq<char> {
    s.subrange(size_end(s) + 1, run_end(s, size_end(s) + 1))
}

/// The signed value of the modifier of the leftmost match; zero when
/// the modifier is absent.
pub open spec fn modifier_val(s: Seq<char>) -> int {
    if has_modifier(s) {
        if s[size_end(s)] == '-' {
            -digits_val(cap_modifier(s))
        } else {
            digits_val(cap_modifier(s))
        }
    } else {
        0
    }
}

/// What parsing one expression yields: the die of the leftmost match,
/// or the error the input is rejected with.
pub open spec fn parse_model(s: Seq<char>) -> Result<Die, ErrKind> {
    if !has_match(s) {
        Err(ErrKind::MalformedExpression)
    } else {
        let q = digits_val(cap_quantity(s));
        let z = digits_val(cap_size(s));
        let m = modifier_val(s);
        if q > u16::MAX || z > u16::MAX || m > i16::MAX || m < i16::MIN {
            Err(ErrKind::NumericOverflow)
        } else if z == 0 {
            Err(ErrKind::InvalidDieSize)
        } else {
            Ok(Die { quantity: q as u16, size: z as u16, modifier: m as i16 })
        }
    }
}

/// A match that exists lies inside the string and really matches there.
pub proof fn lemma_first_match_valid(s: Seq<char>)
    ensures
        has_match(s) ==> 0 <= first_match(s) < s.len() && match_at(s, first_match(s)),
{
    lemma_first_match_from_valid(s, 0);
}

proof fn lemma_first_match_from_valid(s: Seq<char>, i: int)
    requires
        0 <= i <= s.len(),
    ensures
        first_match_from(s, i) >= 0 ==> i <= first_match_from(s, i) < s.len() && match_at(
            s,
            first_match_from(s, i),
        ),
    decreases s.len() - i,
{
    if i < s.len() && !match_at(s, i) {
        lemma_first_match_from_valid(s, i + 1);
    }
}

/// A parsed die always has at least one side: a zero size is rejected
/// before any rolling can happen.
pub proof fn lemma_zero_size_rejected(s: Seq<char>)
    ensures
        parse_model(s) matches Ok(d) ==> d.wf(),
{
    if has_match(s) {
        lemma_first_match_valid(s);
        let i = first_match(s);
        let qe = quantity_end(s);
        lemma_run_end_bounds(s, i);
        lemma_run_end_bounds(s, qe + 1);
        let z = cap_size(s);
        assert forall|j: int| 0 <= j < z.len() implies is_digit(z[j]) by {
            assert(z[j] == s[qe + 1 + j]);
        }
        assert(all_digits(z));
        lemma_digits_val_nonneg(z);
    }
}

/// A whole expression of the form quantity, separator, size parses to
/// exactly those fields, with a modifier of zero.
pub proof fn lemma_parse_exact(q: Seq<char>, sep: char, z: Seq<char>)
    requires
        q.len() > 0,
        z.len() > 0,
        all_digits(q),
        all_digits(z),
        is_sep(sep),
        digits_val(q) <= u16::MAX,
        1 <= digits_val(z) <= u16::MAX,
    ensures
        parse_model(q + seq![sep] + z) == Ok::<Die, ErrKind>(
            Die {
                quantity: digits_val(q) as u16,
                size: digits_val(z) as u16,
                modifier: 0,
            },
        ),
{
    let s = q + seq![sep] + z;
    let ql = q.len() as int;
    let zl = z.len() as int;
    lemma_exact_prefix_match(s, q, sep, z);
    assert(cap_quantity(s) =~= q);
    assert(cap_size(s) =~= z);
    assert(size_end(s) == s.len());
    assert(!has_modifier(s));
    lemma_digits_val_nonneg(q);
}

/// A whole expression of the form quantity, separator, size, sign,
/// modifier parses to exactly those fields.
pub proof fn lemma_parse_exact_with_modifier(
    q: Seq<char>,
    sep: char,
    z: Seq<char>,
    sign: char,
    m: Seq<char>,
)
    requires
        q.len() > 0,
        z.len() > 0,
        m.len() > 0,
        all_digits(q),
        all_digits(z),
        all_digits(m),
        is_sep(sep),
        is_sign(sign),
        digits_val(q) <= u16::MAX,
        1 <= digits_val(z) <= u16::MAX,
        sign == '-' ==> digits_val(m) <= 32768,
        sign == '+' ==> digits_val(m) <= 32767,
    ensures
        parse_model(q + seq![sep] + z + seq![sign] + m) == Ok::<Die, ErrKind>(
            Die {
                quantity: digits_val(q) as u16,
                size: digits_val(z) as u16,
                modifier: (if sign == '-' {
                    -digits_val(m)
                } else {
                    digits_val(m)
                }) as i16,
            },
        ),
{
    let s = q + seq![sep] + z + seq![sign] + m;
    let ql = q.len() as int;
    let zl = z.len() as int;
    let se = ql + 1 + zl;
    lemma_exact_prefix_match(s, q, sep, z);
    assert(cap_quantity(s) =~= q);
    assert(cap_size(s) =~= z);
    assert(size_end(s) == se);
    assert(s[se] == sign);
    assert(s[se + 1] == m[0]);
    assert(has_modifier(s));
    assert forall|j: int| se + 1 <= j < s.len() implies is_digit(s[j]) by {
        assert(s[j] == m[j - (se + 1)]);
    }
    lemma_run_end_characterize(s, se + 1, s.len() as int);
    assert(cap_modifier(s) =~= m);
    lemma_digits_val_nonneg(q);
    lemma_digits_val_nonneg(m);
}

/// The shared part of the exact-parse laws: in a string that starts
/// with digits, a separator and more digits, and goes on with anything
/// that does not begin with a digit, the leftmost match starts at zero
/// and captures exactly those two digit runs.
proof fn lemma_exact_prefix_match(s: Seq<char>, q: Seq<char>, sep: char, z: Seq<char>)
    requires
        q.len() > 0,
        z.len() > 0,
        all_digits(q),
        all_digits(z),
        is_sep(sep),
        s.len() >= q.len() + 1 + z.len(),
        forall|j: int| 0 <= j < q.len() ==> s[j] == q[j],
        s[q.len() as int] == sep,
        forall|j: int| 0 <= j < z.len() ==> s[q.len() + 1 + j] == z[j],
        q.len() + 1 + z.len() < s.len() ==> !is_digit(s[q.len() + 1 + z.len() as int]),
    ensures
        first_match(s) == 0,
        quantity_end(s) == q.len(),
        size_end(s) == q.len() + 1 + z.len(),
        cap_quantity(s) == s.subrange(0, q.len() as int),
        cap_size(s) == s.subrange(q.len() + 1 as int, q.len() + 1 + z.len() as int),
{
    let ql = q.len() as int;
    let zl = z.len() as int;
    assert forall|j: int| 0 <= j < ql implies is_digit(s[j]) by {
        assert(s[j] == q[j]);
    }
    lemma_run_end_characterize(s, 0, ql);
    assert forall|j: int| ql + 1 <= j < ql + 1 + zl implies is_digit(s[j]) by {
        assert(s[j] == z[j - (ql + 1)]);
    }
    lemma_run_end_characterize(s, ql + 1, ql + 1 + zl);
    assert(match_at(s, 0));
    assert(first_match_from(s, 0) == 0);
}

/// Where a digit run ends: at the first non-digit at or after its start.
proof fn lemma_run_end_characterize(s: Seq<char>, i: int, e: int)
    requires
        0 <= i <= e <= s.len(),
        forall|j: int| i <= j < e ==> is_digit(s[j]),
        e == s.len() || !is_digit(s[e]),
    ensures
        run_end(s, i) == e,
    decreases e - i,
{
    if i < e {
        lemma_run_end_characterize(s, i + 1, e);
    }
}

/// The run end lies between its start and the string's end, and only
/// digits stand before it.
proof fn lemma_run_end_bounds(s: Seq<char>, i: int)
    requires
        0 <= i <= s.len(),
    ensures
        i <= run_end(s, i) <= s.len(),
        forall|j: int| i <= j < run_end(s, i) ==> is_digit(s[j]),
    decreases s.len() - i,
{
    if i < s.len() && is_digit(s[i]) {
        lemma_run_end_bounds(s, i + 1);
    }
}

/// Skipping positions that do not match does not change the first match.
proof fn lemma_first_match_skip(s: Seq<char>, i: int)
    requires
        0 <= i <= s.len(),
        forall|j: int| 0 <= j < i ==> !match_at(s, j),
    ensures
        first_match(s) == first_match_from(s, i),
    decreases i,
{
    if i > 0 {
        lemma_first_match_skip(s, i - 1);
    }
}

/// Compute the end of the maximal digit run that starts at `i`.
fn run_end_x(s: &str, i: usize, n: usize) -> (e: usize)
    requires
        n == s@.len(),
        i <= n,
    ensures
        e == run_end(s@, i as int),
        i <= e <= n,
    decreases n - i,
{
    if i < n {
        let c = s.get_char(i);
        if '0' <= c && c <= '9' {
            return run_end_x(s, i + 1, n);
        }
    }
    i
}

/// Read the value of the digit range `[from, to)` of `s` as a `u16`;
/// `None` when it does not fit.
fn parse_u16_range(s: &str, from: usize, to: usize) -> (r: Option<u16>)
    requires
        from <= to <= s@.len(),
        forall|j: int| from <= j < to ==> is_digit(s@[j]),
    ensures
        match r {
            Some(v) => digits_val(s@.subrange(from as int, to as int)) == v,
            None => digits_val(s@.subrange(from as int, to as int)) > u16::MAX,
        },
{
    let ghost whole = s@.subrange(from as int, to as int);
    proof {
        assert forall|j: int| 0 <= j < whole.len() implies is_digit(whole[j]) by {
            assert(whole[j] == s@[from + j]);
        }
        assert(all_digits(whole));
    }
    let mut acc: u32 = 0;
    let mut k: usize = from;
    while k < to
        invariant
            from <= k <= to <= s@.len(),
            forall|j: int| from <= j < to ==> is_digit(s@[j]),
            whole == s@.subrange(from as int, to as int),
            acc == digits_val(s@.subrange(from as int, k as int)),
            acc <= u16::MAX,
        decreases to - k,
    {
        let c = s.get_char(k);
        proof {
            assert(is_digit(s@[k as int]));
        }
        let d: u32 = (c as u32) - ('0' as u32);
        let next: u32 = acc * 10 + d;
        proof {
            let pre = s@.subrange(from as int, k as int);
            let post = s@.subrange(from as int, k as int + 1);
            assert(post =~= pre.push(s@[k as int]));
            lemma_digits_val_push(pre, s@[k as int]);
            assert(digits_val(post) == acc * 10 + d);
        }
        if next > u16::MAX as u32 {
            proof {
                assert(whole.subrange(0, k as int + 1 - from) =~= s@.subrange(
                    from as int,
                    k as int + 1,
                ));
                lemma_digits_val_prefix_le(whole, k as int + 1 - from);
            }
            return None;
        }
        acc = next;
        k = k + 1;
    }
    proof {
        assert(s@.subrange(from as int, k as int) =~= whole);
    }
    Some(acc as u16)
}

/// Parse one dice expression: find the leftmost match of the grammar
/// and read its fields, rejecting what does not fit.
pub fn parse_die(s: &str) -> (r: Result<Die, DiceError>)
    ensures
        match r {
            Ok(d) => parse_model(s@) == Ok::<Die, ErrKind>(d),
            Err(e) => parse_model(s@) == Err::<Die, ErrKind>(e.spec_kind()) && (e.spec_input()
                matches Some(t) ==> t == s@),
        },
{
    let n = s.unicode_len();
    let mut i: usize = 0;
    while i < n
        invariant
            n == s@.len(),
            i <= n,
            forall|j: int| 0 <= j < i ==> !match_at(s@, j),
        decreases n - i,
    {
        let qe = run_end_x(s, i, n);
        proof {
            lemma_run_end_bounds(s@, i as int);
        }
        if qe > i && qe < n {
            let sep = s.get_char(qe);
            if sep == 'd' || sep == '/' || sep == '\\' {
                let se = run_end_x(s, qe + 1, n);
                proof {
                    lemma_run_end_bounds(s@, qe as int + 1);
                }
                if se > qe + 1 {
                    // the leftmost match starts here
                    proof {
                        assert(match_at(s@, i as int));
                        lemma_first_match_skip(s@, i as int);
                        assert(first_match(s@) == i);
                    }
                    return finish_match(s, n, i, qe, se);
                }
            }
        }
        proof {
            assert(!match_at(s@, i as int));
        }
        i = i + 1;
    }
    proof {
        lemma_first_match_skip(s@, n as int);
        assert(!has_match(s@));
    }
    Err(DiceError::MalformedExpression { input: s.to_owned() })
}

/// Read the fields of the leftmost match, found at `i` with quantity
/// digits ending at `qe` and size digits ending at `se`.
fn finish_match(s: &str, n: usize, i: usize, qe: usize, se: usize) -> (r: Result<
    Die,
    DiceError,
>)
    requires
        n == s@.len(),
        first_match(s@) == i,
        qe == run_end(s@, i as int),
        se == run_end(s@, qe as int + 1),
        i < qe < n,
        qe + 1 < se <= n,
    ensures
        match r {
            Ok(d) => parse_model(s@) == Ok::<Die, ErrKind>(d),
            Err(e) => parse_model(s@) == Err::<Die, ErrKind>(e.spec_kind()) && (e.spec_input()
                matches Some(t) ==> t == s@),
        },
{
    proof {
        lemma_run_end_bounds(s@, i as int);
        lemma_run_end_bounds(s@, qe as int + 1);
    }
    let quantity = parse_u16_range(s, i, qe);
    let size = parse_u16_range(s, qe + 1, se);

    // the optional signed modifier right after the size digits
    let mut modifier_overflows = false;
    let mut modifier: i16 = 0;
    let ghost m = modifier_val(s@);
    if se < n {
        let sign = s.get_char(se);
        if (sign == '+' || sign == '-') && se + 1 < n {
            let c = s.get_char(se + 1);
            if '0' <= c && c <= '9' {
                let me = run_end_x(s, se + 1, n);
                proof {
                    lemma_run_end_bounds(s@, se as int + 1);
                    assert(has_modifier(s@));
                }
                match parse_u16_range(s, se + 1, me) {
                    None => {
                        proof {
                            lemma_digits_val_nonneg(cap_modifier(s@));
                        }
                        modifier_overflows = true;
                    },
                    Some(v) => {
                        if sign == '-' {
                            if v > 32768 {
                                modifier_overflows = true;
                            } else {
                                modifier = (-(v as i32)) as i16;
                            }
                        } else {
                            if v > 32767 {
                                modifier_overflows = true;
                            } else {
                                modifier = v as i16;
                            }
                        }
                    },
                }
            }
        }
    }
    proof {
        if !has_modifier(s@) {
            assert(m == 0);
        }
    }

    match (quantity, size) {
        (Some(q), Some(z)) => {
            if modifier_overflows {
                Err(DiceError::NumericOverflow { input: s.to_owned() })
            } else if z == 0 {
                Err(DiceError::InvalidDieSize)
            } else {
                assert(parse_model(s@) == Ok::<Die, ErrKind>(
                    Die { quantity: q, size: z, modifier },
                ));
                Ok(Die { quantity: q, size: z, modifier })
            }
        },
        _ => Err(DiceError::NumericOverflow { input: s.to_owned() }),
    }
}

/// Every input parses, in order, to the corresponding die.
pub open spec fn all_parsed(inputs: Seq<String>, dies: Seq<Die>) -> bool {
    &&& dies.len() == inputs.len()
    &&& forall|i: int|
        0 <= i < inputs.len() ==> parse_model(inputs[i]@) == Ok::<Die, ErrKind>(dies[i])
}

/// The inputs before `j` parse, and the one at `j` fails with this error.
pub open spec fn fails_first_at(inputs: Seq<String>, e: DiceError, j: int) -> bool {
    &&& 0 <= j < inputs.len()
    &&& parse_model(inputs[j]@) == Err::<Die, ErrKind>(e.spec_kind())
    &&& forall|i: int| 0 <= i < j ==> parse_model(inputs[i]@) is Ok
    &&& (e.spec_input() matches Some(t) ==> t == inputs[j]@)
}

/// Parse a whole list of dice expressions, in order, stopping at the
/// first one that is rejected.
pub fn validate(dice: &Vec<String>) -> (r: Result<Vec<Die>, DiceError>)
    ensures
        match r {
            Ok(v) => all_parsed(dice@, v@) && (forall|i: int| 0 <= i < v@.len() ==> v@[i].wf()),
            Err(e) => exists|j: int| fails_first_at(dice@, e, j),
        },
{
    let mut out: Vec<Die> = Vec::new();
    let mut k: usize = 0;
    while k < dice.len()
        invariant
            k <= dice@.len(),
            all_parsed(dice@.take(k as int), out@),
            forall|i: int| 0 <= i < out@.len() ==> out@[i].wf(),
        decreases dice@.len() - k,
    {
        let ghost pre = out@;
        match parse_die(dice[k].as_str()) {
            Ok(d) => {
                proof {
                    lemma_zero_size_rejected(dice@[k as int]@);
                }
                out.push(d);
            },
            Err(e) => {
                proof {
                    assert forall|i: int| 0 <= i < k implies parse_model(dice@[i]@) is Ok by {
                        assert(dice@.take(k as int)[i] == dice@[i]);
                        assert(parse_model(dice@.take(k as int)[i]@) == Ok::<Die, ErrKind>(
                            out@[i],
                        ));
                    }
                    assert(fails_first_at(dice@, e, k as int));
                }
                return Err(e);
            },
        }
        proof {
            assert(dice@.take(k as int + 1).drop_last() =~= dice@.take(k as int));
            assert(dice@.take(k as int + 1).last() == dice@[k as int]);
            assert(forall|i: int|
                0 <= i < k ==> dice@.take(k as int + 1)[i] == dice@.take(k as int)[i]);
            assert(out@ == pre.push(out@.last()));
        }
        k = k + 1;
    }
    proof {
        assert(dice@.take(k as int) =~= dice@);
    }
    Ok(out)
}

/// Parse the expressions a run was invoked with: reject an empty list,
/// otherwise validate every expression.
pub fn parse(args: &Args) -> (r: Result<Vec<Die>, DiceError>)
    ensures
        match r {
            Ok(v) => args.dice@.len() > 0 && all_parsed(args.dice@, v@) && (forall|i: int|
                0 <= i < v@.len() ==> v@[i].wf()),
            Err(e) => if args.dice@.len() == 0 {
                e.spec_kind() == ErrKind::EmptyInput
            } else {
                exists|j: int| fails_first_at(args.dice@, e, j)
            },
        },
{
    if args.dice.len() == 0 {
        return Err(DiceError::EmptyInput);
    }
    validate(&args.dice)
}

} // verus!
