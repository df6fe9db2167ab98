//! The die model and the plain data types around it.

use vstd::prelude::*;

verus! {

/// A batch of identical dice: how many to roll, how many sides each has,
/// and a signed adjustment added to every rolled value.
#[derive(Clone, Copy, Debug, PartialEq, Eq, Structural)]
pub struct Die {
    /// The number of dice to roll.
    pub quantity: u16,
    /// The number of sides on the die.
    pub size: u16,
    /// The number to add to / subtract from each roll.
    pub modifier: i16,
}

impl Die {
    /// A die is well formed when it has at least one side.
    pub open spec fn wf(self) -> bool {
        self.size >= 1
    }

    /// Create a new die from a quantity, a size and a modifier.
    /// A die with no sides is rejected.
    pub fn new(quantity: u16, size: u16, modifier: i16) -> (r: Result<Self, crate::error::DiceError>)
        ensures
            size >= 1 ==> r == Ok::<Die, crate::error::DiceError>(
                Die { quantity, size, modifier },
            ),
            size == 0 ==> (r matches Err(e) && e.spec_kind() == crate::error::ErrKind::InvalidDieSize),
    {
        if size < 1 {
            Err(crate::error::DiceError::InvalidDieSize)
        } else {
            Ok(Die { quantity, size, modifier })
        }
    }

    pub fn size(&self) -> (r: u16)
        ensures
            r == self.size,
    {
        self.size
    }

    pub fn quantity(&self) -> (r: u16)
        ensures
            r == self.quantity,
    {
        self.quantity
    }

    pub fn modifier(&self) -> (r: i16)
        ensures
            r == self.modifier,
    {
        self.modifier
    }

    /// The short label a die is shown as: `d` and its size.
    pub fn label(&self) -> (r: String)
        ensures
            r@ == seq!['d'] + crate::digits::dec_digits(self.size as int),
    {
        let mut s = String::new();
        s.append("d");
        s.append(crate::digits::u64_to_string(self.size as u64).as_str());
        proof {
            reveal_strlit("d");
            assert("d"@ =~= seq!['d']);
        }
        s
    }
}

/// A named collection of dice.
pub struct DiceSet {
    pub name: String,
    pub dice: Vec<Die>,
}

/// A named, persisted collection of dice sets.
pub struct Profile {
    pub ident: String,
    pub sets: Vec<DiceSet>,
}

/// The persisted configuration: every known profile.
pub struct Config {
    pub profiles: Vec<Profile>,
}

impl Default for DiceSet {
    fn default() -> (r: Self)
        ensures
            r.name@.len() == 0,
            r.dice@.len() == 0,
    {
        Self { name: String::new(), dice: Vec::new() }
    }
}

impl Default for Profile {
    fn default() -> (r: Self)
        ensures
            r.ident@.len() == 0,
            r.sets@.len() == 0,
    {
        Self { ident: String::new(), sets: Vec::new() }
    }
}

impl Default for Config {
    fn default() -> (r: Self)
        ensures
            r.profiles@.len() == 0,
    {
        Self { profiles: Vec::new() }
    }
}

/// The options a run of the roller is invoked with.
pub struct Args {
    /// The dice expressions to roll.
    pub dice: Vec<String>,
    /// Color critical successes and failures.
    pub color: bool,
    /// Sum the rolls of each die.
    pub sum: bool,
    /// Count the number of successes and failures.
    pub count: bool,
    /// Adds some unwanted 'features'.
    pub painful: bool,
    /// Use a profile with a given name.
    pub profile: Option<String>,
}

} // verus!
