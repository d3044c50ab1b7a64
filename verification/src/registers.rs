//! The register names of the machine.

use vstd::prelude::*;
use crate::text::{chars_of, to_upper, uppercase_of};

verus! {

/// The eight registers of the machine, and `NIL`, which stands for "no
/// register" and has no storage slot.
#[derive(Clone, Copy, Debug, PartialEq, Eq, Structural)]
pub enum Register {
    RAX,
    RBX,
    RCX,
    RDX,
    RSI,
    RDI,
    RSP,
    RBP,
    NIL,
}

impl Register {
    /// The position of the register in the register file. `NIL` comes after
    /// the last slot.
    pub open spec fn ordinal(self) -> int {
        match self {
            Register::RAX => 0,
            Register::RBX => 1,
            Register::RCX => 2,
            Register::RDX => 3,
            Register::RSI => 4,
            Register::RDI => 5,
            Register::RSP => 6,
            Register::RBP => 7,
            Register::NIL => 8,
        }
    }

    /// The register that the two letters of a base name stand for.
    pub open spec fn base_named(first: char, second: char) -> Option<Register> {
        if first == 'A' && second == 'X' {
            Some(Register::RAX)
        } else if first == 'B' && second == 'X' {
            Some(Register::RBX)
        } else if first == 'C' && second == 'X' {
            Some(Register::RCX)
        } else if first == 'D' && second == 'X' {
            Some(Register::RDX)
        } else if first == 'S' && second == 'I' {
            Some(Register::RSI)
        } else if first == 'D' && second == 'I' {
            Some(Register::RDI)
        } else if first == 'S' && second == 'P' {
            Some(Register::RSP)
        } else if first == 'B' && second == 'P' {
            Some(Register::RBP)
        } else {
            None
        }
    }

    /// The register that an upper-case spelling names: one of the eight base
    /// names `AX BX CX DX SI DI SP BP`, alone or behind the width letter `E`
    /// or `R`. The width letter carries no meaning.
    pub open spec fn named(upper: Seq<char>) -> Option<Register> {
        if upper.len() == 2 {
            Self::base_named(upper[0], upper[1])
        } else if upper.len() == 3 && (upper[0] == 'R' || upper[0] == 'E') {
            Self::base_named(upper[1], upper[2])
        } else {
            None
        }
    }

    /// The symbolic name under which the register is printed.
    pub open spec fn symbol(self) -> Seq<char> {
        match self {
            Register::RAX => "RAX"@,
            Register::RBX => "RBX"@,
            Register::RCX => "RCX"@,
            Register::RDX => "RDX"@,
            Register::RSI => "RSI"@,
            Register::RDI => "RDI"@,
            Register::RSP => "RSP"@,
            Register::RBP => "RBP"@,
            Register::NIL => "NIL"@,
        }
    }

    /// The position of the register in the register file.
    pub fn index(self) -> (r: usize)
        ensures
            r == self.ordinal(),
    {
        match self {
            Register::RAX => 0,
            Register::RBX => 1,
            Register::RCX => 2,
            Register::RDX => 3,
            Register::RSI => 4,
            Register::RDI => 5,
            Register::RSP => 6,
            Register::RBP => 7,
            Register::NIL => 8,
        }
    }

    /// The symbolic name of the register.
    pub fn name(self) -> (r: String)
        ensures
            r@ == self.symbol(),
    {
        match self {
            Register::RAX => "RAX".to_owned(),
            Register::RBX => "RBX".to_owned(),
            Register::RCX => "RCX".to_owned(),
            Register::RDX => "RDX".to_owned(),
            Register::RSI => "RSI".to_owned(),
            Register::RDI => "RDI".to_owned(),
            Register::RSP => "RSP".to_owned(),
            Register::RBP => "RBP".to_owned(),
            Register::NIL => "NIL".to_owned(),
        }
    }

    fn base(first: char, second: char) -> (r: Option<Register>)
        ensures
            r == Self::base_named(first, second),
    {
        if first == 'A' && second == 'X' {
            Some(Register::RAX)
        } else if first == 'B' && second == 'X' {
            Some(Register::RBX)
        } else if first == 'C' && second == 'X' {
            Some(Register::RCX)
        } else if first == 'D' && second == 'X' {
            Some(Register::RDX)
        } else if first == 'S' && second == 'I' {
            Some(Register::RSI)
        } else if first == 'D' && second == 'I' {
            Some(Register::RDI)
        } else if first == 'S' && second == 'P' {
            Some(Register::RSP)
        } else if first == 'B' && second == 'P' {
            Some(Register::RBP)
        } else {
            None
        }
    }

    /// Looks an upper-case spelling up among the register names.
    pub fn from_upper(upper: &str) -> (r: Option<Register>)
        ensures
            r == Self::named(upper@),
    {
        let chars = chars_of(upper);
        if chars.len() == 2 {
            Self::base(chars[0], chars[1])
        } else if chars.len() == 3 && (chars[0] == 'R' || chars[0] == 'E') {
            Self::base(chars[1], chars[2])
        } else {
            None
        }
    }

    /// Whether `name` is a register name, whatever its letter case.
    pub fn is_reg(name: &String) -> (r: bool)
        ensures
            r == Self::named(uppercase_of(name@)).is_some(),
    {
        Self::from_string(name).is_some()
    }

    /// The register that `name` names, whatever its letter case; `None` if it
    /// names none.
    pub fn from_string(name: &String) -> (r: Option<Register>)
        ensures
            r == Self::named(uppercase_of(name@)),
    {
        let upper = to_upper(name.as_str());
        Self::from_upper(upper.as_str())
    }
}

/// The width letter of a register name carries no meaning: the plain name and
/// the names behind `E` and `R` all name the same register.
pub proof fn lemma_width_letter_is_ignored(first: char, second: char)
    ensures
        Register::named(seq!['E', first, second]) == Register::named(seq![first, second]),
        Register::named(seq!['R', first, second]) == Register::named(seq![first, second]),
{
}

/// A spelling names a register exactly when it is the symbol of a register
/// with a storage slot, with the leading `R` kept, replaced by `E`, or dropped.
pub proof fn lemma_named_registers(upper: Seq<char>, reg: Register)
    requires
        Register::named(upper) == Some(reg),
    ensures
        reg != Register::NIL,
        upper == reg.symbol() || upper == reg.symbol().update(0, 'E') || upper
            == reg.symbol().subrange(1, 3),
{
    reveal_strlit("RAX");
    reveal_strlit("RBX");
    reveal_strlit("RCX");
    reveal_strlit("RDX");
    reveal_strlit("RSI");
    reveal_strlit("RDI");
    reveal_strlit("RSP");
    reveal_strlit("RBP");
    let s = reg.symbol();
    if upper.len() == 2 {
        assert(upper =~= s.subrange(1, 3));
    } else if upper[0] == 'R' {
        assert(upper =~= s);
    } else {
        assert(upper =~= s.update(0, 'E'));
    }
}

} // verus!
