//! Machine registers.

use vstd::prelude::*;

verus! {

/// A general-purpose register, named by its hardware encoding.
#[derive(Clone, Copy, Debug, PartialEq, Eq, Hash)]
pub struct Reg {
    enc: u8,
}

impl Reg {
    /// Number of general-purpose registers a target may name.
    pub const COUNT: u8 = 32;

    #[verifier::type_invariant]
    spec fn in_range(self) -> bool {
        self.enc < 32
    }

    /// The hardware encoding of the register.
    pub closed spec fn spec_hw_enc(self) -> u8 {
        self.enc
    }

    /// The general-purpose register with hardware encoding `enc`.
    pub closed spec fn spec_new(enc: u8) -> Reg {
        Reg { enc }
    }

    /// The general-purpose register with hardware encoding `enc`.
    #[verifier::when_used_as_spec(spec_new)]
    pub fn new(enc: u8) -> (reg: Reg)
        requires
            enc < Reg::COUNT,
        ensures
            reg == Reg::spec_new(enc),
            reg.spec_hw_enc() == enc,
    {
        Reg { enc }
    }

    /// A register has the encoding it was made with.
    pub proof fn lemma_encoding_of_new(enc: u8)
        ensures
            Reg::spec_new(enc).spec_hw_enc() == enc,
    {
    }

    /// The hardware encoding of the register.
    #[verifier::when_used_as_spec(spec_hw_enc)]
    pub fn hw_enc(self) -> (enc: u8)
        ensures
            enc == self.spec_hw_enc(),
            enc < Reg::COUNT,
    {
        proof {
            use_type_invariant(self);
        }
        self.enc
    }

    /// A register is determined by its hardware encoding.
    pub proof fn lemma_encoding_is_injective(a: Reg, b: Reg)
        requires
            a.spec_hw_enc() == b.spec_hw_enc(),
        ensures
            a == b,
    {
    }
}

} // verus!
