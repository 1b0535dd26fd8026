//! Fresh labels for generated code.
use vstd::prelude::*;

use crate::assembly::Symbol;

verus! {

/// Hands out labels `$lb1`, `$lb2`, ... in order, so that no label is handed
/// out twice by one generator. Each translation owns a generator of its own.
pub struct LabelGenerator {
    count: u64,
}

impl LabelGenerator {
    /// How many labels this generator has handed out.
    pub closed spec fn issued(&self) -> nat {
        self.count as nat
    }

    /// A generator that has handed out no label yet.
    pub fn default() -> (r: LabelGenerator)
        ensures
            r.issued() == 0,
    {
        LabelGenerator { count: 0 }
    }

    /// A label that this generator has not handed out before: the next
    /// number in sequence.
    pub fn get_nameless_label(&mut self) -> (l: Symbol)
        requires
            old(self).issued() < u64::MAX,
        ensures
            final(self).issued() == old(self).issued() + 1,
            l == Symbol::Generated(final(self).issued() as u64),
    {
        self.count = self.count + 1;
        Symbol::Generated(self.count)
    }
}

} // verus!
