//! An access mechanism made of a function: whoever can reach configuration
//! space hands in the function that performs one exchange.

use vstd::prelude::*;
use crate::pci::config::ConfigPort;
use crate::pci::config::Entry;

verus! {

/// An access mechanism that makes each exchange by calling a function, and
/// keeps account of the exchanges made.
pub struct PortFn<F: Fn(u32) -> u32> {
    ask: F,
    asked: Ghost<Seq<Entry>>,
}

impl<F: Fn(u32) -> u32> PortFn<F> {
    #[verifier::type_invariant]
    spec fn takes_every_address(self) -> bool {
        forall|address: u32| #[trigger] self.ask.requires((address,))
    }

    /// The function that makes the exchanges.
    pub closed spec fn function(&self) -> F {
        self.ask
    }

    /// An access mechanism that makes its exchanges by calling `ask`, which
    /// must take every address word. No exchange has been made yet.
    pub fn new(ask: F) -> (port: Self)
        requires
            forall|address: u32| #[trigger] ask.requires((address,)),
        ensures
            port.function() == ask,
            port.asked() == Seq::<Entry>::empty(),
    {
        PortFn { ask, asked: Ghost(Seq::empty()) }
    }
}

impl<F: Fn(u32) -> u32> ConfigPort for PortFn<F> {
    closed spec fn asked(&self) -> Seq<Entry> {
        self.asked@
    }

    /// Calls the function with `address`, returns what it returns, and notes
    /// the exchange.
    fn exchange(&mut self, address: u32) -> (value: u32)
        ensures
            old(self).function().ensures((address,), value),
            final(self).function() == old(self).function(),
    {
        proof {
            use_type_invariant(&*self);
        }
        let value: u32 = (self.ask)(address);
        self.asked = Ghost(self.asked@.push(Entry { address, value }));
        value
    }
}

} // verus!
