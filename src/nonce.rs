//! Replay protection: each signing account carries a counter that a signed
//! call must quote and that the call then advances.
use std::collections::HashMap;
use vstd::prelude::*;

use crate::errors::ContractError;
use crate::token::AccountId;

verus! {

broadcast use vstd::std_specs::hash::group_hash_axioms;

/// Who authorized a call: the invoking account itself, or a signature by
/// an account.
#[derive(Copy, Clone, Debug, PartialEq, Eq, Structural)]
pub enum Signature {
    Invoker,
    Account(AccountId),
}

/// The next nonce each account must quote.
pub struct Nonces {
    next: HashMap<u64, i128>,
}

impl Nonces {
    /// The nonce `id` must quote next; 0 before its first signed call.
    pub closed spec fn nonce_of(self, id: u64) -> int {
        if self.next@.contains_key(id) {
            self.next@[id] as int
        } else {
            0
        }
    }

    /// No account has signed yet.
    pub fn new() -> (r: Nonces)
        ensures
            forall|id: u64| #[trigger] r.nonce_of(id) == 0,
    {
        Nonces { next: HashMap::new() }
    }

    /// The nonce `id` must quote next.
    pub fn read_nonce(&self, id: AccountId) -> (r: i128)
        ensures
            r as int == self.nonce_of(id),
    {
        match self.next.get(&id) {
            Some(n) => *n,
            None => 0,
        }
    }

    /// Checks the nonce quoted with `auth` and, for a signature, advances
    /// the signer's nonce. The invoker quotes 0 and has no counter.
    pub fn verify_and_consume_nonce(&mut self, auth: Signature, expected_nonce: i128) -> (r: Result<(), ContractError>)
        ensures
            match auth {
                Signature::Invoker => *final(self) == *old(self) && (r is Ok <==> expected_nonce == 0)
                    && (r is Err ==> r == Err::<(), ContractError>(ContractError::InvalidNonce)),
                Signature::Account(id) => match r {
                    Ok(()) => old(self).nonce_of(id) == expected_nonce && expected_nonce < i128::MAX
                        && forall|a: u64| #[trigger]
                        final(self).nonce_of(a) == if a == id {
                            expected_nonce + 1
                        } else {
                            old(self).nonce_of(a)
                        },
                    Err(e) => *final(self) == *old(self) && (if old(self).nonce_of(id)
                        != expected_nonce {
                        e == ContractError::InvalidNonce
                    } else {
                        expected_nonce == i128::MAX && e == ContractError::Overflow
                    }),
                },
            },
    {
        match auth {
            Signature::Invoker => {
                if expected_nonce != 0 {
                    return Err(ContractError::InvalidNonce);
                }
                Ok(())
            },
            Signature::Account(id) => {
                let nonce = self.read_nonce(id);
                if nonce != expected_nonce {
                    return Err(ContractError::InvalidNonce);
                }
                if nonce == i128::MAX {
                    return Err(ContractError::Overflow);
                }
                self.next.insert(id, nonce + 1);
                Ok(())
            },
        }
    }
}

} // verus!
