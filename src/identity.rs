//! Trust-on-first-use record of one server's public key.
use vstd::prelude::*;
use crate::handshake::EncChannelSetupError;

verus! {

/// The validator's contents: the pinned key, if any, and whether checks are bypassed.
pub struct ValidatorModel {
    pub key: Option<Seq<u8>>,
    pub bypass: bool,
}

/// One `validate` of `candidate` against `v`: whether it is accepted, and
/// the new contents.
pub open spec fn validate_step(v: ValidatorModel, candidate: Seq<u8>) -> (bool, ValidatorModel) {
    if v.bypass {
        (true, v)
    } else {
        match v.key {
            None => (true, ValidatorModel { key: Some(candidate), bypass: false }),
            Some(k) => if k == candidate {
                (true, v)
            } else {
                (false, v)
            },
        }
    }
}

/// Whether two byte strings are equal.
pub fn bytes_eq(a: &[u8], b: &[u8]) -> (r: bool)
    ensures
        r == (a@ == b@),
{
    if a.len() != b.len() {
        return false;
    }
    let mut i: usize = 0;
    while i < a.len()
        invariant
            i <= a@.len() == b@.len(),
            forall|j: int| 0 <= j < i ==> a@[j] == b@[j],
        decreases a@.len() - i,
    {
        if a[i] != b[i] {
            return false;
        }
        i = i + 1;
    }
    assert(a@ =~= b@);
    true
}

/// Trusted server public key, compared as its DER bytes: the first key
/// seen is pinned, and every later key must be byte-identical to it.
pub struct ServerPublicKeyValidator {
    key: Option<Vec<u8>>,
    bypass: bool,
}

impl View for ServerPublicKeyValidator {
    type V = ValidatorModel;

    closed spec fn view(&self) -> ValidatorModel {
        ValidatorModel {
            key: match self.key {
                Some(k) => Some(k@),
                None => None,
            },
            bypass: self.bypass,
        }
    }
}

impl ServerPublicKeyValidator {
    /// A validator with no key pinned yet.
    pub fn new() -> (r: Self)
        ensures
            r@ == (ValidatorModel { key: None, bypass: false }),
    {
        Self { key: None, bypass: false }
    }

    /// A validator that accepts every key and pins none; for diagnostics only.
    pub fn bypassing() -> (r: Self)
        ensures
            r@ == (ValidatorModel { key: None, bypass: true }),
    {
        Self { key: None, bypass: true }
    }

    /// Whether `validate` would accept `key_der`; changes nothing.
    pub fn accepts(&self, key_der: &[u8]) -> (r: bool)
        ensures
            r == validate_step(self@, key_der@).0,
    {
        if self.bypass {
            return true;
        }
        match &self.key {
            Some(k) => bytes_eq(k.as_slice(), key_der),
            None => true,
        }
    }

    /// Checks the DER encoding of a server's public key: pins it if no key
    /// is pinned, accepts it if it is the pinned key, and refuses it, with
    /// the pinned key kept, otherwise.
    pub fn validate(&mut self, key_der: &[u8]) -> (r: Result<(), EncChannelSetupError>)
        ensures
            r is Ok <==> validate_step(old(self)@, key_der@).0,
            r is Err ==> r == Err::<(), EncChannelSetupError>(
                EncChannelSetupError::ServerPublicKeyChanged,
            ),
            final(self)@ == validate_step(old(self)@, key_der@).1,
    {
        if self.bypass {
            return Ok(());
        }
        match &self.key {
            Some(k) => if bytes_eq(k.as_slice(), key_der) {
                Ok(())
            } else {
                Err(EncChannelSetupError::ServerPublicKeyChanged)
            },
            None => {
                let mut copy: Vec<u8> = Vec::new();
                let mut i: usize = 0;
                while i < key_der.len()
                    invariant
                        i <= key_der@.len(),
                        copy@ == key_der@.subrange(0, i as int),
                    decreases key_der@.len() - i,
                {
                    copy.push(key_der[i]);
                    i = i + 1;
                    assert(copy@ =~= key_der@.subrange(0, i as int));
                }
                assert(key_der@.subrange(0, key_der@.len() as int) =~= key_der@);
                self.key = Some(copy);
                Ok(())
            },
        }
    }
}

/// Identity pinning: once a validator without bypass has accepted a key,
/// it refuses every different key and keeps accepting that key, and
/// neither check changes what it holds.
pub proof fn lemma_identity_pinning(v: ValidatorModel, k1: Seq<u8>, k2: Seq<u8>)
    requires
        !v.bypass,
        validate_step(v, k1).0 == true,
        k2 != k1,
    ensures
        validate_step(validate_step(v, k1).1, k2) == (false, validate_step(v, k1).1),
        validate_step(validate_step(v, k1).1, k1) == (true, validate_step(v, k1).1),
{
}

} // verus!
