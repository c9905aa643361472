//! Account identities: 32-byte public keys.

use vstd::prelude::*;
use vstd::std_specs::cmp::PartialEqSpecImpl;

verus! {

/// The account on whose behalf an operation runs.
#[derive(Clone, Copy, Debug, Eq)]
pub struct Identity {
    pub bytes: [u8; 32],
}

impl PartialEq for Identity {
    /// Byte-wise comparison.
    fn eq(&self, other: &Identity) -> (r: bool) {
        let mut i: usize = 0;
        while i < 32
            invariant
                i <= 32,
                forall|k: int| 0 <= k < i ==> self.bytes[k] == other.bytes[k],
            decreases 32 - i,
        {
            if self.bytes[i] != other.bytes[i] {
                return false;
            }
            i += 1;
        }
        proof {
            assert(self.bytes =~= other.bytes);
        }
        true
    }
}

impl PartialEqSpecImpl for Identity {
    open spec fn obeys_eq_spec() -> bool {
        true
    }

    open spec fn eq_spec(&self, other: &Identity) -> bool {
        *self == *other
    }
}

impl Identity {
    /// The identity made of the given bytes.
    pub fn new(bytes: [u8; 32]) -> (r: Identity)
        ensures
            r.bytes == bytes,
    {
        Identity { bytes }
    }

    /// The identity made of `data`, which must be 32 bytes.
    pub fn from_bytes(data: &Vec<u8>) -> (r: Option<Identity>)
        ensures
            r is Some <==> data@.len() == 32,
            r matches Some(id) ==> id.bytes@ == data@,
    {
        if data.len() != 32 {
            return None;
        }
        let mut bytes: [u8; 32] = [0u8; 32];
        let mut i: usize = 0;
        while i < 32
            invariant
                i <= 32,
                data@.len() == 32,
                forall|k: int| 0 <= k < i ==> bytes@[k] == data@[k],
            decreases 32 - i,
        {
            bytes[i] = data[i];
            i += 1;
        }
        assert(bytes@ =~= data@);
        Some(Identity { bytes })
    }

    /// The identity that the bech32 address `text` stands for, whatever its
    /// prefix: `None` where `text` is no bech32 string, or one of other than
    /// 32 bytes.
    pub fn from_bech32(text: &str) -> (r: Option<Identity>)
        ensures
            match bech32_data(text@) {
                Some(data) => {
                    &&& r is Some <==> data.len() == 32
                    &&& r matches Some(id) ==> id.bytes@ == data
                },
                None => r is None,
            },
    {
        match decode_bech32(text) {
            Some(data) => Identity::from_bytes(&data),
            None => None,
        }
    }

    /// The bytes of the identity.
    pub fn to_vec(&self) -> (data: Vec<u8>)
        ensures
            data@ == self.bytes@,
    {
        let mut data: Vec<u8> = Vec::new();
        let mut i: usize = 0;
        while i < 32
            invariant
                i <= 32,
                data@.len() == i,
                forall|k: int| 0 <= k < i ==> data@[k] == self.bytes@[k],
            decreases 32 - i,
        {
            data.push(self.bytes[i]);
            i += 1;
        }
        assert(data@ =~= self.bytes@);
        data
    }

    /// The bech32 address of the identity, under the prefix `erd`.
    pub fn to_bech32(&self) -> (r: Option<String>)
        ensures
            match r {
                Some(text) => bech32_text("erd"@, self.bytes@) == Some(text@),
                None => bech32_text("erd"@, self.bytes@) is None,
            },
    {
        let data = self.to_vec();
        encode_bech32("erd", &data)
    }
}

/// The bytes that a bech32 string carries, its prefix and checksum taken
/// off; `None` for a string that is not bech32.
pub uninterp spec fn bech32_data(text: Seq<char>) -> Option<Seq<u8>>;

/// Calls `bech32::decode`, which checks that `text` is well formed and has a
/// valid bech32 or bech32m checksum, and returns the prefix and the bytes
/// that `text` encodes. Nothing is proved of it: its result is only given the
/// name `bech32_data`, as a function of `text` alone. The prefix is dropped.
#[verifier::external_body]
fn decode_bech32(text: &str) -> (data: Option<Vec<u8>>)
    ensures
        match data {
            Some(bytes) => bech32_data(text@) == Some(bytes@),
            None => bech32_data(text@) is None,
        },
{
    match bech32::decode(text) {
        Ok((_, bytes)) => Some(bytes),
        Err(_) => None,
    }
}

/// The bech32 string that carries `data` under `prefix`; `None` where
/// `prefix` is no valid prefix or the string would be too long.
pub uninterp spec fn bech32_text(prefix: Seq<char>, data: Seq<u8>) -> Option<Seq<char>>;

/// Calls `bech32::encode` with the `Bech32` checksum, after `bech32::Hrp::parse`
/// has taken `prefix` to the crate's type for it. `encode` returns the
/// lower-case bech32 string of `data` under the prefix, or an error where
/// that string would be longer than the code admits; `parse` refuses a prefix
/// that is empty, too long, or holds characters that a prefix may not hold.
/// Nothing is proved of either: the result is only given the name
/// `bech32_text`, as a function of `prefix` and `data` alone.
#[verifier::external_body]
fn encode_bech32(prefix: &str, data: &Vec<u8>) -> (text: Option<String>)
    ensures
        match text {
            Some(t) => bech32_text(prefix@, data@) == Some(t@),
            None => bech32_text(prefix@, data@) is None,
        },
{
    match bech32::Hrp::parse(prefix) {
        Ok(hrp) => match bech32::encode::<bech32::Bech32>(hrp, data) {
            Ok(t) => Some(t),
            Err(_) => None,
        },
        Err(_) => None,
    }
}

} // verus!
