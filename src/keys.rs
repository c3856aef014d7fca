//! SSH public keys, parsed with `openssh_keys`.

use crate::network::NetError;
use openssh_keys::PublicKey;
use vstd::prelude::*;
use vstd::utf8::is_ascii_chars;

verus! {

#[verifier::external_type_specification]
#[verifier::external_body]
pub struct ExPublicKey(openssh_keys::PublicKey);

/// Whether `openssh_keys` accepts `s` as a public key line.
pub uninterp spec fn ssh_key_parses(s: Seq<char>) -> bool;

/// Relies on `openssh_keys::PublicKey::parse`: success depends on the text
/// alone. On text with options before the key it slices by character count,
/// which can panic on non-ASCII text, so the text must be ASCII.
#[verifier::external_body]
fn parse_public_key(s: &str) -> (r: Option<PublicKey>)
    requires
        is_ascii_chars(s@),
    ensures
        r is Some == ssh_key_parses(s@),
{
    PublicKey::parse(s).ok()
}

/// Every key is ASCII text that parses as a public key.
pub open spec fn keys_parse(keys: Seq<String>) -> bool {
    forall|i: int| 0 <= i < keys.len() ==> is_ascii_chars(#[trigger] keys[i]@) && ssh_key_parses(keys[i]@)
}

/// Parses each authorized key line, in order; fails with `InvalidSshKey` on
/// the first that is not ASCII or does not parse.
pub fn parse_ssh_keys(keys: &Vec<String>) -> (r: Result<Vec<PublicKey>, NetError>)
    ensures
        r is Ok <==> keys_parse(keys@),
        r matches Ok(v) ==> v@.len() == keys@.len(),
        r matches Err(e) ==> e == NetError::InvalidSshKey,
{
    let mut out: Vec<PublicKey> = Vec::new();
    let mut i: usize = 0;
    while i < keys.len()
        invariant
            i <= keys.len(),
            out@.len() == i,
            keys_parse(keys@.subrange(0, i as int)),
        decreases keys.len() - i,
    {
        let k = keys[i].as_str();
        if !k.is_ascii() {
            assert(!is_ascii_chars(keys@[i as int]@));
            return Err(NetError::InvalidSshKey);
        }
        match parse_public_key(k) {
            Some(key) => out.push(key),
            None => {
                assert(!ssh_key_parses(keys@[i as int]@));
                return Err(NetError::InvalidSshKey);
            },
        }
        assert forall|j: int| 0 <= j < i + 1 implies is_ascii_chars(#[trigger] keys@.subrange(0, i + 1)[j]@)
            && ssh_key_parses(keys@.subrange(0, i + 1)[j]@) by {
            if j < i {
                assert(keys@.subrange(0, i + 1)[j] == keys@.subrange(0, i as int)[j]);
            }
        }
        i += 1;
    }
    assert(keys@.subrange(0, keys.len() as int) =~= keys@);
    Ok(out)
}

} // verus!
