//! Properties that relate several operations of the vault.
use vstd::prelude::*;
use crate::error::VaultError;
use crate::keys::verification_hash;
use crate::secrets::{
    SecretStore, first_with_id, id_differs, is_first_with_id, lookup, password_ok, payload_id, put_outcome,
    recovers, rotation_outcome, listing_of, EncryptedSecret,
};

verus! {

/// Round trip: after a payload is stored under a password, reading its id
/// with that password finds the record that seals exactly that payload (so
/// `get_secret` returns the payload).
pub proof fn lemma_put_then_get(old: SecretStore, new: SecretStore, payload: Seq<char>, password: Seq<char>)
    requires
        put_outcome(old, new, payload, password),
    ensures
        payload_id(payload) matches Some(id) && recovers(new, id, password, payload),
{
    let id = payload_id(payload).unwrap();
    let n = new.secrets@;
    let last = n.len() - 1;
    let pred = id_differs(id);
    assert forall|j: int| 0 <= j < last implies n[j].id@ != id by {
        assert(n.drop_last()[j] == n[j]);
        old.secrets@.lemma_filter_pred(pred, j);
    }
    assert(is_first_with_id(n, id, last));
    let k = choose|k: int| is_first_with_id(n, id, k);
    assert(k == last) by {
        if k < last {
        }
        if k > last {
        }
    }
    assert(first_with_id(n, id) == Some(last));
}

/// Authorization: a password that the store does not accept reads nothing;
/// `get_secret` gives `Unauthorized` whatever the id.
pub proof fn lemma_refused_password_reads_nothing(store: SecretStore, id: Seq<char>, password: Seq<char>)
    requires
        !password_ok(store, password),
    ensures
        lookup(store, id, password) == Err::<Seq<char>, VaultError>(VaultError::Unauthorized),
{
}

/// Storing a secret leaves authorization as it was: exactly the same
/// passwords are accepted afterwards, however many secrets were stored.
pub proof fn lemma_put_keeps_authorization(old: SecretStore, new: SecretStore, payload: Seq<char>, password: Seq<char>, other: Seq<char>)
    requires
        put_outcome(old, new, payload, password),
    ensures
        password_ok(new, other) == password_ok(old, other),
{
}

/// After a rotation the new password is accepted, and a password is
/// accepted only if it has the new password's verification hash.
pub proof fn lemma_rotation_moves_authorization(old: SecretStore, new: SecretStore, old_password: Seq<char>, new_password: Seq<char>, other: Seq<char>)
    requires
        old.initialized,
        rotation_outcome(old, new, old_password, new_password),
    ensures
        password_ok(new, new_password),
        password_ok(new, other) <==> verification_hash(other) == verification_hash(new_password),
{
}

/// A rotation leaves the listing, which needs no password, exactly as it was.
pub proof fn lemma_rotation_keeps_listing(old: SecretStore, new: SecretStore, old_password: Seq<char>, new_password: Seq<char>)
    requires
        rotation_outcome(old, new, old_password, new_password),
    ensures
        new.secrets@.map_values(|e: EncryptedSecret| listing_of(e)) == old.secrets@.map_values(
            |e: EncryptedSecret| listing_of(e),
        ),
{
    assert forall|i: int| 0 <= i < old.secrets@.len() implies listing_of(new.secrets@[i]) == listing_of(old.secrets@[i]) by {
        assert(crate::secrets::resealed(old.secrets@[i], new.secrets@[i], old_password, new_password));
    }
    assert(new.secrets@.map_values(|e: EncryptedSecret| listing_of(e)) =~= old.secrets@.map_values(
        |e: EncryptedSecret| listing_of(e),
    ));
}

} // verus!
