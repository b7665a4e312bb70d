//! Identifiers of matchups and games. They are UUIDs, made and compared by
//! the `uuid` crate; the library only carries them along.

use vstd::prelude::*;
use uuid::Uuid;

verus! {

/// `uuid::Uuid`, declared without its contents: a value of it is carried
/// along and compared with `==` in contracts, never looked into.
#[verifier::external_type_specification]
#[verifier::external_body]
pub struct ExUuid(Uuid);

/// `Uuid` is `Copy`: its derived `clone` returns the identifier itself.
pub assume_specification[ <Uuid as Clone>::clone ](id: &Uuid) -> (res: Uuid)
    ensures
        res == *id,
;

/// Draws a fresh identifier with `Uuid::new_v4`. It is random, so nothing is
/// promised of it. The call fails only where the machine hands out no
/// random bytes, which no argument could prevent.
#[verifier::external_body]
pub(crate) fn new_game_id() -> Uuid {
    Uuid::new_v4()
}

/// The text that `uuid` writes for the identifier `id`.
pub uninterp spec fn id_written(id: Uuid) -> Seq<char>;

/// Writes the identifier with the `Display` of `Uuid`: its bytes in
/// hexadecimal, in five groups. The text depends on the identifier alone;
/// the contract only names it.
#[verifier::external_body]
pub(crate) fn id_text(id: &Uuid) -> (res: String)
    ensures
        res@ == id_written(*id),
{
    id.to_string()
}

/// Compares two identifiers with the `==` of `Uuid`, which `uuid` derives:
/// two identifiers are equal exactly when their bytes are.
#[verifier::external_body]
pub(crate) fn same_id(a: &Uuid, b: &Uuid) -> (same: bool)
    ensures
        same == (*a == *b),
{
    a == b
}

} // verus!
