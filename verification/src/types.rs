//! The collectible record and storage keys of the contract's purchase flow.

use vstd::prelude::*;
use crate::address::Address;

verus! {

/// A collectible as stored by the purchase flow.  Its texts are byte
/// strings, kept byte for byte whether or not they are valid UTF-8.
#[derive(Debug, PartialEq, Eq)]
pub struct Collectible {
    pub id: u64,
    pub name: Vec<u8>,
    pub description: Vec<u8>,
    pub site: Vec<u8>,
    pub edition: Vec<u8>,
    pub price: i128,
    pub artist: Address,
    pub owner: Address,
    pub is_sold: bool,
}

/// What a [`Collectible`] holds, its texts taken as byte sequences.
pub struct CollectibleRecord {
    pub id: u64,
    pub name: Seq<u8>,
    pub description: Seq<u8>,
    pub site: Seq<u8>,
    pub edition: Seq<u8>,
    pub price: i128,
    pub artist: Address,
    pub owner: Address,
    pub is_sold: bool,
}

impl View for Collectible {
    type V = CollectibleRecord;

    open spec fn view(&self) -> CollectibleRecord {
        CollectibleRecord {
            id: self.id,
            name: self.name@,
            description: self.description@,
            site: self.site@,
            edition: self.edition@,
            price: self.price,
            artist: self.artist,
            owner: self.owner,
            is_sold: self.is_sold,
        }
    }
}

/// A copy of the byte string `text`.
fn copy_text(text: &Vec<u8>) -> (copy: Vec<u8>)
    ensures
        copy@ == text@,
{
    let mut copy: Vec<u8> = Vec::new();
    let mut i: usize = 0;
    while i < text.len()
        invariant
            i <= text@.len(),
            copy@ == text@.take(i as int),
        decreases text@.len() - i,
    {
        copy.push(text[i]);
        i = i + 1;
        proof {
            assert(copy@ =~= text@.take(i as int));
        }
    }
    proof {
        assert(text@.take(text@.len() as int) =~= text@);
    }
    copy
}

impl Clone for Collectible {
    fn clone(&self) -> (copy: Self)
        ensures
            copy@ == self@,
    {
        Collectible {
            id: self.id,
            name: copy_text(&self.name),
            description: copy_text(&self.description),
            site: copy_text(&self.site),
            edition: copy_text(&self.edition),
            price: self.price,
            artist: self.artist,
            owner: self.owner,
            is_sold: self.is_sold,
        }
    }
}

/// The storage keys of the purchase flow.
#[derive(Clone, Copy, Debug, PartialEq, Eq, Structural)]
pub enum DataKey {
    /// A collectible, by id.
    Collectible(u64),
    /// The ids of the collectibles a user owns.
    UserCollection(Address),
    /// The number of collectibles created.
    CollectibleCount,
}

} // verus!
