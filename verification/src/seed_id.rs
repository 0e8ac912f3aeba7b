//! Seed identifiers and the classification derived from their shape.
//!
//! A seed identifier is either a bare token contract id, or a contract id
//! and a token's inner index in that contract, joined by one separator.

use vstd::prelude::*;
use vstd::string::*;

verus! {

/// The character that joins a contract id and an inner index.
pub const SEED_SEPARATOR: char = '#';

/// Kind of token that a seed stands for.
#[derive(Clone, Copy, Debug, PartialEq, Eq, Structural)]
pub enum SeedType {
    /// Fungible token: the identifier is a bare contract id.
    FT,
    /// Multi-fungible token: the identifier carries an inner index.
    MFT,
    /// Non-fungible token: the seed was created with a balance map.
    NFT,
}

/// `id` holds a separator at `i` and nowhere else.
pub open spec fn splits_at(id: Seq<char>, i: int) -> bool {
    &&& 0 <= i < id.len()
    &&& id[i] == SEED_SEPARATOR
    &&& forall|j: int| 0 <= j < id.len() && j != i ==> id[j] != SEED_SEPARATOR
}

/// `id` has the composite form: exactly one separator.
pub open spec fn is_composite(id: Seq<char>) -> bool {
    exists|i: int| splits_at(id, i)
}

/// Position of the separator of a composite identifier.
pub open spec fn split_point(id: Seq<char>) -> int {
    choose|i: int| splits_at(id, i)
}

/// The pair (token id, token index) that an identifier parses to.
///
/// A composite identifier parses to what stands before and behind its
/// separator. Any other identifier, with no separator or with several, is
/// flat: both components are the identifier itself.
pub open spec fn parsed_seed_id(id: Seq<char>) -> (Seq<char>, Seq<char>) {
    if is_composite(id) {
        (id.subrange(0, split_point(id)), id.subrange(split_point(id) + 1, id.len() as int))
    } else {
        (id, id)
    }
}

/// The type of a seed, from its identifier and from whether a balance map
/// comes with it. A balance map decides alone; without one, the seed is
/// fungible exactly when the two parsed components are equal.
pub open spec fn classified(id: Seq<char>, nft_balance_present: bool) -> SeedType {
    if nft_balance_present {
        SeedType::NFT
    } else if parsed_seed_id(id).0 == parsed_seed_id(id).1 {
        SeedType::FT
    } else {
        SeedType::MFT
    }
}

/// A split point is unique.
pub proof fn lemma_split_point_unique(id: Seq<char>, i: int)
    requires
        splits_at(id, i),
    ensures
        is_composite(id),
        split_point(id) == i,
{
    let k = split_point(id);
    assert(splits_at(id, k));
    if k != i {
        assert(id[k] != SEED_SEPARATOR);
    }
}

/// `id` holds no separator.
pub open spec fn is_flat(id: Seq<char>) -> bool {
    forall|i: int| 0 <= i < id.len() ==> id[i] != SEED_SEPARATOR
}

/// `id` names a token without doubt: a contract id that is not empty,
/// alone or followed by one separator and an inner index that is not
/// empty. `parsed_seed_id` takes every identifier; a caller that wants to
/// turn down the others tests them with `is_valid_seed_id` first.
pub open spec fn is_well_formed_id(id: Seq<char>) -> bool {
    if is_composite(id) {
        0 < split_point(id) < id.len() - 1
    } else {
        is_flat(id) && id.len() > 0
    }
}

/// Scans `seed_id` once: its length in characters, the place of its first
/// separator, and whether more separators follow.
fn find_separators(seed_id: &str) -> (found: (usize, Option<usize>, bool))
    ensures
        found.0 == seed_id@.len(),
        found.1 is None <==> is_flat(seed_id@),
        found.1 is Some && !found.2 <==> is_composite(seed_id@),
        found.1 matches Some(p) ==> p < seed_id@.len() && (!found.2 ==> split_point(seed_id@) == p),
{
    let len: usize = seed_id.unicode_len();
    let mut first: Option<usize> = None;
    let mut several: bool = false;
    let mut i: usize = 0;
    for c in it: seed_id.chars()
        invariant
            len == seed_id@.len(),
            it.seq() == seed_id@,
            i == it.index(),
            first is None ==> !several && forall|j: int| 0 <= j < i ==> seed_id@[j] != SEED_SEPARATOR,
            first matches Some(p) ==> p < i && seed_id@[p as int] == SEED_SEPARATOR,
            first matches Some(p) ==> !several ==> forall|j: int|
                0 <= j < i && j != p ==> seed_id@[j] != SEED_SEPARATOR,
            first matches Some(p) ==> several ==> exists|j: int|
                0 <= j < i && j != p && seed_id@[j] == SEED_SEPARATOR,
    {
        if c == SEED_SEPARATOR {
            if first.is_some() {
                several = true;
            } else {
                first = Some(i);
            }
        }
        i = i + 1;
    }
    proof {
        if is_composite(seed_id@) {
            let k = split_point(seed_id@);
            assert(splits_at(seed_id@, k));
        }
        match first {
            Some(p) => {
                if several {
                    // A second separator stands somewhere, so no place splits.
                    assert(!is_composite(seed_id@));
                } else {
                    lemma_split_point_unique(seed_id@, p as int);
                }
            },
            None => {},
        }
    }
    (len, first, several)
}

/// Splits a seed identifier into token id and token index.
pub fn parse_seed_id(seed_id: &str) -> (parts: (String, String))
    ensures
        parts.0@ == parsed_seed_id(seed_id@).0,
        parts.1@ == parsed_seed_id(seed_id@).1,
{
    let (len, first, several) = find_separators(seed_id);
    match first {
        Some(p) if !several => {
            let token_id = seed_id.substring_char(0, p);
            let token_index = seed_id.substring_char(p + 1, len);
            (token_id.to_owned(), token_index.to_owned())
        },
        _ => (seed_id.to_owned(), seed_id.to_owned()),
    }
}

/// Whether `seed_id` is well formed.
pub fn is_valid_seed_id(seed_id: &str) -> (valid: bool)
    ensures
        valid == is_well_formed_id(seed_id@),
{
    let (len, first, several) = find_separators(seed_id);
    match first {
        Some(p) => !several && 0 < p && p < len - 1,
        None => len > 0,
    }
}

/// Derives the type of a seed from its identifier and from whether a
/// balance map comes with it.
pub fn classify(seed_id: &str, nft_balance_present: bool) -> (seed_type: SeedType)
    ensures
        seed_type == classified(seed_id@, nft_balance_present),
        nft_balance_present ==> seed_type == SeedType::NFT,
{
    if nft_balance_present {
        SeedType::NFT
    } else {
        let (token_id, token_index) = parse_seed_id(seed_id);
        if token_id == token_index {
            SeedType::FT
        } else {
            SeedType::MFT
        }
    }
}

} // verus!
