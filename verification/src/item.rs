//! Item identifiers, their base-62 text form, and playback items.

use crate::error::SessionError;
use vstd::prelude::*;
use vstd::string::*;

verus! {

/// The kind of media an identifier names.
#[derive(Clone, Copy, Debug, PartialEq, Eq, Hash, Structural)]
pub enum ItemIdType {
    Track,
    Podcast,
    Unknown,
}

/// A typed identifier of one playable media item: a 128-bit value and the
/// kind of item it names.
#[derive(Clone, Copy, Debug, PartialEq, Eq, Hash, Structural)]
pub struct ItemId {
    pub id: u128,
    pub id_type: ItemIdType,
}

/// How the loudness of an item is levelled during playback.
#[derive(Clone, Copy, Debug, PartialEq, Eq, Structural)]
pub enum NormalizationLevel {
    /// The loudness is left as it is.
    Off,
    /// Each track is levelled by itself.
    Track,
    /// The tracks of an album are levelled together.
    Album,
}

/// One entry of a playback queue: an identifier and a normalization policy.
#[derive(Clone, Copy, Debug, PartialEq, Eq, Structural)]
pub struct PlaybackItem {
    pub item_id: ItemId,
    pub norm_level: NormalizationLevel,
}

/// The value of one base-62 digit: `0-9` count 0 to 9, `a-z` count 10 to 35,
/// `A-Z` count 36 to 61. Any other character is no digit.
pub open spec fn digit_value(c: char) -> Option<nat> {
    if '0' <= c <= '9' {
        Some((c as int - '0' as int) as nat)
    } else if 'a' <= c <= 'z' {
        Some((c as int - 'a' as int + 10) as nat)
    } else if 'A' <= c <= 'Z' {
        Some((c as int - 'A' as int + 36) as nat)
    } else {
        None
    }
}

/// Every character of `s` is a base-62 digit.
pub open spec fn is_base62(s: Seq<char>) -> bool {
    forall|i: int| 0 <= i < s.len() ==> (#[trigger] digit_value(s[i])) is Some
}

/// The number that `s` denotes in base 62, most significant digit first.
/// The empty text denotes 0; a character that is no digit counts as 0.
pub open spec fn base62_value(s: Seq<char>) -> nat
    decreases s.len(),
{
    if s.len() == 0 {
        0
    } else {
        62 * base62_value(s.drop_last()) + match digit_value(s.last()) {
            Some(d) => d,
            None => 0,
        }
    }
}

/// `s` is the text form of an identifier: base-62 digits only, denoting a
/// number that fits in 128 bits.
pub open spec fn encodes_id(s: Seq<char>) -> bool {
    is_base62(s) && base62_value(s) <= u128::MAX
}

/// What resolving the text `s` with normalization `level` gives: a track item
/// where `s` encodes an identifier, a parse error otherwise.
pub open spec fn resolution(s: Seq<char>, level: NormalizationLevel) -> Result<
    PlaybackItem,
    SessionError,
> {
    if encodes_id(s) {
        Ok(
            PlaybackItem {
                item_id: ItemId { id: base62_value(s) as u128, id_type: ItemIdType::Track },
                norm_level: level,
            },
        )
    } else {
        Err(SessionError::Parse)
    }
}

/// A prefix of a text denotes no more than the whole text.
proof fn lemma_prefix_value_le(s: Seq<char>, k: int)
    requires
        0 <= k <= s.len(),
    ensures
        base62_value(s.take(k)) <= base62_value(s),
    decreases s.len(),
{
    if k == s.len() {
        assert(s.take(k) =~= s);
    } else {
        assert(s.drop_last().take(k) =~= s.take(k));
        lemma_prefix_value_le(s.drop_last(), k);
    }
}

/// Reading one more digit multiplies the value so far by 62 and adds the digit.
proof fn lemma_value_step(s: Seq<char>, i: int)
    requires
        0 <= i < s.len(),
    ensures
        base62_value(s.take(i + 1)) == 62 * base62_value(s.take(i)) + match digit_value(s[i]) {
            Some(d) => d,
            None => 0,
        },
{
    assert(s.take(i + 1).drop_last() =~= s.take(i));
}

/// The digit that the byte `b` stands for, if any.
fn digit_of(b: u8) -> (r: Option<u8>)
    ensures
        match r {
            Some(d) => digit_value(b as char) == Some(d as nat),
            None => digit_value(b as char) is None,
        },
{
    if 48 <= b && b <= 57 {
        Some(b - 48)
    } else if 97 <= b && b <= 122 {
        Some(b - 97 + 10)
    } else if 65 <= b && b <= 90 {
        Some(b - 65 + 36)
    } else {
        None
    }
}

impl ItemId {
    /// Reads an identifier of kind `id_type` from its base-62 text form.
    /// Gives `None` where a character is no base-62 digit or the number does
    /// not fit in 128 bits.
    pub fn from_base62(id: &str, id_type: ItemIdType) -> (r: Option<ItemId>)
        ensures
            r is Some <==> encodes_id(id@),
            r matches Some(item_id) ==> item_id.id == base62_value(id@) && item_id.id_type
                == id_type,
    {
        if !id.is_ascii() {
            assert(!is_base62(id@)) by {
                let i = choose|i: int|
                    0 <= i < id@.len() && !('\0' <= #[trigger] id@[i] <= '\u{7f}');
                assert(digit_value(id@[i]) is None);
            }
            return None;
        }
        let bytes = id.as_bytes();
        proof {
            is_ascii_spec_bytes(id);
            assert forall|k: int| 0 <= k < id@.len() implies (#[trigger] bytes@[k]) as int
                == id@[k] as int by {
                assert('\0' <= id@[k] <= '\u{7f}');
            }
        }
        let mut n: u128 = 0;
        let mut i: usize = 0;
        while i < bytes.len()
            invariant
                i <= bytes@.len(),
                bytes@.len() == id@.len(),
                forall|k: int|
                    0 <= k < id@.len() ==> (#[trigger] bytes@[k]) as int == id@[k] as int,
                is_base62(id@.take(i as int)),
                n == base62_value(id@.take(i as int)),
            decreases bytes@.len() - i,
        {
            let b = bytes[i];
            proof {
                assert(b as char == id@[i as int]);
                lemma_value_step(id@, i as int);
                lemma_prefix_value_le(id@, i + 1);
            }
            let d = match digit_of(b) {
                Some(d) => d,
                None => {
                    return None;
                },
            };
            let scaled = match n.checked_mul(62) {
                Some(m) => m,
                None => {
                    return None;
                },
            };
            n = match scaled.checked_add(d as u128) {
                Some(m) => m,
                None => {
                    return None;
                },
            };
            proof {
                let next = id@.take(i + 1);
                assert forall|k: int| 0 <= k < next.len() implies (#[trigger] digit_value(
                    next[k],
                )) is Some by {
                    if k < i {
                        assert(next[k] == id@.take(i as int)[k]);
                    }
                }
            }
            i += 1;
        }
        proof {
            assert(id@.take(i as int) =~= id@);
        }
        Some(ItemId { id: n, id_type })
    }
}

/// Resolves a user-supplied track reference into a playback item whose
/// loudness is levelled as `norm_level` says.
pub fn resolve_item_with(raw_id: &str, norm_level: NormalizationLevel) -> (r: Result<
    PlaybackItem,
    SessionError,
>)
    ensures
        r == resolution(raw_id@, norm_level),
        r is Ok <==> encodes_id(raw_id@),
        r matches Ok(item) ==> item.item_id.id == base62_value(raw_id@) && item.item_id.id_type
            == ItemIdType::Track && item.norm_level == norm_level,
        r matches Err(e) ==> e == SessionError::Parse,
{
    match ItemId::from_base62(raw_id, ItemIdType::Track) {
        Some(item_id) => Ok(PlaybackItem { item_id, norm_level }),
        None => Err(SessionError::Parse),
    }
}

/// Resolves a user-supplied track reference into a playback item with the
/// default, per-track normalization.
pub fn resolve_item(raw_id: &str) -> (r: Result<PlaybackItem, SessionError>)
    ensures
        r == resolution(raw_id@, NormalizationLevel::Track),
        r is Ok <==> encodes_id(raw_id@),
        r matches Ok(item) ==> item.item_id.id == base62_value(raw_id@) && item.item_id.id_type
            == ItemIdType::Track && item.norm_level == NormalizationLevel::Track,
        r matches Err(e) ==> e == SessionError::Parse,
{
    resolve_item_with(raw_id, NormalizationLevel::Track)
}

} // verus!
