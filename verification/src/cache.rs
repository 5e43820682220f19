//! The per-channel transform cache.
//!
//! Consecutive queries that land on the same integer base index — scanning
//! smoothly through a buffer, or re-reading one instant at several fractional
//! offsets — should not pay the forward-transform cost twice.  The cache
//! keeps, for each channel, the most recently computed forward spectrum and
//! the base index it was computed for; a query with a different base
//! supersedes the entry, and an entry for one channel is never touched by
//! queries on another.

use vstd::laws_eq::{obeys_eq, obeys_eq_spec_properties};
use vstd::prelude::*;
use vstd::std_specs::cmp::PartialEqSpec;

verus! {

/// A channel-identifier type whose `==` behaves as an equality: the
/// executable comparison agrees with its specification (`obeys_eq`, which
/// also makes it symmetric and transitive) and every value equals itself.
/// Integers, tuples of integers and string slices all qualify.
pub open spec fn lawful_eq<TChannelId: PartialEq>() -> bool {
    &&& obeys_eq::<TChannelId>()
    &&& forall|id: TChannelId| #[trigger] id.eq_spec(&id)
}

/// One cached transform: the integer base index it was computed for, and the
/// forward spectrum of the window centred there.
struct CacheEntry<TChannelId, TValue> {
    channel_id: TChannelId,
    base: i64,
    spectrum: Vec<TValue>,
}

/// The most recent forward transform of each channel, with the integer base
/// index it was computed for.  Exactly one entry is kept per channel — no
/// history and no eviction.
pub struct ChannelCache<TChannelId, TValue> {
    width: usize,
    entries: Vec<CacheEntry<TChannelId, TValue>>,
}

/// The first entry at or after position `i` whose channel equals
/// `channel_id`, read as a (base, spectrum) pair.
spec fn entry_from<TChannelId: PartialEq, TValue>(
    entries: Seq<CacheEntry<TChannelId, TValue>>,
    channel_id: TChannelId,
    i: int,
) -> Option<(i64, Seq<TValue>)>
    decreases entries.len() - i,
    when 0 <= i <= entries.len()
{
    if i >= entries.len() {
        None
    } else if entries[i].channel_id.eq_spec(&channel_id) {
        Some((entries[i].base, entries[i].spectrum@))
    } else {
        entry_from(entries, channel_id, i + 1)
    }
}

/// A scan that skips a prefix of non-matching entries reads the same entry
/// as the scan of the whole sequence.
proof fn lemma_entry_from_skips<TChannelId: PartialEq, TValue>(
    entries: Seq<CacheEntry<TChannelId, TValue>>,
    channel_id: TChannelId,
    i: int,
)
    requires
        0 <= i <= entries.len(),
        forall|j: int|
            0 <= j < i ==> !(#[trigger] entries[j].channel_id.eq_spec(&channel_id)),
    ensures
        entry_from(entries, channel_id, 0) == entry_from(entries, channel_id, i),
    decreases i,
{
    if i > 0 {
        lemma_entry_from_skips(entries, channel_id, i - 1);
    }
}

/// Appending an entry leaves every channel that already had one unchanged; a
/// channel without one finds the appended entry exactly when it matches.
proof fn lemma_entry_from_push<TChannelId: PartialEq, TValue>(
    entries: Seq<CacheEntry<TChannelId, TValue>>,
    entry: CacheEntry<TChannelId, TValue>,
    channel_id: TChannelId,
    i: int,
)
    requires
        0 <= i <= entries.len(),
    ensures
        entry_from(entries.push(entry), channel_id, i) == match entry_from(
            entries,
            channel_id,
            i,
        ) {
            Some(found) => Some(found),
            None => if entry.channel_id.eq_spec(&channel_id) {
                Some((entry.base, entry.spectrum@))
            } else {
                None
            },
        },
    decreases entries.len() - i,
{
    if i < entries.len() {
        assert(entries.push(entry)[i] == entries[i]);
        lemma_entry_from_push(entries, entry, channel_id, i + 1);
    } else {
        assert(entries.push(entry)[i] == entry);
        assert(entry_from(entries, channel_id, i) == None::<(i64, Seq<TValue>)>);
        assert(entry_from(entries.push(entry), channel_id, i + 1) == None::<(
            i64,
            Seq<TValue>,
        )>);
    }
}

/// Replacing an entry at a position that does not match `channel_id` with
/// another entry that does not match it either leaves `channel_id`'s scan
/// unchanged.
proof fn lemma_entry_from_update_other<TChannelId: PartialEq, TValue>(
    entries: Seq<CacheEntry<TChannelId, TValue>>,
    at: int,
    entry: CacheEntry<TChannelId, TValue>,
    channel_id: TChannelId,
    i: int,
)
    requires
        0 <= i <= entries.len(),
        0 <= at < entries.len(),
        !entry.channel_id.eq_spec(&channel_id),
        !entries[at].channel_id.eq_spec(&channel_id),
    ensures
        entry_from(entries.update(at, entry), channel_id, i) == entry_from(
            entries,
            channel_id,
            i,
        ),
    decreases entries.len() - i,
{
    if i < entries.len() {
        lemma_entry_from_update_other(entries, at, entry, channel_id, i + 1);
        if i != at {
            assert(entries.update(at, entry)[i] == entries[i]);
        }
    }
}

/// An element-wise copy of a vector of plain values.
pub fn copy_values<TValue: Copy>(values: &Vec<TValue>) -> (copy: Vec<TValue>)
    ensures
        copy@ == values@,
{
    let mut copy: Vec<TValue> = Vec::new();
    let mut i: usize = 0;
    while i < values.len()
        invariant
            0 <= i <= values@.len(),
            copy@.len() == i,
            forall|j: int| 0 <= j < i ==> copy@[j] == values@[j],
        decreases values@.len() - i,
    {
        copy.push(values[i]);
        i = i + 1;
    }
    proof {
        assert(copy@ =~= values@);
    }
    copy
}

impl<TChannelId: Copy + PartialEq, TValue: Copy> ChannelCache<TChannelId, TValue> {
    /// The entry cached for `channel_id`: its base index and its spectrum.
    pub closed spec fn entry_for(&self, channel_id: TChannelId) -> Option<(i64, Seq<TValue>)> {
        entry_from(self.entries@, channel_id, 0)
    }

    /// The length every cached spectrum has: one transform window.
    pub closed spec fn spec_width(&self) -> usize {
        self.width
    }

    /// Every cached spectrum spans exactly one window.
    pub closed spec fn wf(&self) -> bool {
        forall|i: int|
            0 <= i < self.entries@.len() ==> (#[trigger] self.entries@[i].spectrum@).len()
                == self.width
    }

    /// An empty cache for spectra of length `width`.
    pub fn new(width: usize) -> (cache: Self)
        ensures
            cache.wf(),
            cache.spec_width() == width,
            forall|channel_id: TChannelId| #[trigger] cache.entry_for(channel_id) is None,
    {
        ChannelCache { width, entries: Vec::new() }
    }

    /// A copy of the spectrum cached for `channel_id`, provided its recorded
    /// base index is exactly `base`; `None` when the channel has no entry or
    /// the entry was computed for another base and must be recomputed.
    pub fn fetch(&self, channel_id: TChannelId, base: i64) -> (result: Option<Vec<TValue>>)
        requires
            lawful_eq::<TChannelId>(),
            self.wf(),
        ensures
            match self.entry_for(channel_id) {
                Some(found) => if found.0 == base {
                    result matches Some(spectrum) && spectrum@ == found.1 && spectrum@.len()
                        == self.spec_width()
                } else {
                    result is None
                },
                None => result is None,
            },
    {
        let mut i: usize = 0;
        #[verifier::loop_isolation(false)]
        while i < self.entries.len()
            invariant
                0 <= i <= self.entries@.len(),
                forall|j: int|
                    0 <= j < i ==> !(#[trigger] self.entries@[j].channel_id.eq_spec(
                        &channel_id,
                    )),
            decreases self.entries@.len() - i,
        {
            if self.entries[i].channel_id == channel_id {
                proof {
                    lemma_entry_from_skips(self.entries@, channel_id, i as int);
                    assert(entry_from(self.entries@, channel_id, i as int) == Some(
                        (self.entries@[i as int].base, self.entries@[i as int].spectrum@),
                    ));
                    assert(self.entries@[i as int].spectrum@.len() == self.width);
                }
                if self.entries[i].base == base {
                    return Some(copy_values(&self.entries[i].spectrum));
                }
                return None;
            }
            i = i + 1;
        }
        proof {
            lemma_entry_from_skips(self.entries@, channel_id, self.entries@.len() as int);
            assert(entry_from(self.entries@, channel_id, self.entries@.len() as int) == None::<(
                i64,
                Seq<TValue>,
            )>);
        }
        None
    }

    /// Record `spectrum` as the transform of `channel_id`'s window at `base`,
    /// superseding any earlier entry for that channel.  Entries of all other
    /// channels are left exactly as they were.
    pub fn store(&mut self, channel_id: TChannelId, base: i64, spectrum: Vec<TValue>)
        requires
            lawful_eq::<TChannelId>(),
            old(self).wf(),
            spectrum@.len() == old(self).spec_width(),
        ensures
            final(self).wf(),
            final(self).spec_width() == old(self).spec_width(),
            final(self).entry_for(channel_id) == Some((base, spectrum@)),
            forall|other: TChannelId|
                !other.eq_spec(&channel_id) ==> #[trigger] final(self).entry_for(other) == old(
                    self,
                ).entry_for(other),
            forall|other: TChannelId|
                other.eq_spec(&channel_id) ==> #[trigger] final(self).entry_for(other) == Some(
                    (base, spectrum@),
                ),
    {
        proof {
            reveal(obeys_eq_spec_properties);
        }
        let ghost previous = self.entries@;
        let mut i: usize = 0;
        #[verifier::loop_isolation(false)]
        while i < self.entries.len()
            invariant
                0 <= i <= self.entries@.len(),
                *self == *old(self),
                forall|j: int|
                    0 <= j < i ==> !(#[trigger] self.entries@[j].channel_id.eq_spec(
                        &channel_id,
                    )),
            decreases self.entries@.len() - i,
        {
            if self.entries[i].channel_id == channel_id {
                let ghost replaced = self.entries@[i as int];
                self.entries[i] = CacheEntry { channel_id, base, spectrum };
                proof {
                    let updated = self.entries@[i as int];
                    assert(updated.channel_id == channel_id && updated.base == base
                        && updated.spectrum@ == spectrum@);
                    assert(self.entries@ =~= previous.update(i as int, updated));
                    assert(updated.channel_id.eq_spec(&channel_id));
                    assert(forall|j: int|
                        0 <= j < i ==> !(#[trigger] self.entries@[j].channel_id.eq_spec(
                            &channel_id,
                        )));
                    lemma_entry_from_skips(self.entries@, channel_id, i as int);
                    assert(entry_from(self.entries@, channel_id, i as int) == Some(
                        (base, spectrum@),
                    ));
                    assert forall|other: TChannelId|
                        !other.eq_spec(&channel_id) implies #[trigger] self.entry_for(other)
                        == old(self).entry_for(other) by {
                        assert(!updated.channel_id.eq_spec(&other));
                        assert(!replaced.channel_id.eq_spec(&other));
                        lemma_entry_from_update_other(previous, i as int, updated, other, 0);
                    }
                    assert forall|other: TChannelId|
                        other.eq_spec(&channel_id) implies #[trigger] self.entry_for(other)
                        == Some((base, spectrum@)) by {
                        reveal(obeys_eq_spec_properties);
                        assert forall|j2: int| 0 <= j2 < i implies !(
                        #[trigger] self.entries@[j2].channel_id.eq_spec(&other)) by {
                            if self.entries@[j2].channel_id.eq_spec(&other) {
                                assert(self.entries@[j2].channel_id.eq_spec(&channel_id));
                            }
                        }
                        assert(updated.channel_id.eq_spec(&other));
                        lemma_entry_from_skips(self.entries@, other, i as int);
                        assert(entry_from(self.entries@, other, i as int) == Some(
                            (base, spectrum@),
                        ));
                    }
                }
                return ;
            }
            i = i + 1;
        }
        proof {
            lemma_entry_from_skips(self.entries@, channel_id, self.entries@.len() as int);
            assert(entry_from(self.entries@, channel_id, self.entries@.len() as int) == None::<(
                i64,
                Seq<TValue>,
            )>);
        }
        self.entries.push(CacheEntry { channel_id, base, spectrum });
        proof {
            let appended = self.entries@[previous.len() as int];
            assert(self.entries@ == previous.push(appended));
            assert(appended.channel_id == channel_id && appended.base == base
                && appended.spectrum@ == spectrum@);
            assert(channel_id.eq_spec(&channel_id));
            lemma_entry_from_push(previous, appended, channel_id, 0);
            assert forall|other: TChannelId|
                !other.eq_spec(&channel_id) implies #[trigger] self.entry_for(other) == old(
                self,
            ).entry_for(other) by {
                assert(!appended.channel_id.eq_spec(&other));
                lemma_entry_from_push(previous, appended, other, 0);
            }
            assert forall|other: TChannelId|
                other.eq_spec(&channel_id) implies #[trigger] self.entry_for(other) == Some(
                (base, spectrum@),
            ) by {
                reveal(obeys_eq_spec_properties);
                assert forall|j2: int| 0 <= j2 < previous.len() implies !(
                #[trigger] previous[j2].channel_id.eq_spec(&other)) by {
                    if previous[j2].channel_id.eq_spec(&other) {
                        assert(previous[j2].channel_id.eq_spec(&channel_id));
                    }
                }
                lemma_entry_from_skips(previous, other, previous.len() as int);
                assert(entry_from(previous, other, previous.len() as int) == None::<(
                    i64,
                    Seq<TValue>,
                )>);
                assert(appended.channel_id.eq_spec(&other));
                lemma_entry_from_push(previous, appended, other, 0);
            }
        }
    }
}

} // verus!
