//! The per-client synchronization cursor and the reconciliation tick: how a
//! freshly observed change key decides whether to fetch, and how a fetched
//! history advances the cursor and yields the lines not yet shown.

use vstd::prelude::*;

use crate::text::{bytes_eq, copy_range};

verus! {

/// The view of an optional change key.
pub open spec fn key_view(k: Option<Vec<u8>>) -> Option<Seq<u8>> {
    match k {
        Some(v) => Some(v@),
        None => None,
    }
}

/// Whether a tick must fetch: always when the observed key is unknown,
/// always when no key was ever stored, and otherwise exactly when the key
/// changed.
pub open spec fn spec_should_refresh(stored: Option<Seq<u8>>, observed: Option<Seq<u8>>) -> bool {
    match observed {
        None => true,
        Some(o) => match stored {
            None => true,
            Some(s) => s != o,
        },
    }
}

/// The known line count after absorbing a fetch of `n` lines: the count
/// never moves backwards, so the larger of the two.
pub open spec fn count_after(c: nat, n: nat) -> nat {
    if n > c {
        n
    } else {
        c
    }
}

/// The per-client cursor: how many log lines have been shown, and the last
/// change key the server reported.
pub struct SyncState {
    pub last_known_line_count: usize,
    pub last_known_mod_time: Option<Vec<u8>>,
}

impl SyncState {
    /// The stored change key's view.
    pub open spec fn spec_mod_time(self) -> Option<Seq<u8>> {
        key_view(self.last_known_mod_time)
    }

    /// A fresh cursor: nothing shown, no key stored.
    pub fn new() -> (s: SyncState)
        ensures
            s.last_known_line_count == 0,
            s.last_known_mod_time is None,
    {
        SyncState { last_known_line_count: 0, last_known_mod_time: None }
    }

    /// Whether the next tick must fetch, given the freshly observed change
    /// key. An unknown key always refreshes.
    pub fn should_refresh(&self, observed: &Option<Vec<u8>>) -> (b: bool)
        ensures
            b == spec_should_refresh(self.spec_mod_time(), key_view(*observed)),
    {
        match observed {
            None => true,
            Some(o) => match &self.last_known_mod_time {
                None => true,
                Some(s) => !bytes_eq(s.as_slice(), o.as_slice()),
            },
        }
    }

    /// Absorb one successful fetch: store the freshly observed change key
    /// when there is one, hand back exactly the lines beyond the known
    /// count, and advance the count to the fetched length when that is
    /// larger. The count never decreases.
    pub fn apply_fetch(&mut self, lines: &Vec<Vec<u8>>, observed: Option<Vec<u8>>) -> (fresh: Vec<
        Vec<u8>,
    >)
        ensures
            final(self).last_known_line_count as nat == count_after(
                old(self).last_known_line_count as nat,
                lines@.len(),
            ),
            final(self).last_known_line_count >= old(self).last_known_line_count,
            key_view(final(self).last_known_mod_time) == (match key_view(observed) {
                Some(k) => Some(k),
                None => old(self).spec_mod_time(),
            }),
            fresh.deep_view() == if lines@.len() > old(self).last_known_line_count {
                lines.deep_view().skip(old(self).last_known_line_count as int)
            } else {
                Seq::<Seq<u8>>::empty()
            },
    {
        match observed {
            Some(k) => {
                self.last_known_mod_time = Some(k);
            },
            None => {},
        }
        let known = self.last_known_line_count;
        let mut fresh: Vec<Vec<u8>> = Vec::new();
        proof {
            assert(fresh.deep_view() =~~= Seq::<Seq<u8>>::empty());
        }
        if lines.len() > known {
            let mut i: usize = known;
            while i < lines.len()
                invariant
                    known <= i <= lines@.len(),
                    fresh.deep_view() =~~= lines.deep_view().subrange(known as int, i as int),
                decreases lines@.len() - i,
            {
                let ghost pre = fresh.deep_view();
                let line = copy_range(lines[i].as_slice(), 0, lines[i].len());
                proof {
                    assert(line@ =~= lines@[i as int]@);
                }
                fresh.push(line);
                proof {
                    assert(fresh.deep_view() =~~= pre + seq![lines@[i as int]@]);
                    assert(fresh.deep_view() =~~= lines.deep_view().subrange(
                        known as int,
                        i + 1,
                    ));
                }
                i = i + 1;
            }
            self.last_known_line_count = lines.len();
            proof {
                assert(fresh.deep_view() =~~= lines.deep_view().skip(known as int));
            }
        }
        fresh
    }

    /// Note that the whole history was just shown, as the manual refresh
    /// and the initial load do: the count advances to what was shown when
    /// that is larger, and never decreases. The change key is untouched.
    pub fn note_full_display(&mut self, shown: usize)
        ensures
            final(self).last_known_line_count as nat == count_after(
                old(self).last_known_line_count as nat,
                shown as nat,
            ),
            final(self).last_known_line_count >= old(self).last_known_line_count,
            final(self).last_known_mod_time == old(self).last_known_mod_time,
    {
        if shown > self.last_known_line_count {
            self.last_known_line_count = shown;
        }
    }
}

/// Showing the full history twice in a row with no appends in between is
/// idempotent: the fetch is a function of the unchanged log, so the same
/// lines are shown both times, and the second display leaves the known line
/// count exactly where the first put it.
pub proof fn lemma_history_idempotent(c0: nat, n: nat)
    ensures
        count_after(count_after(c0, n), n) == count_after(c0, n),
{
}

/// The known line count after a sequence of reconciliation ticks, each
/// absorbing a fetch of the given length.
pub open spec fn count_after_ticks(c0: nat, fetches: Seq<nat>) -> nat
    decreases fetches.len(),
{
    if fetches.len() == 0 {
        c0
    } else {
        count_after_ticks(count_after(c0, fetches.first()), fetches.drop_first())
    }
}

/// Across any sequence of reconciliation ticks within one session, the
/// known line count never decreases.
pub proof fn lemma_count_monotonic(c0: nat, fetches: Seq<nat>)
    ensures
        count_after_ticks(c0, fetches) >= c0,
    decreases fetches.len(),
{
    if fetches.len() > 0 {
        lemma_count_monotonic(count_after(c0, fetches.first()), fetches.drop_first());
    }
}

/// When the change key cannot be determined, every tick refreshes, whatever
/// key is stored: an unknown modification time is treated as "assume
/// changed".
pub proof fn lemma_unknown_key_always_refreshes(stored: Option<Seq<u8>>)
    ensures
        spec_should_refresh(stored, None),
{
}

} // verus!
