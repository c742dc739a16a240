//! What is remembered from one run to the next.
use vstd::prelude::*;

use crate::text::{copy_strings, lemma_texts_push, position_of, texts};
use crate::timestamp::{Moment, Timestamp};

verus! {

/// The tracks that have a note, and when a run last went through.
#[derive(Debug, Clone)]
pub struct State {
    processed_track_ids: Vec<String>,
    last_sync: Option<Timestamp>,
}

/// What a [`State`] says.
pub struct Memory {
    pub processed: Set<Seq<char>>,
    pub last_successful_sync_at: Option<Moment>,
}

impl View for State {
    type V = Memory;

    closed spec fn view(&self) -> Memory {
        Memory {
            processed: texts(self.processed_track_ids@).to_set(),
            last_successful_sync_at: match self.last_sync {
                Some(time) => Some(time@),
                None => None,
            },
        }
    }
}

/// What an optional moment says.
pub open spec fn opt_moment(time: Option<Timestamp>) -> Option<Moment> {
    match time {
        Some(time) => Some(time@),
        None => None,
    }
}

impl Default for State {
    /// Before the first run, no track has a note.
    fn default() -> (res: Self)
        ensures
            res@.processed == Set::<Seq<char>>::empty(),
            res@.last_successful_sync_at is None,
    {
        let res = State { processed_track_ids: Vec::new(), last_sync: None };
        assert(res@.processed =~= Set::<Seq<char>>::empty());
        res
    }
}

impl State {
    /// The state in which the tracks with these ids have a note.
    pub fn restore(
        processed_track_ids: Vec<String>,
        last_successful_sync_at: Option<Timestamp>,
    ) -> (res: Self)
        ensures
            res@.processed == texts(processed_track_ids@).to_set(),
            res@.last_successful_sync_at == opt_moment(last_successful_sync_at),
    {
        State { processed_track_ids, last_sync: last_successful_sync_at }
    }

    /// The ids of the tracks that have a note.
    pub fn processed_track_ids(&self) -> (res: Vec<String>)
        ensures
            texts(res@).to_set() == self@.processed,
    {
        copy_strings(&self.processed_track_ids)
    }

    /// When a run last went through.
    pub fn last_successful_sync_at(&self) -> (res: Option<Timestamp>)
        ensures
            opt_moment(res) == self@.last_successful_sync_at,
    {
        self.last_sync
    }

    /// Whether the track with the given id has a note.
    pub fn contains(&self, track_id: &str) -> (res: bool)
        ensures
            res == self@.processed.contains(track_id@),
    {
        let ghost ids = texts(self.processed_track_ids@);
        match position_of(&self.processed_track_ids, track_id) {
            Some(i) => {
                assert(ids[i as int] == track_id@);
                true
            },
            None => false,
        }
    }

    /// Remembers that the track with the given id has a note.
    pub fn mark_processed(&mut self, track_id: String)
        ensures
            final(self)@ == (Memory {
                processed: old(self)@.processed.insert(track_id@),
                ..old(self)@
            }),
    {
        let ghost before = texts(self.processed_track_ids@);
        let ghost id = track_id@;
        if !self.contains(track_id.as_str()) {
            self.processed_track_ids.push(track_id);
            proof {
                broadcast use lemma_texts_push;

                let after = before.push(id);
                assert(texts(self.processed_track_ids@) == after);
                assert forall|s: Seq<char>| before.to_set().insert(id).contains(
                    s,
                ) implies after.contains(s) by {
                    if s == id {
                        assert(after[before.len() as int] == id);
                    } else {
                        let i = choose|i: int| 0 <= i < before.len() && before[i] == s;
                        assert(after[i] == s);
                    }
                }
                assert forall|s: Seq<char>| after.contains(s) implies before.to_set().insert(
                    id,
                ).contains(s) by {
                    let i = choose|i: int| 0 <= i < after.len() && after[i] == s;
                    if i < before.len() {
                        assert(before[i] == s);
                    }
                }
            }
        }
        assert(self@.processed =~= before.to_set().insert(id));
    }

    /// Remembers when a run went through.
    pub fn set_last_successful_sync_at(&mut self, now: Timestamp)
        ensures
            final(self)@ == (Memory { last_successful_sync_at: Some(now@), ..old(self)@ }),
    {
        self.last_sync = Some(now);
    }
}

} // verus!
