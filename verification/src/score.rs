//! The concert score: a fixed program of movements played in order.
//!
//! Time is carried as plain milliseconds handed in by the caller, so the
//! playback logic is a pure state machine: `play_from` jumps to a
//! movement, `update` advances past movements whose duration has elapsed,
//! and `score_playback_data` reports where playback stands.

use vstd::prelude::*;

verus! {

/// One movement of the score.
#[derive(Debug, Clone)]
pub struct Movement {
    /// Hardcoded id so other data can link to the movement even when it
    /// moves around in the score.
    pub id: usize,
    pub is_break: bool,
    pub is_interlude: bool,
    pub description: String,
    pub duration_ms: u64,
}

/// A snapshot of playback for display.
pub struct ScorePlaybackData {
    pub current_index: usize,
    pub max_index: usize,
    pub current_timestamp_for_mvt: u64,
    pub current_mvt: Option<Movement>,
    pub next_mvt: Option<Movement>,
    pub playing: bool,
}

/// The ids of the fixed program, in playing order.
pub open spec fn score_ids() -> Seq<int> {
    seq![0, 1, 100, 201, 2, 3, 102, 201, 6, 7, 106, 207, 4, 8, 104, 108, 5, 9, 10, 110,
        203, 11, 42, 1000]
}

/// The durations of the fixed program, in milliseconds.
pub open spec fn score_durations_ms() -> Seq<int> {
    seq![240000, 30000, 120000, 30000, 180000, 30000, 120000, 30000, 420000, 30000,
        60000, 30000, 240000, 30000, 120000, 30000, 180000, 30000, 300000, 60000, 30000,
        15000, 30000, 30000]
}

/// Which movements of the fixed program are breaks.
pub open spec fn score_is_break() -> Seq<bool> {
    seq![false, true, false, true, false, true, false, true, false, true, false, true,
        false, true, false, true, false, true, false, false, true, false, false, true]
}

/// Which movements of the fixed program are interludes.
pub open spec fn score_is_interlude() -> Seq<bool> {
    seq![false, false, true, false, false, false, true, false, false, false, true, false,
        false, false, true, false, false, false, false, false, false, false, false,
        false]
}

/// The description of each movement of the fixed program.
pub open spec fn score_description(i: int) -> Seq<char> {
    if i == 0 {
        "direct,categories"@
    } else if i == 2 {
        "direct,categories,interlude"@
    } else if i == 4 {
        "direct,function calls"@
    } else if i == 6 {
        "interlude,direct,function calls,lower and lower sensitivity"@
    } else if i == 8 {
        "direct,function calls,focus shifting,chorus"@
    } else if i == 10 {
        "interlude,direct,function calls,focus shifting (fast, few types),chorus"@
    } else if i == 12 {
        "quantised,categories,clear"@
    } else if i == 14 {
        "interlude,quantised,categories,clear"@
    } else if i == 16 {
        "quantised,categories,smoothed,occasional snippets of the binaries as sound,performer makes breaks and variation in the interaction"@
    } else if i == 18 {
        "themes,many programs open (open and close), quickly rising harmony"@
    } else if i == 19 {
        "themes,many programs open (open and close),smoothed direct functions in the background, steady harmony"@
    } else if i == 21 {
        "binaries"@
    } else if i == 22 {
        "ending,steadily get lower into the sub frequencies and smoother,image goes to white"@
    } else {
        "break"@
    }
}

/// The running sum of the first `k` movement durations, saturating at
/// the machine word.
pub open spec fn dur_sum(ms: Seq<Movement>, k: int) -> int
    decreases k,
{
    if k <= 0 {
        0
    } else {
        let s = dur_sum(ms, k - 1) + ms[k - 1].duration_ms;
        if s > u64::MAX {
            u64::MAX as int
        } else {
            s
        }
    }
}

/// The fixed program of movements.
pub struct Score {
    pub current_movement: usize,
    pub movements: Vec<Movement>,
    pub start_of_last_movement: u64,
    pub is_playing: bool,
}

impl Score {
    /// While playing, the current movement is a real one.
    pub open spec fn wf(self) -> bool {
        self.is_playing ==> self.current_movement < self.movements@.len()
    }

    /// The fixed program: twenty-four movements alternating music and
    /// half-minute breaks.
    pub fn new() -> (r: Score)
        ensures
            r.wf(),
            !r.is_playing,
            r.current_movement == 0,
            r.start_of_last_movement == 0,
            r.movements@.len() == 24,
            forall|i: int| 0 <= i < 24 ==> {
                let m = #[trigger] r.movements@[i];
                &&& m.id == score_ids()[i]
                &&& m.duration_ms == score_durations_ms()[i]
                &&& m.is_break == score_is_break()[i]
                &&& m.is_interlude == score_is_interlude()[i]
                &&& m.description@ == score_description(i)
            },
    {
        let mut movements: Vec<Movement> = Vec::new();
        movements.push(Movement { id: 0, is_break: false, is_interlude: false,
            description: "direct,categories".to_owned(), duration_ms: 240000 });
        movements.push(Movement { id: 1, is_break: true, is_interlude: false,
            description: "break".to_owned(), duration_ms: 30000 });
        movements.push(Movement { id: 100, is_break: false, is_interlude: true,
            description: "direct,categories,interlude".to_owned(), duration_ms: 120000 });
        movements.push(Movement { id: 201, is_break: true, is_interlude: false,
            description: "break".to_owned(), duration_ms: 30000 });
        movements.push(Movement { id: 2, is_break: false, is_interlude: false,
            description: "direct,function calls".to_owned(), duration_ms: 180000 });
        movements.push(Movement { id: 3, is_break: true, is_interlude: false,
            description: "break".to_owned(), duration_ms: 30000 });
        movements.push(Movement { id: 102, is_break: false, is_interlude: true,
            description: "interlude,direct,function calls,lower and lower sensitivity"
                .to_owned(), duration_ms: 120000 });
        movements.push(Movement { id: 201, is_break: true, is_interlude: false,
            description: "break".to_owned(), duration_ms: 30000 });
        movements.push(Movement { id: 6, is_break: false, is_interlude: false,
            description: "direct,function calls,focus shifting,chorus".to_owned(),
            duration_ms: 420000 });
        movements.push(Movement { id: 7, is_break: true, is_interlude: false,
            description: "break".to_owned(), duration_ms: 30000 });
        movements.push(Movement { id: 106, is_break: false, is_interlude: true,
            description: "interlude,direct,function calls,focus shifting (fast, few types),chorus"
                .to_owned(), duration_ms: 60000 });
        movements.push(Movement { id: 207, is_break: true, is_interlude: false,
            description: "break".to_owned(), duration_ms: 30000 });
        movements.push(Movement { id: 4, is_break: false, is_interlude: false,
            description: "quantised,categories,clear".to_owned(), duration_ms: 240000 });
        movements.push(Movement { id: 8, is_break: true, is_interlude: false,
            description: "break".to_owned(), duration_ms: 30000 });
        movements.push(Movement { id: 104, is_break: false, is_interlude: true,
            description: "interlude,quantised,categories,clear".to_owned(),
            duration_ms: 120000 });
        movements.push(Movement { id: 108, is_break: true, is_interlude: false,
            description: "break".to_owned(), duration_ms: 30000 });
        movements.push(Movement { id: 5, is_break: false, is_interlude: false,
            description: "quantised,categories,smoothed,occasional snippets of the binaries as sound,performer makes breaks and variation in the interaction"
                .to_owned(), duration_ms: 180000 });
        movements.push(Movement { id: 9, is_break: true, is_interlude: false,
            description: "break".to_owned(), duration_ms: 30000 });
        movements.push(Movement { id: 10, is_break: false, is_interlude: false,
            description: "themes,many programs open (open and close), quickly rising harmony"
                .to_owned(), duration_ms: 300000 });
        movements.push(Movement { id: 110, is_break: false, is_interlude: false,
            description: "themes,many programs open (open and close),smoothed direct functions in the background, steady harmony"
                .to_owned(), duration_ms: 60000 });
        movements.push(Movement { id: 203, is_break: true, is_interlude: false,
            description: "break".to_owned(), duration_ms: 30000 });
        movements.push(Movement { id: 11, is_break: false, is_interlude: false,
            description: "binaries".to_owned(), duration_ms: 15000 });
        movements.push(Movement { id: 42, is_interlude: false, is_break: false,
            description: "ending,steadily get lower into the sub frequencies and smoother,image goes to white"
                .to_owned(), duration_ms: 30000 });
        movements.push(Movement { id: 1000, is_break: true, is_interlude: false,
            description: "break".to_owned(), duration_ms: 30000 });
        Score { current_movement: 0, movements, start_of_last_movement: 0,
            is_playing: false }
    }

    /// Starts (or keeps) playing from the given movement, stamping the
    /// movement's start at `now_ms`. The caller announces the movement to
    /// its listeners.
    pub fn play_from(&mut self, mvt: usize, now_ms: u64)
        requires
            old(self).wf(),
            mvt < old(self).movements@.len(),
        ensures
            final(self).wf(),
            final(self).current_movement == mvt,
            final(self).is_playing,
            final(self).start_of_last_movement == now_ms,
            final(self).movements@ == old(self).movements@,
    {
        self.current_movement = mvt;
        self.is_playing = true;
        self.start_of_last_movement = now_ms;
    }

    /// Stops playback and rewinds to the first movement.
    pub fn stop(&mut self)
        ensures
            final(self).wf(),
            !final(self).is_playing,
            final(self).current_movement == 0,
            final(self).start_of_last_movement == old(self).start_of_last_movement,
            final(self).movements@ == old(self).movements@,
    {
        self.is_playing = false;
        self.current_movement = 0;
    }

    /// The whole program's length in milliseconds (saturating).
    pub fn total_duration(&self) -> (r: u64)
        ensures
            r == dur_sum(self.movements@, self.movements@.len() as int),
    {
        let len = self.movements.len();
        let mut acc: u64 = 0;
        let mut i: usize = 0;
        while i < len
            invariant
                i <= len,
                len == self.movements@.len(),
                acc == dur_sum(self.movements@, i as int),
            decreases len - i,
        {
            acc = acc.saturating_add(self.movements[i].duration_ms);
            i = i + 1;
        }
        acc
    }

    /// Advances playback to `now_ms`: when the current movement's
    /// duration has elapsed the next one begins (returning its index so
    /// the caller can announce it), and past the last movement playback
    /// stops.
    pub fn update(&mut self, now_ms: u64) -> (advanced: Option<usize>)
        requires
            old(self).wf(),
        ensures
            final(self).wf(),
            final(self).movements@ == old(self).movements@,
            ({
                let s = *old(self);
                let elapsed = if now_ms >= s.start_of_last_movement {
                    now_ms - s.start_of_last_movement
                } else {
                    0int
                };
                if s.is_playing && elapsed >= s.movements@[
                    s.current_movement as int].duration_ms {
                    if s.current_movement + 1 >= s.movements@.len() {
                        &&& !final(self).is_playing
                        &&& final(self).current_movement == 0
                        &&& final(self).start_of_last_movement == now_ms
                        &&& advanced is None
                    } else {
                        &&& final(self).is_playing
                        &&& final(self).current_movement == s.current_movement + 1
                        &&& final(self).start_of_last_movement == now_ms
                        &&& advanced == Some((s.current_movement + 1) as usize)
                    }
                } else {
                    &&& *final(self) == s
                    &&& advanced is None
                }
            }),
    {
        if self.is_playing {
            let elapsed: u64 = if now_ms >= self.start_of_last_movement {
                now_ms - self.start_of_last_movement
            } else {
                0
            };
            let len = self.movements.len();
            if elapsed >= self.movements[self.current_movement].duration_ms {
                let next = self.current_movement + 1;
                if next >= len {
                    self.stop();
                } else {
                    self.current_movement = next;
                }
                self.start_of_last_movement = now_ms;
                if self.is_playing {
                    return Some(self.current_movement);
                }
            }
        }
        None
    }

    /// A snapshot of playback as of `now_ms`.
    pub fn score_playback_data(&self, now_ms: u64) -> (r: ScorePlaybackData)
        requires
            self.wf(),
        ensures
            r.current_index == self.current_movement,
            r.max_index == self.movements@.len(),
            r.playing == self.is_playing,
            r.current_timestamp_for_mvt == if self.is_playing {
                if now_ms >= self.start_of_last_movement {
                    now_ms - self.start_of_last_movement
                } else {
                    0int
                }
            } else {
                0int
            },
            r.current_mvt == if self.is_playing {
                Some(self.movements@[self.current_movement as int])
            } else {
                None::<Movement>
            },
            ({
                let next_index = if self.is_playing {
                    self.current_movement + 1
                } else {
                    self.current_movement as int
                };
                r.next_mvt == if next_index < self.movements@.len() {
                    Some(self.movements@[next_index])
                } else {
                    None::<Movement>
                }
            }),
    {
        let len = self.movements.len();
        let current_mvt = if self.is_playing {
            Some(clone_movement(&self.movements[self.current_movement]))
        } else {
            None
        };
        let next_index = if self.is_playing {
            self.current_movement + 1
        } else {
            self.current_movement
        };
        let next_mvt = if next_index < len {
            Some(clone_movement(&self.movements[next_index]))
        } else {
            None
        };
        ScorePlaybackData {
            current_index: self.current_movement,
            max_index: self.movements.len(),
            current_timestamp_for_mvt: if self.is_playing {
                if now_ms >= self.start_of_last_movement {
                    now_ms - self.start_of_last_movement
                } else {
                    0
                }
            } else {
                0
            },
            current_mvt,
            next_mvt,
            playing: self.is_playing,
        }
    }
}

/// An exact copy of a movement.
fn clone_movement(m: &Movement) -> (r: Movement)
    ensures
        r == *m,
{
    Movement {
        id: m.id,
        is_break: m.is_break,
        is_interlude: m.is_interlude,
        description: m.description.clone(),
        duration_ms: m.duration_ms,
    }
}

} // verus!
