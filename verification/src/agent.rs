//! The background agent's decisions: which part of the event log to read,
//! how the new text splits into lines, and when an error plays the sound.
//! The caller does the reading, the clock and the playing.

use vstd::prelude::*;
use crate::event::{error_event, is_error_event, ErrorMatcher};
use crate::text::{chars_of, find_char, find_from, lemma_find_from, lemma_find_shift, string_from_range};

verus! {

/// The shortest time between two plays of the sound, in milliseconds.
pub const COOLDOWN_MS: u64 = 2000;

/// `l` without one carriage return at its end.
pub open spec fn strip_cr(l: Seq<char>) -> Seq<char> {
    if l.len() > 0 && l.last() == '\r' {
        l.drop_last()
    } else {
        l
    }
}

/// The lines of `b` as `str::lines` yields them: split at line feeds, a
/// carriage return before a line feed dropped, no empty line after a final
/// line feed.
pub open spec fn lines_of(b: Seq<char>) -> Seq<Seq<char>>
    decreases b.len(),
{
    if b.len() == 0 {
        Seq::empty()
    } else {
        match find_from(b, seq!['\n'], 0) {
            None => seq![b],
            Some(i) => {
                proof {
                    lemma_find_from(b, seq!['\n'], 0);
                }
                seq![strip_cr(b.take(i))] + lines_of(b.skip(i + 1))
            },
        }
    }
}

/// Splits newly read log text into lines.
pub fn split_lines(buffer: &str) -> (r: Vec<String>)
    ensures
        r.len() == lines_of(buffer@).len(),
        forall|i: int| 0 <= i < r.len() ==> (#[trigger] r[i])@ == lines_of(buffer@)[i],
{
    let v = chars_of(buffer);
    let mut out: Vec<String> = Vec::new();
    let ghost mut acc: Seq<Seq<char>> = Seq::empty();
    let mut start: usize = 0;
    assert(v@.skip(0) =~= v@);
    while start < v.len()
        invariant
            v@ == buffer@,
            start <= v.len(),
            out.len() == acc.len(),
            forall|i: int| 0 <= i < out.len() ==> (#[trigger] out[i])@ == acc[i],
            acc + lines_of(v@.skip(start as int)) == lines_of(v@),
        decreases v.len() - start,
    {
        let ghost w = v@.skip(start as int);
        proof {
            assert(v@.take(start as int) + w =~= v@);
            lemma_find_shift(v@.take(start as int), w, seq!['\n'], 0);
            lemma_find_from(w, seq!['\n'], 0);
        }
        match find_char(&v, '\n', start) {
            None => {
                let line = string_from_range(&v, start, v.len());
                assert(line@ =~= w);
                proof {
                    assert(lines_of(w) == seq![w]);
                    acc = acc.push(w);
                    assert(v@.skip(v.len() as int) =~= Seq::<char>::empty());
                }
                out.push(line);
                start = v.len();
                assert(acc + lines_of(v@.skip(start as int)) =~= lines_of(v@));
            },
            Some(i) => {
                let end = if i > start && v[i - 1] == '\r' {
                    i - 1
                } else {
                    i
                };
                let line = string_from_range(&v, start, end);
                proof {
                    let k = i - start;
                    assert(w.take(k) =~= v@.subrange(start as int, i as int));
                    assert(w.skip(k + 1) =~= v@.skip(i + 1));
                    assert(line@ =~= strip_cr(w.take(k)));
                    assert(lines_of(w) == seq![strip_cr(w.take(k))] + lines_of(w.skip(k + 1)));
                    acc = acc.push(line@);
                    assert(acc + lines_of(v@.skip(i + 1)) =~= lines_of(v@));
                }
                out.push(line);
                start = i + 1;
            },
        }
    }
    assert(v@.skip(start as int) =~= Seq::<char>::empty());
    assert(acc =~= lines_of(v@));
    out
}

/// Enough time has passed since the last play, as `Instant::elapsed`
/// measures it (a clock that went back counts as no time at all).
pub open spec fn cooled_down(last_played: Option<u64>, now: u64) -> bool {
    match last_played {
        None => true,
        Some(t) => now >= t && now - t >= COOLDOWN_MS,
    }
}

/// Where to read from after the log was found to be `len` long, and the
/// position that is then read up to: a shorter log was replaced and is read
/// from its start; a longer one from where the last read ended.
pub open spec fn read_from(cursor: u64, len: u64) -> Option<u64> {
    let c = if len < cursor {
        0
    } else {
        cursor
    };
    if len > c {
        Some(c)
    } else {
        None
    }
}

/// The agent's state between two looks at the event log.
pub struct AgentState {
    /// The length of the log that has been read.
    pub cursor: u64,
    /// When the sound was last played, in milliseconds of the caller's clock.
    pub last_played_ms: Option<u64>,
}

impl AgentState {
    /// Starts at the end of a log that is `log_len` long, with no play yet.
    pub fn new(log_len: u64) -> (s: AgentState)
        ensures
            s.cursor == log_len,
            s.last_played_ms is None,
    {
        AgentState { cursor: log_len, last_played_ms: None }
    }

    /// The log is now `log_len` long: returns the offset to read the new
    /// text from, if there is new text, and moves the cursor to the end.
    pub fn poll(&mut self, log_len: u64) -> (r: Option<u64>)
        ensures
            r == read_from(old(self).cursor, log_len),
            r matches Some(o) ==> o < log_len,
            final(self).cursor == log_len,
            final(self).last_played_ms == old(self).last_played_ms,
    {
        if log_len < self.cursor {
            self.cursor = 0;
        }
        if log_len > self.cursor {
            let from = self.cursor;
            self.cursor = log_len;
            Some(from)
        } else {
            None
        }
    }

    /// An event line was read at time `now_ms`; `is_error` tells whether it
    /// reports an error. Returns whether to play the sound now.
    pub fn note_event(&mut self, is_error: bool, now_ms: u64) -> (play: bool)
        ensures
            play == (is_error && cooled_down(old(self).last_played_ms, now_ms)),
            final(self).last_played_ms == if play {
                Some(now_ms)
            } else {
                old(self).last_played_ms
            },
            final(self).cursor == old(self).cursor,
    {
        if !is_error {
            return false;
        }
        let ready = match self.last_played_ms {
            None => true,
            Some(t) => now_ms >= t && now_ms - t >= COOLDOWN_MS,
        };
        if ready {
            self.last_played_ms = Some(now_ms);
        }
        ready
    }

    /// The event line `line` was read at time `now_ms`. Returns whether to
    /// play the sound now.
    pub fn on_line(&mut self, line: &str, now_ms: u64, matcher: &ErrorMatcher) -> (play: bool)
        ensures
            play == (error_event(line@, matcher.pattern()) && cooled_down(
                old(self).last_played_ms,
                now_ms,
            )),
            final(self).last_played_ms == if play {
                Some(now_ms)
            } else {
                old(self).last_played_ms
            },
            final(self).cursor == old(self).cursor,
    {
        let is_error = is_error_event(line, matcher);
        self.note_event(is_error, now_ms)
    }
}

/// When the sound was last played after the events `ev` (each an error flag
/// and a time), starting from `last`.
pub open spec fn last_play_after(last: Option<u64>, ev: Seq<(bool, u64)>) -> Option<u64>
    decreases ev.len(),
{
    if ev.len() == 0 {
        last
    } else {
        let prev = last_play_after(last, ev.drop_last());
        if ev.last().0 && cooled_down(prev, ev.last().1) {
            Some(ev.last().1)
        } else {
            prev
        }
    }
}

/// Whether the `i`-th of the events `ev` plays the sound.
pub open spec fn plays_at(last: Option<u64>, ev: Seq<(bool, u64)>, i: int) -> bool {
    ev[i].0 && cooled_down(last_play_after(last, ev.take(i)), ev[i].1)
}

proof fn lemma_last_play_covers(ev: Seq<(bool, u64)>)
    ensures
        forall|i: int|
            0 <= i < ev.len() && plays_at(None, ev, i) ==> (last_play_after(None, ev) matches Some(
                t,
            ) && t >= ev[i].1),
    decreases ev.len(),
{
    if ev.len() > 0 {
        let p = ev.drop_last();
        lemma_last_play_covers(p);
        assert forall|i: int| 0 <= i < ev.len() && plays_at(None, ev, i) implies (last_play_after(
            None,
            ev,
        ) matches Some(t) && t >= ev[i].1) by {
            if i < ev.len() - 1 {
                assert(ev.take(i) =~= p.take(i));
                assert(plays_at(None, p, i));
            } else {
                assert(ev.take(i) =~= p);
            }
        }
    }
}

/// Any two plays of the sound are at least the cooldown apart: over any run
/// of events that starts with no play, a play at event `j` comes at least
/// `COOLDOWN_MS` after a play at an earlier event `i`.
pub proof fn lemma_plays_are_spaced(ev: Seq<(bool, u64)>, i: int, j: int)
    requires
        0 <= i < j < ev.len(),
        plays_at(None, ev, i),
        plays_at(None, ev, j),
    ensures
        ev[j].1 >= ev[i].1 + COOLDOWN_MS,
{
    let p = ev.take(j);
    lemma_last_play_covers(p);
    assert(p.take(i) =~= ev.take(i));
    assert(plays_at(None, p, i));
}

/// One more event extends a run as `note_event` does: it plays exactly when
/// it is an error and the cooldown since the run's last play has passed, and
/// the run's last play is then this event's time. So an agent whose
/// `last_played_ms` is `last_play_after(None, ev)` and that calls
/// `note_event` for each further event plays exactly at `plays_at`.
pub proof fn lemma_note_event_extends_run(ev: Seq<(bool, u64)>, e: (bool, u64))
    ensures
        plays_at(None, ev.push(e), ev.len() as int) == (e.0 && cooled_down(
            last_play_after(None, ev),
            e.1,
        )),
        last_play_after(None, ev.push(e)) == if e.0 && cooled_down(last_play_after(None, ev), e.1) {
            Some(e.1)
        } else {
            last_play_after(None, ev)
        },
{
    assert(ev.push(e).drop_last() =~= ev);
    assert(ev.push(e).take(ev.len() as int) =~= ev);
}

/// The cursor before the `i`-th look at the log, for an agent made by
/// `AgentState::new(start)` that then called `poll` with the lengths `lens`
/// (each `poll` leaves the cursor at the length it was given).
pub open spec fn cursor_before(start: u64, lens: Seq<u64>, i: int) -> u64 {
    if i == 0 {
        start
    } else {
        lens[i - 1]
    }
}

proof fn lemma_cursor_grows(start: u64, lens: Seq<u64>, i: int)
    requires
        0 <= i <= lens.len(),
        forall|k: int| 0 <= k < lens.len() ==> cursor_before(start, lens, k) <= #[trigger] lens[k],
    ensures
        start <= cursor_before(start, lens, i),
    decreases i,
{
    if i > 0 {
        lemma_cursor_grows(start, lens, i - 1);
        assert(cursor_before(start, lens, i - 1) <= lens[i - 1]);
    }
}

/// While the log only grows, the agent reads each new stretch once, from
/// where the last read ended, and never what the log held when it started:
/// every offset it reads from is the previous length and at least the
/// starting length, and it reads nothing when the length did not change.
pub proof fn lemma_growing_log_reads_only_new(start: u64, lens: Seq<u64>)
    requires
        forall|k: int| 0 <= k < lens.len() ==> cursor_before(start, lens, k) <= #[trigger] lens[k],
    ensures
        forall|i: int|
            0 <= i < lens.len() ==> match read_from(cursor_before(start, lens, i), #[trigger] lens[i]) {
                Some(o) => o == cursor_before(start, lens, i) && start <= o && o < lens[i],
                None => lens[i] == cursor_before(start, lens, i),
            },
{
    assert forall|i: int| 0 <= i < lens.len() implies match read_from(
        cursor_before(start, lens, i),
        #[trigger] lens[i],
    ) {
        Some(o) => o == cursor_before(start, lens, i) && start <= o && o < lens[i],
        None => lens[i] == cursor_before(start, lens, i),
    } by {
        lemma_cursor_grows(start, lens, i);
    }
}

proof fn lemma_last_play_is_an_event(ev: Seq<(bool, u64)>)
    ensures
        last_play_after(None, ev) matches Some(t) ==> exists|j: int|
            0 <= j < ev.len() && #[trigger] ev[j].1 == t,
    decreases ev.len(),
{
    if ev.len() > 0 {
        let p = ev.drop_last();
        lemma_last_play_is_an_event(p);
        if last_play_after(None, ev) != last_play_after(None, p) {
            assert(ev[ev.len() - 1].1 == ev.last().1);
        } else if let Some(t) = last_play_after(None, p) {
            let j = choose|j: int| 0 <= j < p.len() && #[trigger] p[j].1 == t;
            assert(ev[j].1 == p[j].1);
        }
    }
}

/// An error that comes at least the cooldown after every earlier event
/// plays the sound.
pub proof fn lemma_error_after_quiet_plays(ev: Seq<(bool, u64)>, i: int)
    requires
        0 <= i < ev.len(),
        ev[i].0,
        forall|j: int| 0 <= j < i ==> #[trigger] ev[j].1 + COOLDOWN_MS <= ev[i].1,
    ensures
        plays_at(None, ev, i),
{
    let p = ev.take(i);
    lemma_last_play_is_an_event(p);
    if let Some(t) = last_play_after(None, p) {
        let j = choose|j: int| 0 <= j < p.len() && #[trigger] p[j].1 == t;
        assert(p[j] == ev[j]);
    }
}

} // verus!
