//! Sliding-window similarity analysis over terminal output chunks.
//!
//! Each agent has a bounded window of recent normalized output chunks. A
//! chunk that is similar to a long enough run of its predecessors raises an
//! alert that estimates the money burned by continued repetition.

use vstd::prelude::*;
use vstd::string::StrSliceExecFns;

use crate::assoc::AssocList;
use crate::text::{
    chars_to_string,
    copy_str,
    is_whitespace_char,
    is_ws_char,
    str_eq,
    str_to_chars,
    push_char,
};

verus! {

/// Number of chunks a window retains.
pub const WINDOW_SIZE: usize = 10;

/// Number of consecutive similar chunks that raises an alert.
pub const REPEAT_THRESHOLD: usize = 3;

/// Normalized chunks shorter than this are ignored.
pub const MIN_CHUNK_LENGTH: usize = 50;

/// Whitespace collapsing, walked front to back: every maximal run of
/// whitespace becomes a single space, every other character is kept as it
/// is. `prev_ws` says whether the previous character was whitespace.
pub open spec fn collapse_rec(s: Seq<char>, prev_ws: bool) -> Seq<char>
    decreases s.len(),
{
    if s.len() == 0 {
        Seq::empty()
    } else {
        let rest = collapse_rec(s.drop_first(), is_ws_char(s.first()));
        if is_ws_char(s.first()) {
            if prev_ws {
                rest
            } else {
                seq![' '] + rest
            }
        } else {
            seq![s.first()] + rest
        }
    }
}

/// Every maximal whitespace run replaced by one space.
pub open spec fn spec_collapse_ws(s: Seq<char>) -> Seq<char> {
    collapse_rec(s, false)
}

/// The Unicode lowercase fold of a chunk. The result depends on the
/// characters alone.
pub uninterp spec fn lower_of(s: Seq<char>) -> Seq<char>;

/// Relies on `str::to_lowercase`: the Unicode lowercase fold. An empty
/// string stays empty, and a string of nothing but whitespace is unchanged,
/// since whitespace characters have no lowercase mapping.
#[verifier::external_body]
fn lowercase_str(s: &str) -> (r: String)
    ensures
        r@ == lower_of(s@),
        s@.len() == 0 ==> r@.len() == 0,
        (forall|k: int| 0 <= k < s@.len() ==> is_ws_char(#[trigger] s@[k])) ==> r@ == s@,
{
    s.to_lowercase()
}

/// Whitespace runs collapsed to single spaces, then lowercased.
pub open spec fn spec_normalize(s: Seq<char>) -> Seq<char> {
    lower_of(spec_collapse_ws(s))
}

/// A whitespace-only chunk collapses to at most one space.
pub proof fn lemma_whitespace_collapse(s: Seq<char>)
    requires
        forall|k: int| 0 <= k < s.len() ==> is_ws_char(#[trigger] s[k]),
    ensures
        spec_collapse_ws(s) == Seq::<char>::empty() || spec_collapse_ws(s) == seq![' '],
        spec_collapse_ws(s).len() <= 1,
{
    lemma_collapse_ws(s, true);
    lemma_collapse_ws(s, false);
}

proof fn lemma_collapse_ws(s: Seq<char>, prev_ws: bool)
    requires
        forall|k: int| 0 <= k < s.len() ==> is_ws_char(#[trigger] s[k]),
    ensures
        prev_ws ==> collapse_rec(s, true) == Seq::<char>::empty(),
        !prev_ws ==> collapse_rec(s, false) == Seq::<char>::empty() || collapse_rec(s, false)
            == seq![' '],
    decreases s.len(),
{
    if s.len() > 0 {
        assert(forall|k: int|
            0 <= k < s.drop_first().len() ==> is_ws_char(#[trigger] s.drop_first()[k]));
        lemma_collapse_ws(s.drop_first(), true);
        if !prev_ws && is_ws_char(s.first()) {
            assert(collapse_rec(s, false) =~= seq![' ']);
        }
    }
}

/// Runtime normalization, exactly `spec_normalize`. A whitespace-only
/// chunk normalizes to at most one space, which is below the minimum
/// chunk length.
pub fn normalize_output(output: &str) -> (r: String)
    ensures
        r@ == spec_normalize(output@),
        (forall|k: int| 0 <= k < output@.len() ==> is_ws_char(#[trigger] output@[k]))
            ==> r@.len() <= 1,
{
    let v = str_to_chars(output);
    let n = v.len();
    let mut out: String = String::new();
    let mut prev_ws = false;
    let mut i: usize = 0;
    assert(v@.skip(0) =~= output@);
    while i < n
        invariant
            i <= n,
            n == v@.len(),
            v@ == output@,
            spec_collapse_ws(output@) == out@ + collapse_rec(output@.skip(i as int), prev_ws),
        decreases n - i,
    {
        let c = v[i];
        proof {
            assert(output@.skip(i as int).first() == output@[i as int]);
            assert(output@.skip(i as int).drop_first() =~= output@.skip(i as int + 1));
        }
        if is_whitespace_char(c) {
            if !prev_ws {
                push_char(&mut out, ' ');
                assert(out@ + collapse_rec(output@.skip(i as int + 1), true) =~= (
                out@.drop_last() + (seq![' '] + collapse_rec(output@.skip(i as int + 1), true))));
            }
            prev_ws = true;
        } else {
            push_char(&mut out, c);
            assert(out@ + collapse_rec(output@.skip(i as int + 1), false) =~= (out@.drop_last()
                + (seq![output@[i as int]] + collapse_rec(output@.skip(i as int + 1), false))));
            prev_ws = false;
        }
        i = i + 1;
    }
    proof {
        assert(output@.skip(n as int) =~= Seq::<char>::empty());
        assert(out@ + collapse_rec(Seq::<char>::empty(), prev_ws) =~= out@);
    }
    let folded = lowercase_str(out.as_str());
    proof {
        if forall|k: int| 0 <= k < output@.len() ==> is_ws_char(#[trigger] output@[k]) {
            lemma_whitespace_collapse(output@);
            if out@.len() > 0 {
                assert(out@ == seq![' ']);
                assert(forall|k: int| 0 <= k < out@.len() ==> is_ws_char(#[trigger] out@[k]));
            }
        }
    }
    folded
}

/// Position-wise matching character count of two chunks.
pub open spec fn match_count(a: Seq<char>, b: Seq<char>) -> int
    decreases a.len(),
{
    if a.len() == 0 || b.len() == 0 {
        0
    } else {
        (if a.first() == b.first() {
            1int
        } else {
            0int
        }) + match_count(a.drop_first(), b.drop_first())
    }
}

/// The similarity test the window uses: an empty chunk is similar to
/// nothing, not even another empty chunk; equal non-empty chunks are
/// similar; otherwise the position-wise match count must exceed four
/// fifths of the longer length (a ratio strictly above 0.8).
pub open spec fn spec_similar(a: Seq<char>, b: Seq<char>) -> bool {
    if a.len() == 0 || b.len() == 0 {
        false
    } else if a == b {
        true
    } else {
        5 * match_count(a, b) > 4 * (if a.len() >= b.len() {
            a.len() as int
        } else {
            b.len() as int
        })
    }
}

/// Runtime similarity test, exactly `spec_similar`.
pub fn similar(a: &str, b: &str) -> (r: bool)
    ensures
        r == spec_similar(a@, b@),
{
    let av = str_to_chars(a);
    let bv = str_to_chars(b);
    if av.len() == 0 || bv.len() == 0 {
        return false;
    }
    if str_eq(a, b) {
        return true;
    }
    let min_len: usize = if av.len() <= bv.len() {
        av.len()
    } else {
        bv.len()
    };
    let max_len: usize = if av.len() >= bv.len() {
        av.len()
    } else {
        bv.len()
    };
    let mut cnt: usize = 0;
    let mut i: usize = 0;
    assert(a@.skip(0) =~= a@);
    assert(b@.skip(0) =~= b@);
    while i < min_len
        invariant
            i <= min_len,
            min_len <= a@.len(),
            min_len <= b@.len(),
            av@ == a@,
            bv@ == b@,
            cnt <= i,
            match_count(a@, b@) == cnt + match_count(a@.skip(i as int), b@.skip(i as int)),
        decreases min_len - i,
    {
        proof {
            assert(a@.skip(i as int).first() == a@[i as int]);
            assert(b@.skip(i as int).first() == b@[i as int]);
            assert(a@.skip(i as int).drop_first() =~= a@.skip(i as int + 1));
            assert(b@.skip(i as int).drop_first() =~= b@.skip(i as int + 1));
        }
        if av[i] == bv[i] {
            cnt = cnt + 1;
        }
        i = i + 1;
    }
    proof {
        if a@.len() <= b@.len() {
            assert(a@.skip(min_len as int) =~= Seq::<char>::empty());
        } else {
            assert(b@.skip(min_len as int) =~= Seq::<char>::empty());
        }
        assert(match_count(a@.skip(min_len as int), b@.skip(min_len as int)) == 0);
    }
    (5u128 * (cnt as u128)) > (4u128 * (max_len as u128))
}

/// A chunk cut to `max_len` characters, with an ellipsis where it was cut.
pub open spec fn spec_truncate(s: Seq<char>, max: int) -> Seq<char> {
    if s.len() <= max {
        s
    } else {
        s.take(max) + "..."@
    }
}

/// Runtime counterpart of `spec_truncate`.
pub fn truncate(s: &str, max_len: usize) -> (r: String)
    ensures
        r@ == spec_truncate(s@, max_len as int),
{
    let n = s.unicode_len();
    if n <= max_len {
        copy_str(s)
    } else {
        let mut v = str_to_chars(s);
        v.truncate(max_len);
        assert(v@ =~= s@.take(max_len as int));
        let mut out = chars_to_string(&v);
        out.append("...");
        out
    }
}

/// Per-agent window state: the recent normalized chunks, the sticky
/// loop flag, and how many alerts have fired.
pub struct AgentWindow {
    pub chunks: Vec<String>,
    pub loop_detected: bool,
    pub loop_count: u32,
}

/// The views of a window's chunks.
pub open spec fn views_of(chunks: Seq<String>) -> Seq<Seq<char>> {
    Seq::new(chunks.len(), |i: int| chunks[i]@)
}

/// What appending one normalized chunk does to a full or non-full window.
pub open spec fn window_after_push(w0: Seq<Seq<char>>, c: Seq<char>) -> Seq<Seq<char>> {
    if w0.len() >= WINDOW_SIZE {
        w0.push(c).drop_first()
    } else {
        w0.push(c)
    }
}

/// Length of the run of chunks similar to `last`, walked newest to oldest.
pub open spec fn sim_run_from(chunks: Seq<Seq<char>>, last: Seq<char>) -> int
    decreases chunks.len(),
{
    if chunks.len() == 0 {
        0
    } else if spec_similar(chunks.last(), last) {
        1 + sim_run_from(chunks.drop_last(), last)
    } else {
        0
    }
}

/// An alert fires when the window holds at least the threshold number of
/// chunks and the newest chunk closes a long enough similar run.
pub open spec fn alert_fires(w1: Seq<Seq<char>>) -> bool {
    w1.len() >= REPEAT_THRESHOLD && sim_run_from(w1, w1.last()) >= REPEAT_THRESHOLD
}

/// A raised alert: the repeated pattern cut to 100 characters, the length
/// of the similar run, and the estimated waste of continued repetition in
/// picodollars.
#[derive(Debug, Clone)]
pub struct LoopAlert {
    pub agent_id: String,
    pub pattern: String,
    pub repeat_count: usize,
    pub estimated_waste_pico: u128,
}

/// Sliding-window loop detection over every supervised agent.
pub struct LoopDetector {
    pub windows: AssocList<AgentWindow>,
}

impl LoopDetector {
    /// Every window respects the size bound, and agent ids are distinct.
    pub open spec fn wf(self) -> bool {
        &&& self.windows.wf()
        &&& forall|k: Seq<char>|
            (#[trigger] self.windows.spec_find(k)) matches Some(w) ==> w.chunks@.len()
                <= WINDOW_SIZE
    }

    pub open spec fn spec_window(self, id: Seq<char>) -> Option<AgentWindow> {
        self.windows.spec_find(id)
    }

    /// Chunks of one agent's window; absent agents have none.
    pub open spec fn spec_chunks(self, id: Seq<char>) -> Seq<Seq<char>> {
        match self.spec_window(id) {
            Some(w) => views_of(w.chunks@),
            None => Seq::empty(),
        }
    }

    /// The sticky flag; absent agents are not looping.
    pub open spec fn spec_is_looping(self, id: Seq<char>) -> bool {
        match self.spec_window(id) {
            Some(w) => w.loop_detected,
            None => false,
        }
    }

    /// How many alerts have fired for one agent.
    pub open spec fn spec_loop_count(self, id: Seq<char>) -> u32 {
        match self.spec_window(id) {
            Some(w) => w.loop_count,
            None => 0,
        }
    }

    pub fn new() -> (r: Self)
        ensures
            r.wf(),
            forall|k: Seq<char>| r.spec_window(k) is None,
    {
        LoopDetector { windows: AssocList::new() }
    }

    /// Feed one output chunk for one agent. The chunk is normalized; a
    /// too-short chunk only (possibly) creates the agent's empty window.
    /// Otherwise the chunk enters the window, the oldest chunk leaving a
    /// full one, and an alert fires exactly when the newest chunk closes a
    /// similar run of at least `REPEAT_THRESHOLD` within the at most
    /// `WINDOW_SIZE` retained chunks.
    pub fn feed(&mut self, agent_id: &str, output: &str, burn_rate_pico_per_sec: u64) -> (r:
        Option<LoopAlert>)
        requires
            old(self).wf(),
        ensures
            final(self).wf(),
            ({
                let norm = spec_normalize(output@);
                let w1 = window_after_push(old(self).spec_chunks(agent_id@), norm);
                &&& forall|other: Seq<char>|
                    other != agent_id@ ==> #[trigger] final(self).spec_window(other) == old(
                        self,
                    ).spec_window(other)
                &&& final(self).spec_window(agent_id@) is Some
                &&& norm.len() < MIN_CHUNK_LENGTH ==> final(self).spec_chunks(agent_id@) == old(
                    self,
                ).spec_chunks(agent_id@)
                &&& norm.len() >= MIN_CHUNK_LENGTH ==> final(self).spec_chunks(agent_id@) == w1
                &&& (r is Some <==> norm.len() >= MIN_CHUNK_LENGTH && alert_fires(w1))
                &&& (r matches Some(alert) ==> {
                    &&& alert.agent_id@ == agent_id@
                    &&& alert.pattern@ == spec_truncate(norm, 100)
                    &&& alert.repeat_count == sim_run_from(w1, norm)
                    &&& alert.repeat_count >= REPEAT_THRESHOLD
                    &&& w1.len() <= WINDOW_SIZE
                    &&& alert.estimated_waste_pico == burn_rate_pico_per_sec * 30
                        * sim_run_from(w1, norm)
                    &&& final(self).spec_is_looping(agent_id@)
                    &&& final(self).spec_loop_count(agent_id@) == (if old(self).spec_loop_count(
                        agent_id@,
                    ) < u32::MAX {
                        old(self).spec_loop_count(agent_id@) + 1
                    } else {
                        u32::MAX as int
                    })
                })
                &&& (r is None ==> final(self).spec_is_looping(agent_id@) == old(
                    self,
                ).spec_is_looping(agent_id@) && final(self).spec_loop_count(agent_id@) == old(
                    self,
                ).spec_loop_count(agent_id@))
                &&& ((forall|k: int| 0 <= k < output@.len() ==> is_ws_char(#[trigger] output@[k]))
                    ==> r is None)
            }),
    {
        let mut w: AgentWindow = match self.windows.take(agent_id) {
            Some(w) => w,
            None => AgentWindow { chunks: Vec::new(), loop_detected: false, loop_count: 0 },
        };
        let ghost w0 = views_of(w.chunks@);
        assert(w0 =~= old(self).spec_chunks(agent_id@));
        assert(w0.len() <= WINDOW_SIZE);
        let normalized = normalize_output(output);
        if normalized.as_str().unicode_len() < MIN_CHUNK_LENGTH {
            self.windows.set(agent_id, w);
            proof {
                assert forall|kk: Seq<char>|
                    ((#[trigger] self.windows.spec_find(kk)) matches Some(ww)
                        ==> ww.chunks@.len() <= WINDOW_SIZE) by {
                    if kk != agent_id@ {
                        assert(self.windows.spec_find(kk) == old(self).windows.spec_find(kk));
                    }
                }
                assert(self.spec_chunks(agent_id@) =~= old(self).spec_chunks(agent_id@));
            }
            return None;
        }
        let ghost norm = normalized@;
        w.chunks.push(normalized.clone());
        if w.chunks.len() > WINDOW_SIZE {
            w.chunks.remove(0);
            assert(views_of(w.chunks@) =~= window_after_push(w0, norm));
        } else {
            assert(views_of(w.chunks@) =~= window_after_push(w0, norm));
        }
        let ghost w1 = views_of(w.chunks@);
        let len = w.chunks.len();
        assert(w1.last() == norm);
        let mut fired = false;
        let mut run: usize = 0;
        if len >= REPEAT_THRESHOLD {
            let last: String = w.chunks[len - 1].clone();
            let mut k: usize = len;
            assert(w1.take(len as int) =~= w1);
            loop
                invariant_except_break
                    k <= len,
                    len == w.chunks@.len(),
                    w1 == views_of(w.chunks@),
                    last@ == norm,
                    norm == w1.last(),
                    run == len - k,
                    sim_run_from(w1, norm) == run + sim_run_from(w1.take(k as int), norm),
                ensures
                    run == sim_run_from(w1, norm),
                    run <= len,
                decreases k,
            {
                if k == 0 {
                    assert(sim_run_from(w1.take(0), norm) == 0);
                    break ;
                }
                proof {
                    assert(w1.take(k as int).last() == w1[k - 1]);
                    assert(w1.take(k as int).drop_last() =~= w1.take(k as int - 1));
                }
                if !similar(w.chunks[k - 1].as_str(), last.as_str()) {
                    assert(sim_run_from(w1.take(k as int), norm) == 0);
                    break ;
                }
                run = run + 1;
                k = k - 1;
            }
            if run >= REPEAT_THRESHOLD {
                fired = true;
                w.loop_detected = true;
                w.loop_count = if w.loop_count < u32::MAX {
                    w.loop_count + 1
                } else {
                    u32::MAX
                };
            }
            if fired {
                assert((burn_rate_pico_per_sec as u128) * 30 * (run as u128)
                    <= (burn_rate_pico_per_sec as u128) * 30 * 10) by (nonlinear_arith)
                    requires
                        run <= 10,
                ;
                let waste: u128 = (burn_rate_pico_per_sec as u128) * 30 * (run as u128);
                let alert = LoopAlert {
                    agent_id: copy_str(agent_id),
                    pattern: truncate(last.as_str(), 100),
                    repeat_count: run,
                    estimated_waste_pico: waste,
                };
                self.windows.set(agent_id, w);
                proof {
                    assert forall|kk: Seq<char>|
                        ((#[trigger] self.windows.spec_find(kk)) matches Some(ww)
                            ==> ww.chunks@.len() <= WINDOW_SIZE) by {
                        if kk != agent_id@ {
                            assert(self.windows.spec_find(kk) == old(self).windows.spec_find(kk));
                        }
                    }
                }
                return Some(alert);
            }
        }
        self.windows.set(agent_id, w);
        proof {
            assert forall|kk: Seq<char>|
                ((#[trigger] self.windows.spec_find(kk)) matches Some(ww) ==> ww.chunks@.len()
                <= WINDOW_SIZE) by {
                if kk != agent_id@ {
                    assert(self.windows.spec_find(kk) == old(self).windows.spec_find(kk));
                }
            }
        }
        None
    }

    /// Drop one agent's window; the agent is no longer looping.
    pub fn reset(&mut self, agent_id: &str)
        requires
            old(self).wf(),
        ensures
            final(self).wf(),
            final(self).spec_window(agent_id@) is None,
            final(self).spec_is_looping(agent_id@) == false,
            forall|other: Seq<char>|
                other != agent_id@ ==> #[trigger] final(self).spec_window(other) == old(
                    self,
                ).spec_window(other),
    {
        let _ = self.windows.take(agent_id);
    }

    /// The sticky flag set when an alert has fired since the last reset.
    pub fn is_looping(&self, agent_id: &str) -> (r: bool)
        ensures
            r == self.spec_is_looping(agent_id@),
    {
        match self.windows.get(agent_id) {
            Some(w) => w.loop_detected,
            None => false,
        }
    }
}

} // verus!
