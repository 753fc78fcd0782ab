//! Transcript collection: attribution of transcript files to registered
//! agents, and incremental folding of transcript lines into per-file
//! cumulative counters.
//!
//! The caller watches the transcript tree, reads newly appended bytes of a
//! changed `.jsonl` file from the stored offset, and hands the chunk here;
//! everything the chunk changes — attribution, counters, emitted events —
//! is computed and specified below.

use vstd::prelude::*;
use vstd::string::StrSliceExecFns;
use vstd::string::StringSliceAdditionalSpecFns;

use crate::assoc::AssocList;
use crate::cost::{calculate_cost, spec_cost};
use crate::num::{sat128, sat32, sat64, sat_add_u128, sat_add_u32, sat_add_u64};
use crate::parser::{parse_jsonl_line, ParsedMessageView, TokenUsage};
use crate::parser::spec_parse_line;
use crate::text::{
    contains_sub,
    copy_str,
    spec_contains,
    spec_split,
    spec_take_chars,
    split_char,
    str_eq,
    str_to_chars,
    string_views,
    take_chars,
    chars_to_string,
};

verus! {

/// `s` with every occurrence of `from` substituted by `to`.
pub open spec fn spec_replace(s: Seq<char>, from: char, to: char) -> Seq<char> {
    Seq::new(
        s.len(),
        |i: int|
            if s[i] == from {
                to
            } else {
                s[i]
            },
    )
}

/// Runtime counterpart of `spec_replace`.
pub fn replace_char(s: &str, from: char, to: char) -> (r: String)
    ensures
        r@ == spec_replace(s@, from, to),
{
    let v = str_to_chars(s);
    let n = v.len();
    let mut out: Vec<char> = Vec::new();
    let mut i: usize = 0;
    while i < n
        invariant
            i <= n,
            n == v@.len(),
            v@ == s@,
            out@ =~= spec_replace(s@, from, to).take(i as int),
        decreases n - i,
    {
        let c = v[i];
        if c == from {
            out.push(to);
        } else {
            out.push(c);
        }
        assert(out@ =~= spec_replace(s@, from, to).take(i as int + 1));
        i = i + 1;
    }
    assert(out@ =~= spec_replace(s@, from, to));
    chars_to_string(&out)
}

/// Name of the directory holding the file: the next-to-last `/`-separated
/// component, where the path has one and it is not empty.
pub open spec fn spec_parent_name(path: Seq<char>) -> Option<Seq<char>> {
    let parts = spec_split(path, '/');
    if parts.len() >= 2 && parts[parts.len() - 2].len() > 0 {
        Some(parts[parts.len() - 2])
    } else {
        None
    }
}

/// Runtime counterpart of `spec_parent_name`.
pub fn parent_name(path: &str) -> (r: Option<String>)
    ensures
        match r {
            Some(s) => spec_parent_name(path@) == Some(s@),
            None => spec_parent_name(path@) is None,
        },
{
    let parts = split_char(path, '/');
    if parts.len() >= 2 {
        let idx = parts.len() - 2;
        assert(parts@[idx as int]@ == spec_split(path@, '/')[idx as int]);
        if parts[idx].as_str().unicode_len() > 0 {
            Some(parts[idx].clone())
        } else {
            None
        }
    } else {
        None
    }
}

/// One registered working directory matches an encoded transcript
/// directory name when either contains the other after decoding, or the
/// encoded forms contain each other.
pub open spec fn spec_dir_match(registered: Seq<char>, encoded: Seq<char>) -> bool {
    let decoded = spec_replace(encoded, '-', '/');
    spec_contains(decoded, registered) || spec_contains(registered, decoded) || spec_contains(
        encoded,
        spec_replace(registered, '/', '-'),
    )
}

/// First registered directory that matches, walked in registration order.
pub open spec fn spec_resolve(dirs: Seq<(String, String)>, encoded: Seq<char>) -> Option<
    Seq<char>,
>
    decreases dirs.len(),
{
    if dirs.len() == 0 {
        None
    } else if spec_dir_match(dirs[0].0@, encoded) {
        Some(dirs[0].1@)
    } else {
        spec_resolve(dirs.drop_first(), encoded)
    }
}

/// Attribution of an encoded directory name: the first matching
/// registration, or the only registered agent where there is exactly one.
pub open spec fn spec_attribute(dirs: Seq<(String, String)>, encoded: Seq<char>) -> Option<
    Seq<char>,
> {
    match spec_resolve(dirs, encoded) {
        Some(a) => Some(a),
        None => if dirs.len() == 1 {
            Some(dirs[0].1@)
        } else {
            None
        },
    }
}

/// Attribution of a transcript file path.
pub open spec fn spec_attribute_path(dirs: Seq<(String, String)>, path: Seq<char>) -> Option<
    Seq<char>,
> {
    match spec_parent_name(path) {
        Some(encoded) => spec_attribute(dirs, encoded),
        None => None,
    }
}

/// Attribute a transcript file to a registered agent, as
/// `spec_attribute_path` says.
pub fn dir_to_agent_id(dirs: &AssocList<String>, jsonl_path: &str) -> (r: Option<String>)
    ensures
        match r {
            Some(a) => spec_attribute_path(dirs.entries@, jsonl_path@) == Some(a@),
            None => spec_attribute_path(dirs.entries@, jsonl_path@) is None,
        },
{
    let encoded: String = match parent_name(jsonl_path) {
        Some(s) => s,
        None => {
            return None;
        },
    };
    let decoded = replace_char(encoded.as_str(), '-', '/');
    let n = dirs.entries.len();
    let mut i: usize = 0;
    assert(dirs.entries@.skip(0) =~= dirs.entries@);
    while i < n
        invariant
            i <= n,
            n == dirs.entries@.len(),
            decoded@ == spec_replace(encoded@, '-', '/'),
            spec_parent_name(jsonl_path@) == Some(encoded@),
            spec_resolve(dirs.entries@, encoded@) == spec_resolve(
                dirs.entries@.skip(i as int),
                encoded@,
            ),
        decreases n - i,
    {
        proof {
            assert(dirs.entries@.skip(i as int)[0] == dirs.entries@[i as int]);
            assert(dirs.entries@.skip(i as int).drop_first() =~= dirs.entries@.skip(i as int + 1));
        }
        let registered = &dirs.entries[i].0;
        if contains_sub(decoded.as_str(), registered.as_str()) || contains_sub(
            registered.as_str(),
            decoded.as_str(),
        ) {
            return Some(dirs.entries[i].1.clone());
        }
        let reencoded = replace_char(registered.as_str(), '/', '-');
        if contains_sub(encoded.as_str(), reencoded.as_str()) {
            return Some(dirs.entries[i].1.clone());
        }
        i = i + 1;
    }
    assert(dirs.entries@.skip(n as int) =~= Seq::<(String, String)>::empty());
    if n == 1 {
        return Some(dirs.entries[0].1.clone());
    }
    None
}

/// Per transcript file, the collector's fold state.
pub struct TrackedFile {
    pub offset: u64,
    pub agent_id: String,
    pub cumulative_cost_pico: u128,
    pub cumulative_messages: u32,
    pub cumulative_tool_calls: Vec<String>,
    pub last_model: Option<String>,
    pub cumulative_usage: TokenUsage,
}

/// Mathematical image of a [`TrackedFile`].
#[verifier::ext_equal]
pub struct TrackModel {
    pub offset: int,
    pub agent_id: Seq<char>,
    pub cost: int,
    pub messages: int,
    pub tools: Seq<Seq<char>>,
    pub last_model: Option<Seq<char>>,
    pub usage: TokenUsage,
}

impl View for TrackedFile {
    type V = TrackModel;

    open spec fn view(&self) -> TrackModel {
        TrackModel {
            offset: self.offset as int,
            agent_id: self.agent_id@,
            cost: self.cumulative_cost_pico as int,
            messages: self.cumulative_messages as int,
            tools: string_views(self.cumulative_tool_calls@),
            last_model: match self.last_model {
                Some(m) => Some(m@),
                None => None,
            },
            usage: self.cumulative_usage,
        }
    }
}

/// The fold state of a file seen for the first time.
pub open spec fn zero_track(agent_id: Seq<char>) -> TrackModel {
    TrackModel {
        offset: 0,
        agent_id: agent_id,
        cost: 0,
        messages: 0,
        tools: Seq::empty(),
        last_model: None,
        usage: TokenUsage::spec_zero(),
    }
}

/// Component-wise sum of usage counts, each count saturating.
pub open spec fn usage_sat_sum(a: TokenUsage, b: TokenUsage) -> TokenUsage {
    TokenUsage {
        input_tokens: sat64(a.input_tokens + b.input_tokens) as u64,
        output_tokens: sat64(a.output_tokens + b.output_tokens) as u64,
        cache_read_input_tokens: sat64(a.cache_read_input_tokens + b.cache_read_input_tokens)
            as u64,
        cache_creation_input_tokens: sat64(
            a.cache_creation_input_tokens + b.cache_creation_input_tokens,
        ) as u64,
    }
}

/// One parsed record folded into the state. A record without a session id
/// changes nothing. A model is sticky; usage counts add component-wise; a
/// usage record is costed only under a sticky model; tool names append;
/// the message count grows by one.
pub open spec fn apply_record(t: TrackModel, m: ParsedMessageView) -> TrackModel {
    if m.session_id.len() == 0 {
        t
    } else {
        let lm = if m.model is Some {
            m.model
        } else {
            t.last_model
        };
        let usage2 = match m.usage {
            Some(u) => usage_sat_sum(t.usage, u),
            None => t.usage,
        };
        let cost2 = match m.usage {
            Some(u) => match lm {
                Some(model) => sat128(t.cost + spec_cost(u, model)),
                None => t.cost,
            },
            None => t.cost,
        };
        TrackModel {
            offset: t.offset,
            agent_id: t.agent_id,
            cost: cost2,
            messages: sat32(t.messages + 1),
            tools: t.tools + m.tool_calls,
            last_model: lm,
            usage: usage2,
        }
    }
}

/// One raw line folded into the state; lines that parse to nothing change
/// nothing.
pub open spec fn apply_line(t: TrackModel, line: Seq<char>) -> TrackModel {
    match spec_parse_line(line) {
        Some(m) => apply_record(t, m),
        None => t,
    }
}

/// A sequence of lines folded front to back.
pub open spec fn apply_lines(t: TrackModel, lines: Seq<Seq<char>>) -> TrackModel
    decreases lines.len(),
{
    if lines.len() == 0 {
        t
    } else {
        apply_lines(apply_line(t, lines.first()), lines.drop_first())
    }
}

/// The line parses to a record that is counted: it carries a session id.
pub open spec fn counted(line: Seq<char>) -> bool {
    spec_parse_line(line) matches Some(m) && m.session_id.len() > 0
}

/// Some line of the chunk is counted, so an update is owed.
pub open spec fn has_counted(lines: Seq<Seq<char>>) -> bool
    decreases lines.len(),
{
    if lines.len() == 0 {
        false
    } else {
        counted(lines.first()) || has_counted(lines.drop_first())
    }
}

/// The first-task event of a chunk: the session id and the task text (cut
/// to 80 characters) of the first counted record, where the file had no
/// counted record yet and that record is a `user` message with text.
pub open spec fn spec_first_task(t: TrackModel, lines: Seq<Seq<char>>) -> Option<
    (Seq<char>, Seq<char>),
>
    decreases lines.len(),
{
    if lines.len() == 0 {
        None
    } else {
        let ev = match spec_parse_line(lines.first()) {
            Some(m) => if m.session_id.len() > 0 && t.messages == 0 && m.message_type == "user"@
                && m.content_text is Some {
                Some((m.session_id, spec_take_chars(m.content_text.unwrap(), 80)))
            } else {
                None
            },
            None => None,
        };
        if ev is Some {
            ev
        } else {
            spec_first_task(apply_line(t, lines.first()), lines.drop_first())
        }
    }
}

/// Folding a sequence of lines line by line appends at the back.
pub proof fn lemma_apply_snoc(t: TrackModel, lines: Seq<Seq<char>>, x: Seq<char>)
    ensures
        apply_lines(t, lines.push(x)) == apply_line(apply_lines(t, lines), x),
    decreases lines.len(),
{
    if lines.len() == 0 {
        assert(lines.push(x).drop_first() =~= Seq::<Seq<char>>::empty());
        assert(lines.push(x).first() == x);
    } else {
        assert(lines.push(x).first() == lines.first());
        assert(lines.push(x).drop_first() =~= lines.drop_first().push(x));
        lemma_apply_snoc(apply_line(t, lines.first()), lines.drop_first(), x);
    }
}

pub proof fn lemma_counted_snoc(lines: Seq<Seq<char>>, x: Seq<char>)
    ensures
        has_counted(lines.push(x)) == (has_counted(lines) || counted(x)),
    decreases lines.len(),
{
    if lines.len() == 0 {
        assert(lines.push(x).drop_first() =~= Seq::<Seq<char>>::empty());
        assert(lines.push(x).first() == x);
        assert(!has_counted(Seq::<Seq<char>>::empty()));
    } else {
        assert(lines.push(x).first() == lines.first());
        assert(lines.push(x).drop_first() =~= lines.drop_first().push(x));
        lemma_counted_snoc(lines.drop_first(), x);
    }
}

/// The fields of a fold state that a `TrackedFile` can hold.
pub open spec fn model_bounded(t: TrackModel) -> bool {
    &&& 0 <= t.offset <= u64::MAX
    &&& 0 <= t.cost <= u128::MAX
    &&& 0 <= t.messages <= u32::MAX
}

/// One fold step never decreases a cumulative counter.
pub proof fn lemma_apply_record_monotonic(t: TrackModel, m: ParsedMessageView)
    requires
        model_bounded(t),
    ensures
        model_bounded(apply_record(t, m)),
        apply_record(t, m).cost >= t.cost,
        apply_record(t, m).messages >= t.messages,
        apply_record(t, m).tools.len() >= t.tools.len(),
        apply_record(t, m).usage.input_tokens >= t.usage.input_tokens,
        apply_record(t, m).usage.output_tokens >= t.usage.output_tokens,
        apply_record(t, m).usage.cache_read_input_tokens >= t.usage.cache_read_input_tokens,
        apply_record(t, m).usage.cache_creation_input_tokens
            >= t.usage.cache_creation_input_tokens,
        sat64(apply_record(t, m).usage.total()) >= sat64(t.usage.total()),
{
    if m.session_id.len() > 0 {
        match m.usage {
            Some(u) => {
                let lm = if m.model is Some {
                    m.model
                } else {
                    t.last_model
                };
                match lm {
                    Some(model) => {
                        crate::cost::lemma_cost_bounded(u, model);
                    },
                    None => {},
                }
            },
            None => {},
        }
    }
}

/// The cumulative counters of a file are monotonically non-decreasing
/// across any sequence of folded lines, and so across events on the file.
pub proof fn lemma_apply_lines_monotonic(t: TrackModel, lines: Seq<Seq<char>>)
    requires
        model_bounded(t),
    ensures
        model_bounded(apply_lines(t, lines)),
        apply_lines(t, lines).cost >= t.cost,
        apply_lines(t, lines).messages >= t.messages,
        apply_lines(t, lines).tools.len() >= t.tools.len(),
        apply_lines(t, lines).usage.input_tokens >= t.usage.input_tokens,
        apply_lines(t, lines).usage.output_tokens >= t.usage.output_tokens,
        apply_lines(t, lines).usage.cache_read_input_tokens >= t.usage.cache_read_input_tokens,
        apply_lines(t, lines).usage.cache_creation_input_tokens
            >= t.usage.cache_creation_input_tokens,
        sat64(apply_lines(t, lines).usage.total()) >= sat64(t.usage.total()),
    decreases lines.len(),
{
    if lines.len() > 0 {
        match spec_parse_line(lines.first()) {
            Some(m) => {
                lemma_apply_record_monotonic(t, m);
            },
            None => {},
        }
        lemma_apply_lines_monotonic(apply_line(t, lines.first()), lines.drop_first());
    }
}

/// Payload of a first-task event.
#[derive(Debug, Clone)]
pub struct AgentDetected {
    pub agent_id: String,
    pub session_id: String,
    pub task: String,
}

/// Payload of a cumulative session update: the whole fold state of one
/// transcript file. Money is in picodollars.
#[derive(Debug, Clone)]
pub struct SessionUpdate {
    pub agent_id: String,
    pub session_id: String,
    pub model: Option<String>,
    pub total_tokens: u64,
    pub total_cost_pico: u128,
    pub message_count: u32,
    pub tool_calls: Vec<String>,
    pub usage: TokenUsage,
}

/// The fold state a chunk starts from: the stored state with its
/// attribution refreshed, or the zero state for a file seen first.
pub open spec fn chunk_start(existing: Option<TrackedFile>, agent_id: Seq<char>) -> TrackModel {
    match existing {
        Some(tf) => TrackModel { agent_id: agent_id, ..tf@ },
        None => zero_track(agent_id),
    }
}

/// Byte length of a string slice, as `str::len` reports it.
pub open spec fn spec_byte_len(s: &str) -> int {
    (s.spec_bytes().len() as usize) as int
}

/// View of an optional owned string.
pub open spec fn opt_string_view(o: Option<String>) -> Option<Seq<char>> {
    match o {
        Some(s) => Some(s@),
        None => None,
    }
}

/// Copy a vector of strings.
pub fn clone_strings(v: &Vec<String>) -> (r: Vec<String>)
    ensures
        string_views(r@) == string_views(v@),
{
    let mut r: Vec<String> = Vec::new();
    let mut i: usize = 0;
    while i < v.len()
        invariant
            i <= v@.len(),
            string_views(r@) =~= string_views(v@).take(i as int),
        decreases v@.len() - i,
    {
        let ghost prev = r@;
        let s = v[i].clone();
        assert(s@ == v@[i as int]@);
        r.push(s);
        proof {
            assert(r@ == prev.push(s));
            assert(prev.push(s).len() == prev.len() + 1);
            assert(string_views(prev).len() == prev.len());
            assert(prev.len() == i as int);
            assert forall|k: int| 0 <= k < r@.len() implies r@[k]@ == string_views(v@).take(
                i as int + 1,
            )[k] by {
                if k < i {
                    assert(prev.push(s)[k] == prev[k]);
                    assert(string_views(prev)[k] == prev[k]@);
                } else {
                    assert(prev.push(s)[k] == s);
                }
            }
            assert(string_views(r@) =~= string_views(v@).take(i as int + 1));
        }
        i = i + 1;
    }
    assert(string_views(r@) =~= string_views(v@));
    r
}

/// What processing one chunk of a transcript file yields.
pub struct ProcessOutcome {
    pub update: Option<SessionUpdate>,
    pub agent_detected: Option<AgentDetected>,
}

impl TrackedFile {
    /// Total token count of the cumulative usage: exactly the sum of the
    /// four cumulative counts whenever that sum fits the counter.
    pub fn cumulative_tokens(&self) -> (r: u64)
        ensures
            r == sat64(self.cumulative_usage.total()),
            self.cumulative_usage.total() <= u64::MAX ==> r == self.cumulative_usage.total(),
    {
        let u = &self.cumulative_usage;
        let a = sat_add_u64(u.input_tokens, u.output_tokens);
        let b = sat_add_u64(a, u.cache_read_input_tokens);
        sat_add_u64(b, u.cache_creation_input_tokens)
    }
}

/// The collector's shared state: the registry of agent working directories
/// and the fold state of every watched transcript file.
pub struct SessionWatcher {
    pub files: AssocList<TrackedFile>,
    pub agent_dirs: AssocList<String>,
}

impl SessionWatcher {
    pub open spec fn wf(self) -> bool {
        self.files.wf() && self.agent_dirs.wf()
    }

    pub fn new() -> (r: Self)
        ensures
            r.wf(),
            r.files.spec_len() == 0,
            r.agent_dirs.spec_len() == 0,
            forall|k: Seq<char>| r.files.spec_find(k) is None,
            forall|k: Seq<char>| r.agent_dirs.spec_find(k) is None,
    {
        SessionWatcher { files: AssocList::new(), agent_dirs: AssocList::new() }
    }

    /// Register (or overwrite) the working directory of an agent. The
    /// registry maps the directory to the agent id.
    pub fn register_agent(&mut self, agent_id: &str, working_dir: &str)
        requires
            old(self).wf(),
        ensures
            final(self).wf(),
            final(self).agent_dirs.spec_find(working_dir@) matches Some(a) && a@ == agent_id@,
            forall|other: Seq<char>|
                other != working_dir@ ==> #[trigger] final(self).agent_dirs.spec_find(other)
                    == old(self).agent_dirs.spec_find(other),
            final(self).files == old(self).files,
    {
        let id = copy_str(agent_id);
        self.agent_dirs.set(working_dir, id);
    }

    /// The attribution of a transcript path under the current registry.
    pub fn resolve_agent(&self, jsonl_path: &str) -> (r: Option<String>)
        ensures
            match r {
                Some(a) => spec_attribute_path(self.agent_dirs.entries@, jsonl_path@) == Some(a@),
                None => spec_attribute_path(self.agent_dirs.entries@, jsonl_path@) is None,
            },
    {
        dir_to_agent_id(&self.agent_dirs, jsonl_path)
    }

    /// Fold the newly appended bytes of one transcript file, handed over
    /// as text, into the file's cumulative counters. Unattributable files
    /// change nothing. Otherwise the chunk is split into lines and each
    /// line is folded as `apply_lines` says; the stored offset advances by
    /// exactly the byte length of the chunk; a session update carrying the
    /// cumulative snapshot is owed exactly when some line was counted; and
    /// the first counted record of the file raises the first-task event
    /// where it is a `user` message with text.
    pub fn process_chunk(&mut self, jsonl_path: &str, text: &str) -> (r: ProcessOutcome)
        requires
            old(self).wf(),
        ensures
            final(self).wf(),
            final(self).agent_dirs == old(self).agent_dirs,
            spec_attribute_path(old(self).agent_dirs.entries@, jsonl_path@) is None ==> (final(
                self).files == old(self).files && r.update is None && r.agent_detected is None),
            (match spec_attribute_path(old(self).agent_dirs.entries@, jsonl_path@) {
                Some(aid) => {
                    let t0 = chunk_start(old(self).files.spec_find(jsonl_path@), aid);
                    let lines = spec_split(text@, '\n');
                    let t1 = apply_lines(t0, lines);
                    &&& (final(self).files.spec_find(jsonl_path@) matches Some(tf2) && tf2@
                        == TrackModel {
                        offset: sat64(t0.offset + spec_byte_len(text)),
                        ..t1
                    })
                    &&& forall|other: Seq<char>|
                        other != jsonl_path@ ==> #[trigger] final(self).files.spec_find(other)
                            == old(self).files.spec_find(other)
                    &&& (r.update is Some <==> has_counted(lines))
                    &&& (r.update matches Some(u) ==> {
                        &&& u.agent_id@ == aid
                        &&& u.session_id@.len() == 0
                        &&& opt_string_view(u.model) == t1.last_model
                        &&& u.total_tokens == sat64(t1.usage.total())
                        &&& u.total_cost_pico == t1.cost
                        &&& u.message_count == t1.messages
                        &&& string_views(u.tool_calls@) == t1.tools
                        &&& u.usage == t1.usage
                    })
                    &&& (match spec_first_task(t0, lines) {
                        Some(ev) => r.agent_detected matches Some(a) && a.agent_id@ == aid
                            && a.session_id@ == ev.0 && a.task@ == ev.1,
                        None => r.agent_detected is None,
                    })
                    &&& t1.cost >= t0.cost
                    &&& t1.messages >= t0.messages
                    &&& t1.tools.len() >= t0.tools.len()
                    &&& sat64(t1.usage.total()) >= sat64(t0.usage.total())
                },
                None => true,
            }),
    {
        let aid: String = match self.resolve_agent(jsonl_path) {
            Some(a) => a,
            None => {
                return ProcessOutcome { update: None, agent_detected: None };
            },
        };
        let mut tf: TrackedFile = match self.files.take(jsonl_path) {
            Some(tf0) => tf0,
            None => TrackedFile {
                offset: 0,
                agent_id: copy_str(aid.as_str()),
                cumulative_cost_pico: 0,
                cumulative_messages: 0,
                cumulative_tool_calls: Vec::new(),
                last_model: None,
                cumulative_usage: TokenUsage {
                    input_tokens: 0,
                    output_tokens: 0,
                    cache_read_input_tokens: 0,
                    cache_creation_input_tokens: 0,
                },
            },
        };
        tf.agent_id = copy_str(aid.as_str());
        let ghost t0 = tf@;
        proof {
            assert(t0 =~= chunk_start(old(self).files.spec_find(jsonl_path@), aid@));
        }
        let lines: Vec<String> = split_char(text, '\n');
        let ghost lviews = string_views(lines@);
        let mut update_due = false;
        let mut detected: Option<AgentDetected> = None;
        let n = lines.len();
        let mut i: usize = 0;
        proof {
            assert(lviews.take(0) =~= Seq::<Seq<char>>::empty());
            assert(lviews.skip(0) =~= lviews);
        }
        while i < n
            invariant
                i <= n,
                n == lines@.len(),
                lviews == string_views(lines@),
                tf@ == apply_lines(t0, lviews.take(i as int)),
                tf@.offset == t0.offset,
                tf@.agent_id == t0.agent_id,
                update_due == has_counted(lviews.take(i as int)),
                (match detected {
                    Some(a) => spec_first_task(t0, lviews) == Some((a.session_id@, a.task@))
                        && a.agent_id@ == t0.agent_id,
                    None => spec_first_task(t0, lviews) == spec_first_task(
                        tf@,
                        lviews.skip(i as int),
                    ),
                }),
                aid@ == t0.agent_id,
            decreases n - i,
        {
            proof {
                assert(lviews[i as int] == lines@[i as int]@);
                assert(lviews.take(i as int + 1).drop_last() =~= lviews.take(i as int));
                assert(lviews.take(i as int + 1).last() == lviews[i as int]);
                assert(lviews.skip(i as int).first() == lviews[i as int]);
                assert(lviews.skip(i as int).drop_first() =~= lviews.skip(i as int + 1));
                lemma_apply_snoc(t0, lviews.take(i as int), lviews[i as int]);
                lemma_counted_snoc(lviews.take(i as int), lviews[i as int]);
            }
            let ghost tpre = tf@;
            let ghost detected_pre = detected;
            let parsed = parse_jsonl_line(lines[i].as_str());
            match parsed {
                Some(mut p) => {
                    let ghost pv = p@;
                    proof {
                        assert(spec_parse_line(lviews[i as int]) == Some(pv));
                    }
                    if !p.session_id.as_str().is_empty() {
                        if let Some(m) = &p.model {
                            tf.last_model = Some(m.clone());
                        }
                        if let Some(u) = p.usage {
                            tf.cumulative_usage = TokenUsage {
                                input_tokens: sat_add_u64(
                                    tf.cumulative_usage.input_tokens,
                                    u.input_tokens,
                                ),
                                output_tokens: sat_add_u64(
                                    tf.cumulative_usage.output_tokens,
                                    u.output_tokens,
                                ),
                                cache_read_input_tokens: sat_add_u64(
                                    tf.cumulative_usage.cache_read_input_tokens,
                                    u.cache_read_input_tokens,
                                ),
                                cache_creation_input_tokens: sat_add_u64(
                                    tf.cumulative_usage.cache_creation_input_tokens,
                                    u.cache_creation_input_tokens,
                                ),
                            };
                            match &tf.last_model {
                                Some(lm) => {
                                    let c = calculate_cost(&u, lm.as_str());
                                    tf.cumulative_cost_pico = sat_add_u128(
                                        tf.cumulative_cost_pico,
                                        c,
                                    );
                                },
                                None => {},
                            }
                        }
                        tf.cumulative_tool_calls.append(&mut p.tool_calls);
                        tf.cumulative_messages = sat_add_u32(tf.cumulative_messages, 1);
                        update_due = true;
                        proof {
                            assert(string_views(tf.cumulative_tool_calls@) =~= tpre.tools
                                + pv.tool_calls);
                            assert(tf@ =~= apply_record(tpre, pv));
                        }
                        if tf.cumulative_messages == 1 && str_eq(p.message_type.as_str(), "user") {
                            if let Some(task_text) = &p.content_text {
                                if detected.is_none() {
                                    detected = Some(
                                        AgentDetected {
                                            agent_id: copy_str(aid.as_str()),
                                            session_id: p.session_id.clone(),
                                            task: take_chars(task_text.as_str(), 80),
                                        },
                                    );
                                }
                            }
                        }
                    } else {
                        proof {
                            assert(tf@ =~= apply_record(tpre, pv));
                        }
                    }
                },
                None => {
                    proof {
                        assert(spec_parse_line(lviews[i as int]) is None);
                    }
                },
            }
            proof {
                assert(lviews.take(i as int + 1) =~= lviews.take(i as int).push(
                    lviews[i as int],
                ));
                assert(tf@ == apply_line(tpre, lviews[i as int]));
                assert(tf@ == apply_lines(t0, lviews.take(i as int + 1)));
                assert(update_due == has_counted(lviews.take(i as int + 1)));
                if detected_pre is None {
                    match &detected {
                        Some(a) => {
                            assert(spec_first_task(tpre, lviews.skip(i as int)) == Some(
                                (a.session_id@, a.task@),
                            ));
                            assert(spec_first_task(t0, lviews) == Some((a.session_id@, a.task@)));
                        },
                        None => {
                            assert(spec_first_task(tpre, lviews.skip(i as int))
                                == spec_first_task(tf@, lviews.skip(i as int + 1)));
                        },
                    }
                }
            }
            i = i + 1;
        }
        proof {
            assert(lviews.take(n as int) =~= lviews);
        }
        let byte_len = text.len();
        tf.offset = sat_add_u64(tf.offset, byte_len as u64);
        let update: Option<SessionUpdate> = if update_due {
            Some(
                SessionUpdate {
                    agent_id: copy_str(aid.as_str()),
                    session_id: String::new(),
                    model: match &tf.last_model {
                        Some(m) => Some(m.clone()),
                        None => None,
                    },
                    total_tokens: tf.cumulative_tokens(),
                    total_cost_pico: tf.cumulative_cost_pico,
                    message_count: tf.cumulative_messages,
                    tool_calls: clone_strings(&tf.cumulative_tool_calls),
                    usage: tf.cumulative_usage,
                },
            )
        } else {
            None
        };
        self.files.set(jsonl_path, tf);
        proof {
            lemma_apply_lines_monotonic(t0, lviews);
        }
        ProcessOutcome { update, agent_detected: detected }
    }

    /// Where the caller should resume reading a changed transcript file:
    /// the stored offset, or zero for a file seen for the first time.
    /// `None` for a
    /// file no registered agent owns.
    pub fn read_offset(&self, jsonl_path: &str) -> (r: Option<u64>)
        ensures
            match r {
                Some(off) => spec_attribute_path(self.agent_dirs.entries@, jsonl_path@) is Some
                    && off == (match self.files.spec_find(jsonl_path@) {
                    Some(tf) => tf@.offset,
                    None => 0,
                }),
                None => spec_attribute_path(self.agent_dirs.entries@, jsonl_path@) is None,
            },
    {
        match self.resolve_agent(jsonl_path) {
            None => None,
            Some(_) => match self.files.get(jsonl_path) {
                Some(tf) => Some(tf.offset),
                None => Some(0),
            },
        }
    }
}

} // verus!
