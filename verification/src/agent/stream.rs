//! A response stream in progress: its liveness file, and what each event of
//! the stream does to the run.
use crate::agent::run::Response;
use crate::json::{parse_u64, unsigned_text};
use crate::paths::{join, join_path};
use crate::text::{chars_of, concat, decimal, decimal_string, is_white, opt_chars, push_str, range_string, white};
use vstd::prelude::*;

verus! {

/// `s` without its leading whitespace.
pub open spec fn skip_white(s: Seq<char>) -> Seq<char>
    decreases s.len(),
{
    if s.len() > 0 && is_white(s[0]) {
        skip_white(s.skip(1))
    } else {
        s
    }
}

/// The length of the word that starts `s`.
pub open spec fn word_len(s: Seq<char>) -> nat
    decreases s.len(),
{
    if s.len() == 0 || is_white(s[0]) {
        0
    } else {
        1 + word_len(s.skip(1))
    }
}

/// The second whitespace-separated word of `s`, if it has two.
pub open spec fn second_word(s: Seq<char>) -> Option<Seq<char>> {
    let a = skip_white(s);
    let r = skip_white(a.skip(word_len(a) as int));
    if r.len() == 0 {
        None
    } else {
        Some(r.take(word_len(r) as int))
    }
}

/// The chunk count a liveness file records: its second word as a number,
/// else 0.
pub open spec fn chunk_count_in(text: Option<Seq<char>>) -> nat {
    match text {
        Some(t) => match second_word(t) {
            Some(w) => match unsigned_text(w) {
                Some(n) => if n <= u64::MAX {
                    n
                } else {
                    0
                },
                None => 0,
            },
            None => 0,
        },
        None => 0,
    }
}

/// Where the whitespace that starts at `i` ends.
fn skip_white_from(c: &Vec<char>, i: usize) -> (j: usize)
    requires
        i <= c@.len(),
    ensures
        i <= j <= c@.len(),
        c@.skip(j as int) == skip_white(c@.skip(i as int)),
{
    let mut j = i;
    assert(c@.skip(i as int) =~= c@.skip(j as int));
    while j < c.len() && white(c[j])
        invariant
            i <= j <= c@.len(),
            skip_white(c@.skip(i as int)) == skip_white(c@.skip(j as int)),
        decreases c@.len() - j,
    {
        assert(c@.skip(j as int)[0] == c@[j as int]);
        assert(c@.skip(j as int).skip(1) =~= c@.skip(j + 1));
        j = j + 1;
    }
    proof {
        if j < c@.len() {
            assert(c@.skip(j as int)[0] == c@[j as int]);
        } else {
            assert(c@.skip(j as int).len() == 0);
        }
    }
    j
}

/// Where the word that starts at `i` ends.
fn word_end(c: &Vec<char>, i: usize) -> (j: usize)
    requires
        i <= c@.len(),
    ensures
        j == i + word_len(c@.skip(i as int)),
        j <= c@.len(),
{
    let mut j = i;
    while j < c.len() && !white(c[j])
        invariant
            i <= j <= c@.len(),
            word_len(c@.skip(i as int)) == (j - i) + word_len(c@.skip(j as int)),
        decreases c@.len() - j,
    {
        assert(c@.skip(j as int)[0] == c@[j as int]);
        assert(c@.skip(j as int).skip(1) =~= c@.skip(j + 1));
        j = j + 1;
    }
    proof {
        if j < c@.len() {
            assert(c@.skip(j as int)[0] == c@[j as int]);
        }
    }
    j
}

/// The chunk count a liveness file records.
pub fn read_chunk_count(text: &Option<String>) -> (n: u64)
    ensures
        n == chunk_count_in(opt_chars(*text)),
{
    match text {
        None => 0,
        Some(t) => {
            let c = chars_of(t.as_str());
            let a = skip_white_from(&c, 0);
            let b = word_end(&c, a);
            let k = skip_white_from(&c, b);
            proof {
                assert(c@.skip(0) =~= c@);
                let s = skip_white(c@);
                assert(s.skip(word_len(s) as int) =~= c@.skip(b as int));
            }
            if k == c.len() {
                assert(c@.skip(k as int).len() == 0);
                return 0;
            }
            let l = word_end(&c, k);
            let w = range_string(&c, k, l);
            assert(w@ =~= c@.skip(k as int).take(word_len(c@.skip(k as int)) as int));
            match parse_u64(&chars_of(w.as_str())) {
                Some(v) => v,
                None => 0,
            }
        },
    }
}

/// A response stream's liveness file: where it is, and how many chunks
/// have arrived.
#[derive(Debug, Clone, PartialEq, Eq)]
pub struct StreamState {
    pub path: String,
    pub chunk_count: u64,
}

impl StreamState {
    /// The state of a stream starting in `session_dir`, whose liveness file
    /// held `prior` (if it existed): the count carries on from the file's,
    /// and the first tick is counted.
    pub fn create(session_dir: &str, prior: &Option<String>) -> (s: StreamState)
        requires
            chunk_count_in(opt_chars(*prior)) < u64::MAX,
        ensures
            s.path@ == join_path(session_dir@, "stream.state"@),
            s.chunk_count == chunk_count_in(opt_chars(*prior)) + 1,
    {
        let mut state = StreamState { path: join(session_dir, "stream.state"), chunk_count: read_chunk_count(prior) };
        state.tick();
        state
    }

    /// Counts one more chunk.
    pub fn tick(&mut self)
        requires
            old(self).chunk_count < u64::MAX,
        ensures
            final(self).chunk_count == old(self).chunk_count + 1,
            final(self).path == old(self).path,
    {
        self.chunk_count = self.chunk_count + 1;
    }

    /// The line the liveness file holds at time `ts` (seconds since the
    /// epoch): the time, a space, the count and a newline.
    pub fn line(&self, ts: u64) -> (l: String)
        ensures
            l@ == decimal(ts as nat) + " "@ + decimal(self.chunk_count as nat) + "\n"@,
    {
        let mut l = decimal_string(ts);
        push_str(&mut l, " ");
        push_str(&mut l, decimal_string(self.chunk_count).as_str());
        push_str(&mut l, "\n");
        l
    }

    /// Ends the stream: the state is consumed and the path of its liveness
    /// file is handed back, the file to delete now that the stream is over.
    pub fn finish(self) -> (path: String)
        ensures
            path == self.path,
    {
        self.path
    }
}

/// One event of a response stream.
#[derive(Debug, PartialEq)]
pub enum StreamItem {
    TextDelta(String),
    ToolCallDelta,
    ReasoningDelta(String),
    Complete(Response),
}

/// How a completed stream continues the run.
#[derive(Debug, PartialEq)]
pub enum StreamOutcome {
    ContinueWithTools(Response),
    Complete(Response),
    Empty,
}

/// What one stream event does.
#[derive(Debug, PartialEq)]
pub enum StreamStep {
    /// Count a chunk and read on.
    Tick,
    /// End the run with this error.
    Fail(String),
    /// The stream is complete.
    Finish(StreamOutcome),
}

/// What a stream event does: an error fails the run, a delta counts a
/// chunk, and the completion says how the run continues: with tools where
/// it requests calls, complete where it has a message, else empty.
pub fn stream_step(item: Result<StreamItem, String>) -> (s: StreamStep)
    ensures
        match item {
            Err(e) => s matches StreamStep::Fail(m) && m@ == "provider error: "@ + e@,
            Ok(StreamItem::Complete(r)) => if r.tool_calls is Some {
                s == StreamStep::Finish(StreamOutcome::ContinueWithTools(r))
            } else if r.message is Some {
                s == StreamStep::Finish(StreamOutcome::Complete(r))
            } else {
                s == StreamStep::Finish(StreamOutcome::Empty)
            },
            Ok(_) => s == StreamStep::Tick,
        },
{
    match item {
        Err(e) => StreamStep::Fail(concat("provider error: ", e.as_str())),
        Ok(StreamItem::Complete(response)) => {
            if response.tool_calls.is_some() {
                StreamStep::Finish(StreamOutcome::ContinueWithTools(response))
            } else if response.message.is_some() {
                StreamStep::Finish(StreamOutcome::Complete(response))
            } else {
                StreamStep::Finish(StreamOutcome::Empty)
            }
        },
        Ok(_) => StreamStep::Tick,
    }
}

/// The error of a stream that ends without completing.
pub fn stream_ended_early() -> (m: String)
    ensures
        m@ == "stream ended without a Complete event"@,
{
    "stream ended without a Complete event".to_owned()
}

} // verus!
