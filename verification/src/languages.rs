//! The language registry and the deterministic core of the execution engine:
//! command parsing, identifier support, image resolution, snippet wrapping,
//! and the conclusion of a run (timeout, output selection, UTF-8 decoding).

use vstd::prelude::*;
use vstd::utf8::decode_utf8;
use vstd::utf8::valid_utf8;

use crate::command::cmd_code;
use crate::command::cmd_lang;
use crate::command::cmd_matches;
use crate::command::parse_run_command;
use crate::errors::ExecError;
use crate::strings::lemma_lex_lt_connected;
use crate::strings::lemma_lex_lt_trans;
use crate::strings::lex_lt;
use crate::strings::str_eq;
use crate::strings::str_lt;

verus! {

/// Parse a run command into its language tag and code text; fails with
/// `InvalidCommand` exactly when the command grammar does not match.
pub fn parse(msg: &str) -> (r: Result<(String, String), ExecError>)
    ensures
        r is Ok <==> cmd_matches(msg@),
        r matches Ok(p) ==> p.0@ == cmd_lang(msg@) && p.1@ == cmd_code(msg@),
        r matches Err(e) ==> e is InvalidCommand,
{
    match parse_run_command(msg) {
        Some(p) => Ok(p),
        None => Err(ExecError::InvalidCommand),
    }
}

/// A sequence of identifiers in strictly increasing lexicographic order;
/// strictness also makes them pairwise distinct.
pub open spec fn sorted_strict(v: Seq<Seq<char>>) -> bool {
    forall|p: int, q: int| 0 <= p < q < v.len() ==> lex_lt(v[p], v[q])
}

/// An identifier is supported when it stands in the registry.
pub open spec fn spec_supported(pool: Seq<Seq<char>>, lang: Seq<char>) -> bool {
    pool.contains(lang)
}

/// Image resolution: defined exactly on supported identifiers, and then
/// deterministically `<identifier>_executor`.
pub open spec fn spec_resolution(pool: Seq<Seq<char>>, lang: Seq<char>) -> Option<Seq<char>> {
    if pool.contains(lang) {
        Some(lang + "_executor"@)
    } else {
        None
    }
}

/// Support and image resolution go together: every identifier in the
/// registry is supported and resolves to its `<identifier>_executor` image,
/// and a string outside the registry is unsupported and fails to resolve.
pub proof fn lemma_supported_iff_resolvable(pool: Seq<Seq<char>>, lang: Seq<char>)
    ensures
        spec_supported(pool, lang) <==> spec_resolution(pool, lang) is Some,
        spec_supported(pool, lang) ==> spec_resolution(pool, lang) == Some(lang + "_executor"@),
        !spec_supported(pool, lang) ==> spec_resolution(pool, lang) is None,
{
}

/// The immutable catalog of supported language identifiers, built once from
/// a directory scan and read concurrently without locking thereafter.
#[derive(Debug)]
pub struct LanguagePool {
    set: Vec<String>,
}

impl View for LanguagePool {
    type V = Seq<Seq<char>>;

    closed spec fn view(&self) -> Seq<Seq<char>> {
        Seq::new(self.set@.len(), |i: int| self.set@[i]@)
    }
}

impl LanguagePool {
    /// The registry's identifiers are sorted, hence pairwise distinct.
    pub open spec fn wf(&self) -> bool {
        sorted_strict(self@)
    }

    /// Place one identifier at its sorted position, keeping the set free of
    /// duplicates.
    #[verifier::loop_isolation(false)]
    fn insert_sorted(&mut self, lang: String)
        requires
            old(self).wf(),
        ensures
            final(self).wf(),
            forall|x: Seq<char>|
                final(self)@.contains(x) <==> (old(self)@.contains(x) || x == lang@),
    {
        let n = self.set.len();
        let mut idx: usize = 0;
        while idx < n && str_lt(self.set[idx].as_str(), lang.as_str())
            invariant
                idx <= n,
                forall|m: int| 0 <= m < idx ==> lex_lt(self@[m], lang@),
            decreases n - idx,
        {
            idx = idx + 1;
        }
        if idx < n && !str_lt(lang.as_str(), self.set[idx].as_str()) {
            proof {
                if lang@ != self@[idx as int] {
                    lemma_lex_lt_connected(lang@, self@[idx as int]);
                }
                assert(self@[idx as int] == lang@);
                assert(self@.contains(lang@));
            }
            return ;
        }
        proof {
            assert forall|m: int| idx <= m < n implies lex_lt(lang@, self@[m]) by {
                if m > idx {
                    lemma_lex_lt_trans(lang@, self@[idx as int], self@[m]);
                }
            }
        }
        let ghost old_view = self@;
        let ghost old_set = self.set@;
        self.set.insert(idx, lang);
        proof {
            assert forall|i: int| 0 <= i < self@.len() implies self@[i] == (if i < idx {
                old_view[i]
            } else if i == idx {
                lang@
            } else {
                old_view[i - 1]
            }) by {
                assert(self.set@ == old_set.insert(idx as int, lang));
            }
            assert forall|p: int, q: int| 0 <= p < q < self@.len() implies lex_lt(
                self@[p],
                self@[q],
            ) by {}
            assert forall|x: Seq<char>|
                self@.contains(x) <==> (old(self)@.contains(x) || x == lang@) by {
                assert(old_view == old(self)@);
                if old_view.contains(x) {
                    let m = choose|m: int| 0 <= m < old_view.len() && old_view[m] == x;
                    if m < idx {
                        assert(self@[m] == x);
                    } else {
                        assert(self@[m + 1] == x);
                    }
                }
                if x == lang@ {
                    assert(self@[idx as int] == x);
                }
                if self@.contains(x) {
                    let m = choose|m: int| 0 <= m < self@.len() && self@[m] == x;
                    if m < idx {
                        assert(old_view[m] == x);
                    } else if m > idx {
                        assert(old_view[m - 1] == x);
                    }
                }
            }
        }
    }

    /// Build the registry from the names of the language directories found
    /// under the configured root. Each direct subdirectory is one language
    /// identifier; duplicates collapse and the order of the scan is
    /// irrelevant.
    #[verifier::loop_isolation(false)]
    pub fn new(dirs: Vec<String>) -> (r: Self)
        ensures
            r.wf(),
            forall|x: Seq<char>|
                r@.contains(x) <==> (exists|i: int| 0 <= i < dirs@.len() && dirs@[i]@ == x),
    {
        let mut pool = LanguagePool { set: Vec::new() };
        assert(pool@ =~= Seq::<Seq<char>>::empty());
        let n = dirs.len();
        let mut f: usize = 0;
        while f < n
        invariant
            f <= n,
            pool.wf(),
            forall|x: Seq<char>|
                pool@.contains(x) <==> (exists|i: int| 0 <= i < f && dirs@[i]@ == x),
        decreases n - f,
        {
            pool.insert_sorted(dirs[f].clone());
            f = f + 1;
        }
        pool
    }

    /// Whether an identifier is supported, after exact lookup.
    #[verifier::loop_isolation(false)]
    pub fn lang_supported(&self, lang: &str) -> (r: bool)
        ensures
            r == spec_supported(self@, lang@),
    {
        let n = self.set.len();
        let mut idx: usize = 0;
        while idx < n
            invariant
                idx <= n,
                forall|m: int| 0 <= m < idx ==> self@[m] != lang@,
            decreases n - idx,
        {
            if str_eq(self.set[idx].as_str(), lang) {
                assert(self@[idx as int] == lang@);
                return true;
            }
            idx = idx + 1;
        }
        assert(!self@.contains(lang@));
        false
    }

    /// The supported identifiers, in lexicographic order: a deterministic
    /// listing for reproducible replies.
    #[verifier::loop_isolation(false)]
    pub fn get_supported(&self) -> (r: Vec<String>)
        ensures
            r@.len() == self@.len(),
            forall|i: int| 0 <= i < r@.len() ==> r@[i]@ == self@[i],
    {
        let mut out: Vec<String> = Vec::new();
        let n = self.set.len();
        let mut idx: usize = 0;
        while idx < n
            invariant
                idx <= n,
                out@.len() == idx,
                forall|i: int| 0 <= i < idx ==> out@[i]@ == self@[i],
            decreases n - idx,
        {
            out.push(self.set[idx].clone());
            idx = idx + 1;
        }
        out
    }

    /// Resolve an identifier and wrap the snippet for execution: succeeds
    /// exactly on supported identifiers, with the resolved image reference.
    pub fn from_code_file(&self, lang: String, code: String) -> (r: Result<Executable, ExecError>)
        ensures
            r is Ok <==> spec_supported(self@, lang@),
            r matches Ok(e) ==> Some(e@.executor) == spec_resolution(self@, lang@) && e@.code
                == code@,
            r matches Err(e) ==> e is UnsupportedLanguage,
    {
        if self.lang_supported(lang.as_str()) {
            let executor = executor_name(lang.as_str());
            Ok(Executable::new(executor, code))
        } else {
            Err(ExecError::UnsupportedLanguage)
        }
    }
}

/// The execution-image reference derived from an identifier:
/// `<identifier>_executor`.
pub fn executor_name(lang: &str) -> (r: String)
    ensures
        r@ == lang@ + "_executor"@,
{
    let mut r = lang.to_owned();
    r.append("_executor");
    r
}

/// The mathematical value of an `Executable`: its image reference and its
/// code text.
pub struct ExecutableV {
    pub executor: Seq<char>,
    pub code: Seq<char>,
}

/// A snippet bound to the execution image that will run it. Launching the
/// image and feeding the code to its standard input are the shell's I/O;
/// the captured result comes back through `ContainerResponse::from_run`.
#[derive(Debug)]
pub struct Executable {
    executor: String,
    code: String,
}

impl View for Executable {
    type V = ExecutableV;

    closed spec fn view(&self) -> ExecutableV {
        ExecutableV { executor: self.executor@, code: self.code@ }
    }
}

impl PartialEq for Executable {
    fn eq(&self, other: &Self) -> (r: bool) {
        self.executor == other.executor && self.code == other.code
    }
}

impl vstd::std_specs::cmp::PartialEqSpecImpl for Executable {
    open spec fn obeys_eq_spec() -> bool {
        true
    }

    open spec fn eq_spec(&self, other: &Self) -> bool {
        self@.executor == other@.executor && self@.code == other@.code
    }
}

impl Executable {
    pub fn new(executor: String, code: String) -> (r: Self)
        ensures
            r@.executor == executor@,
            r@.code == code@,
    {
        Self { executor, code }
    }

    /// The image reference this snippet will run in.
    pub fn get_executor(&self) -> (r: String)
        ensures
            r@ == self@.executor,
    {
        self.executor.clone()
    }

    /// The code text fed to the image's standard input.
    pub fn get_code(&self) -> (r: String)
        ensures
            r@ == self@.code,
    {
        self.code.clone()
    }
}

/// The default wall-clock deadline for one execution, in milliseconds.
pub const DEFAULT_DEADLINE_MS: u64 = 5000;

/// What one poll of the launched instance observed.
pub enum RunPoll {
    Exited,
    StillRunning,
}

/// What the engine must do after a poll.
#[derive(Debug, PartialEq, Eq, Structural)]
pub enum RunStep {
    /// The instance terminated: drain both streams and conclude.
    Conclude,
    /// The deadline fired: forcibly terminate and reap the instance,
    /// release its pipes, and return a timeout with no partial output.
    Terminate,
    /// Neither yet: keep waiting.
    KeepWaiting,
}

/// The deadline policy, decided per poll: a terminated instance is
/// concluded; a live one is terminated exactly when the wall-clock deadline
/// measured from launch has passed, and otherwise left running.
pub fn next_step(elapsed_ms: u64, deadline_ms: u64, poll: RunPoll) -> (r: RunStep)
    ensures
        poll is Exited ==> r is Conclude,
        poll is StillRunning && elapsed_ms >= deadline_ms ==> r is Terminate,
        poll is StillRunning && elapsed_ms < deadline_ms ==> r is KeepWaiting,
{
    match poll {
        RunPoll::Exited => RunStep::Conclude,
        RunPoll::StillRunning => {
            if elapsed_ms >= deadline_ms {
                RunStep::Terminate
            } else {
                RunStep::KeepWaiting
            }
        },
    }
}

/// What the engine's concurrent capture hands back once the writer and the
/// waiter are joined: whether the deadline fired, both captured streams, and
/// the measured wall-clock time in milliseconds.
pub struct RawRunOutput {
    pub timed_out: bool,
    pub stdout: Vec<u8>,
    pub stderr: Vec<u8>,
    pub elapsed_ms: u64,
}

/// The stream the output-selection policy keeps: standard error when it is
/// non-empty (it almost always signals a compile or runtime error), standard
/// output otherwise.
pub open spec fn selected_stream(out: Seq<u8>, err: Seq<u8>) -> Seq<u8> {
    if err.len() > 0 {
        err
    } else {
        out
    }
}

/// One execution's outcome: captured text with its elapsed wall-clock
/// milliseconds, or a timeout. No partial output is kept on timeout.
#[derive(Debug)]
pub enum ContainerResponse {
    Output(String, u64),
    Timeout,
}

/// Relies on `String::from_utf8`: it succeeds exactly on valid UTF-8 input
/// and returns that input's decoding.
#[verifier::external_body]
fn bytes_to_string(raw: Vec<u8>) -> (r: Option<String>)
    ensures
        r is Some <==> valid_utf8(raw@),
        r matches Some(s) ==> s@ == decode_utf8(raw@),
{
    match String::from_utf8(raw) {
        Ok(s) => Some(s),
        Err(_) => None,
    }
}

impl ContainerResponse {
    /// Decode captured output bytes as UTF-8 text; fails with
    /// `EncodingError` exactly on invalid byte sequences, never silently
    /// substituting.
    pub fn output(output_raw: Vec<u8>, execution_time_ms: u64) -> (r: Result<Self, ExecError>)
        ensures
            r is Ok <==> valid_utf8(output_raw@),
            r matches Ok(c) ==> c matches ContainerResponse::Output(t, d) && t@ == decode_utf8(
                output_raw@,
            ) && d == execution_time_ms,
            r matches Err(e) ==> e is EncodingError,
    {
        match bytes_to_string(output_raw) {
            Some(s) => Ok(ContainerResponse::Output(s, execution_time_ms)),
            None => Err(ExecError::EncodingError),
        }
    }

    /// Whether this outcome carries output (as opposed to a timeout).
    pub fn is_output(&self) -> (r: bool)
        ensures
            r == (*self is Output),
    {
        matches!(self, ContainerResponse::Output(_, _))
    }

    /// Conclude one run from the joined capture: a timeout discards all
    /// output; otherwise the selected stream is decoded as UTF-8 text.
    pub fn from_run(raw: RawRunOutput) -> (r: Result<Self, ExecError>)
        ensures
            raw.timed_out ==> r == Ok::<ContainerResponse, ExecError>(ContainerResponse::Timeout),
            !raw.timed_out ==> ((r is Ok) <==> valid_utf8(
                selected_stream(raw.stdout@, raw.stderr@),
            )),
            !raw.timed_out ==> (r matches Ok(c) ==> c matches ContainerResponse::Output(t, d) && t@
                == decode_utf8(selected_stream(raw.stdout@, raw.stderr@)) && d == raw.elapsed_ms),
            r matches Err(e) ==> e is EncodingError,
    {
        if raw.timed_out {
            return Ok(ContainerResponse::Timeout);
        }
        let selected = if raw.stderr.len() > 0 {
            raw.stderr
        } else {
            raw.stdout
        };
        ContainerResponse::output(selected, raw.elapsed_ms)
    }
}

} // verus!
