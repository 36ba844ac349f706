//! The request pipeline's staged types: a parsed command, a task resolved
//! against the catalog, and a staging environment with an exclusively owned
//! scratch path for the file-staging execution variant.

use vstd::prelude::*;

use crate::command::cmd_code;
use crate::command::cmd_lang;
use crate::command::cmd_matches;
use crate::command::parse_run_command;
use crate::errors::ExecError;
use crate::language::Language;
use crate::language::LanguageV;
use crate::language_pool::LanguagePool;
use crate::languages::executor_name;

verus! {

/// A parsed run command, not yet resolved against the catalog.
#[derive(Debug)]
pub struct RawTask {
    pub code: String,
    pub lang_str: String,
}

impl RawTask {
    /// Parse a command; fails with `InvalidCommand` exactly when the
    /// run-command grammar does not match.
    pub fn from_command(cmd: &str) -> (r: Result<Self, ExecError>)
        ensures
            r is Ok <==> cmd_matches(cmd@),
            r matches Ok(t) ==> t.lang_str@ == cmd_lang(cmd@) && t.code@ == cmd_code(cmd@),
            r matches Err(e) ==> e is InvalidCommand,
    {
        match parse_run_command(cmd) {
            Some((lang_str, code)) => Ok(Self { code, lang_str }),
            None => Err(ExecError::InvalidCommand),
        }
    }

    /// Resolve the language tag against the catalog; fails with
    /// `UnsupportedLanguage` exactly when the tag is absent.
    pub fn to_task<'a>(self, pool: &'a LanguagePool) -> (r: Result<Task<'a>, ExecError>)
        ensures
            r is Ok <==> pool.has_lang(self.lang_str@),
            r matches Ok(t) ==> t.lang@.name == self.lang_str@ && pool@.contains(t.lang@)
                && t.code@ == self.code@,
            r matches Err(e) ==> e is UnsupportedLanguage,
    {
        match pool.get(self.lang_str.as_str()) {
            Ok(lang) => Ok(Task { code: self.code, lang }),
            Err(e) => Err(e),
        }
    }
}

/// A snippet bound to its resolved catalog entry.
#[derive(Debug)]
pub struct Task<'a> {
    pub code: String,
    pub lang: &'a Language,
}

/// The scratch path for one run: `<scripts root>/<run identifier>`.
pub open spec fn scratch_path_of(root: Seq<char>, id: Seq<char>) -> Seq<char> {
    root + "/"@ + id
}

/// A character of a rendered run identifier: a lowercase hexadecimal digit
/// or the group separator.
pub open spec fn is_id_char(c: char) -> bool {
    ('0' <= c && c <= '9') || ('a' <= c && c <= 'f') || c == '-'
}

/// Relies on `uuid::Uuid::new_v4` and its hyphenated `Display` form: a
/// fresh random identifier rendered as 36 characters, all lowercase
/// hexadecimal digits or hyphens. Nothing more is assumed of the value; in
/// particular two calls may return anything, independently.
#[verifier::external_body]
fn new_run_id() -> (r: String)
    ensures
        r@.len() == 36,
        forall|i: int| 0 <= i < 36 ==> is_id_char(#[trigger] r@[i]),
{
    uuid::Uuid::new_v4().to_string()
}

/// Two runs whose identifiers differ (rendered at the same length) stage in
/// different scratch directories under the same root: concurrent runs never
/// share their per-run artifacts.
pub proof fn lemma_scratch_paths_distinct(root: Seq<char>, id1: Seq<char>, id2: Seq<char>)
    requires
        id1.len() == id2.len(),
        id1 != id2,
    ensures
        scratch_path_of(root, id1) != scratch_path_of(root, id2),
{
    let p1 = scratch_path_of(root, id1);
    let p2 = scratch_path_of(root, id2);
    if p1 == p2 {
        let base = root.len() + "/"@.len();
        assert forall|m: int| 0 <= m < id1.len() implies id1[m] == id2[m] by {
            assert(p1[base + m] == id1[m]);
            assert(p2[base + m] == id2[m]);
        }
        assert(id1 =~= id2);
    }
}

/// The mathematical value of an `Env`: its run identifier, its scratch
/// path, and its resolved catalog entry.
pub struct EnvV {
    pub uuid: Seq<char>,
    pub path: Seq<char>,
    pub lang: LanguageV,
}

/// One run's staging environment: a fresh identifier naming a scratch
/// directory owned by that run alone. Creating, filling and removing the
/// directory is the caller's I/O; the directory must be removed on every
/// exit path.
#[derive(Debug)]
pub struct Env<'a> {
    uuid: String,
    path: String,
    lang: &'a Language,
}

impl<'a> View for Env<'a> {
    type V = EnvV;

    closed spec fn view(&self) -> EnvV {
        EnvV { uuid: self.uuid@, path: self.path@, lang: self.lang@ }
    }
}

impl<'a> Env<'a> {
    /// Stage a task: draw a fresh run identifier and derive the scratch
    /// path under the given scripts root. Returns the environment together
    /// with the code text the caller must place inside the scratch
    /// directory.
    pub fn from(t: Task<'a>, scripts_path: &str) -> (r: (Env<'a>, String))
        ensures
            r.0@.lang == t.lang@,
            r.0@.uuid.len() == 36,
            forall|i: int| 0 <= i < 36 ==> is_id_char(#[trigger] r.0@.uuid[i]),
            r.0@.path == scratch_path_of(scripts_path@, r.0@.uuid),
            r.1@ == t.code@,
    {
        let uuid = new_run_id();
        let mut path = scripts_path.to_owned();
        path.append("/");
        path.append(uuid.as_str());
        assert(path@ =~= scripts_path@ + "/"@ + uuid@);
        (Env { uuid, path, lang: t.lang }, t.code)
    }

    /// The rendered run identifier.
    pub fn get_uuid(&self) -> (r: String)
        ensures
            r@ == self@.uuid,
    {
        self.uuid.clone()
    }

    /// The scratch directory this run owns.
    pub fn get_path(&self) -> (r: String)
        ensures
            r@ == self@.path,
    {
        self.path.clone()
    }

    /// The execution image this environment's language runs in:
    /// `<language name>_executor`.
    pub fn executor_image(&self) -> (r: String)
        ensures
            r@ == self@.lang.name + "_executor"@,
    {
        let name = self.lang.get_name();
        executor_name(name.as_str())
    }
}

} // verus!
