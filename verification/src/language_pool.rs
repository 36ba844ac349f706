//! A name-keyed catalog of languages, built from the per-language files
//! found under the configured directory: each file's name is the language's
//! name, and its contents give the source-file extension and the launch text.

use vstd::prelude::*;

use crate::command::is_lower;
use crate::command::lower_end;
use crate::errors::ExecError;
use crate::language::Language;
use crate::language::LanguageV;
use crate::strings::str_eq;

verus! {

/// The language-file grammar: a line of lowercase letters (the source-file
/// extension), a newline, and the launch text (everything to the end).
pub open spec fn file_matches(s: Seq<char>) -> bool {
    &&& lower_end(s, 0) < s.len()
    &&& s[lower_end(s, 0)] == '\n'
}

/// The extension line of a matching file: its leading lowercase run.
pub open spec fn file_extension(s: Seq<char>) -> Seq<char> {
    s.subrange(0, lower_end(s, 0))
}

/// The launch text of a matching file: everything after the first newline.
pub open spec fn file_launch(s: Seq<char>) -> Seq<char> {
    s.subrange(lower_end(s, 0) + 1, s.len() as int)
}

/// Some entry of `v` carries the name `x`.
pub open spec fn name_in(v: Seq<LanguageV>, x: Seq<char>) -> bool {
    exists|q: int| 0 <= q < v.len() && (#[trigger] v[q]).name == x
}

/// Entry names are pairwise distinct.
pub open spec fn names_unique(v: Seq<LanguageV>) -> bool {
    forall|p: int, q: int|
        0 <= p < q < v.len() ==> (#[trigger] v[p]).name != (#[trigger] v[q]).name
}

/// Entry `e` is the parse of one of the first `bound` files.
pub open spec fn entry_from(files: Seq<(String, String)>, bound: int, e: LanguageV) -> bool {
    exists|i: int|
        0 <= i < bound && (#[trigger] files[i]).0@ == e.name && file_matches(files[i].1@)
            && e.extension == file_extension(files[i].1@) && e.launch == file_launch(files[i].1@)
}

/// The name `x` belongs to one of the first `bound` files that match the
/// grammar.
pub open spec fn matching_name(files: Seq<(String, String)>, bound: int, x: Seq<char>) -> bool {
    exists|i: int|
        0 <= i < bound && (#[trigger] files[i]).0@ == x && file_matches(files[i].1@)
}

proof fn lemma_entry_from_mono(files: Seq<(String, String)>, b1: int, b2: int, e: LanguageV)
    requires
        b1 <= b2,
        entry_from(files, b1, e),
    ensures
        entry_from(files, b2, e),
{
    let i = choose|i: int|
        0 <= i < b1 && (#[trigger] files[i]).0@ == e.name && file_matches(files[i].1@)
            && e.extension == file_extension(files[i].1@) && e.launch == file_launch(files[i].1@);
    assert(0 <= i < b2 && files[i].0@ == e.name && file_matches(files[i].1@));
}

/// Parse one language file. The entry's name is the file's name; the
/// contents supply the extension and the launch text. Fails exactly when
/// the contents do not match the language-file grammar.
#[verifier::loop_isolation(false)]
pub fn parse_lang_file(name: String, contents: &str) -> (r: Result<Language, ExecError>)
    ensures
        r is Ok <==> file_matches(contents@),
        r matches Ok(l) ==> l@.name == name@ && l@.extension == file_extension(contents@)
            && l@.launch == file_launch(contents@),
        r matches Err(e) ==> e is InvalidCommand,
{
    let ghost s = contents@;
    let n = contents.unicode_len();
    let mut j: usize = 0;
    while j < n && is_lower(contents.get_char(j))
        invariant
            j <= n,
            lower_end(s, 0) == lower_end(s, j as int),
        decreases n - j,
    {
        assert(lower_end(s, j as int) == lower_end(s, j as int + 1));
        j = j + 1;
    }
    assert(lower_end(s, j as int) == j as int);
    if j < n && contents.get_char(j) == '\n' {
        let extension = contents.substring_char(0, j).to_owned();
        let launch = contents.substring_char(j + 1, n).to_owned();
        Ok(Language::new(name, extension, launch))
    } else {
        Err(ExecError::InvalidCommand)
    }
}

/// The catalog: one entry per language, keyed by its unique name.
#[derive(Debug)]
pub struct LanguagePool {
    pool: Vec<Language>,
}

impl View for LanguagePool {
    type V = Seq<LanguageV>;

    closed spec fn view(&self) -> Seq<LanguageV> {
        Seq::new(self.pool@.len(), |i: int| self.pool@[i]@)
    }
}

impl LanguagePool {
    /// Entry names are pairwise distinct.
    pub open spec fn wf(&self) -> bool {
        names_unique(self@)
    }

    /// Whether some entry carries this name.
    pub open spec fn has_lang(&self, name: Seq<char>) -> bool {
        name_in(self@, name)
    }

    /// Whether an entry with this name is already present.
    #[verifier::loop_isolation(false)]
    fn contains_name(&self, name: &str) -> (r: bool)
        ensures
            r == name_in(self@, name@),
    {
        let n = self.pool.len();
        let mut idx: usize = 0;
        while idx < n
            invariant
                idx <= n,
                forall|m: int| 0 <= m < idx ==> (#[trigger] self@[m]).name != name@,
            decreases n - idx,
        {
            let entry_name = self.pool[idx].get_name();
            if str_eq(entry_name.as_str(), name) {
                assert(self@[idx as int].name == name@);
                return true;
            }
            idx = idx + 1;
        }
        false
    }

    /// Build the catalog from the language files: each pair is one file's
    /// name and contents. A file that does not match the grammar is skipped
    /// — one bad entry must not abort the scan for the others — and a
    /// repeated name keeps its first matching file.
    #[verifier::loop_isolation(false)]
    pub fn new(files: Vec<(String, String)>) -> (r: Self)
        ensures
            r.wf(),
            forall|x: Seq<char>| r.has_lang(x) <==> matching_name(files@, files@.len() as int, x),
            forall|q: int|
                0 <= q < r@.len() ==> entry_from(files@, files@.len() as int, #[trigger] r@[q]),
    {
        let mut out = LanguagePool { pool: Vec::new() };
        assert(out@ =~= Seq::<LanguageV>::empty());
        let n = files.len();
        let mut f: usize = 0;
        while f < n
            invariant
                f <= n,
                names_unique(out@),
                forall|x: Seq<char>| name_in(out@, x) <==> matching_name(files@, f as int, x),
                forall|q: int| 0 <= q < out@.len() ==> entry_from(files@, f as int, #[trigger] out@[q]),
            decreases n - f,
        {
            let ghost file_name = files@[f as int].0@;
            let ghost file_contents = files@[f as int].1@;
            let name = files[f].0.clone();
            let contents = files[f].1.as_str();
            match parse_lang_file(name, contents) {
                Ok(lang) => {
                    assert(lang@.name == file_name);
                    assert(file_matches(file_contents));
                    let lang_name = lang.get_name();
                    if !out.contains_name(lang_name.as_str()) {
                        let ghost old_view = out@;
                        out.pool.push(lang);
                        proof {
                            assert(out@ =~= old_view.push(lang@));
                            assert(names_unique(out@)) by {
                                assert forall|p: int, q: int|
                                    0 <= p < q < out@.len() implies (#[trigger] out@[p]).name != (
                                #[trigger] out@[q]).name by {
                                    if q == old_view.len() {
                                        assert(out@[q] == lang@);
                                        assert(out@[p] == old_view[p]);
                                        if out@[p].name == lang@.name {
                                            assert(name_in(old_view, lang@.name));
                                        }
                                    }
                                }
                            }
                            assert forall|x: Seq<char>|
                                name_in(out@, x) <==> matching_name(files@, f + 1, x) by {
                                if name_in(out@, x) {
                                    let q = choose|q: int|
                                        0 <= q < out@.len() && (#[trigger] out@[q]).name == x;
                                    if q < old_view.len() {
                                        assert(old_view[q].name == x);
                                        assert(name_in(old_view, x));
                                        assert(matching_name(files@, f as int, x));
                                        let i = choose|i: int|
                                            0 <= i < f && (#[trigger] files@[i]).0@ == x
                                                && file_matches(files@[i].1@);
                                        assert(0 <= i < f + 1 && files@[i].0@ == x);
                                    } else {
                                        assert(out@[q] == lang@);
                                        assert(0 <= f < f + 1 && files@[f as int].0@ == x
                                            && file_matches(files@[f as int].1@));
                                    }
                                }
                                if matching_name(files@, f + 1, x) {
                                    let i = choose|i: int|
                                        0 <= i < f + 1 && (#[trigger] files@[i]).0@ == x
                                            && file_matches(files@[i].1@);
                                    if i < f {
                                        assert(matching_name(files@, f as int, x));
                                        assert(name_in(old_view, x));
                                        let q = choose|q: int|
                                            0 <= q < old_view.len() && (#[trigger] old_view[q]).name
                                                == x;
                                        assert(out@[q].name == x);
                                        assert(name_in(out@, x));
                                    } else {
                                        assert(out@[old_view.len() as int] == lang@);
                                        assert(name_in(out@, x));
                                    }
                                }
                            }
                            assert forall|q: int|
                                0 <= q < out@.len() implies entry_from(
                                files@,
                                f + 1,
                                #[trigger] out@[q],
                            ) by {
                                if q < old_view.len() {
                                    assert(out@[q] == old_view[q]);
                                    assert(entry_from(files@, f as int, old_view[q]));
                                    lemma_entry_from_mono(files@, f as int, f + 1, old_view[q]);
                                } else {
                                    assert(out@[q] == lang@);
                                    assert(0 <= f < f + 1 && files@[f as int].0@ == lang@.name
                                        && file_matches(files@[f as int].1@) && lang@.extension
                                        == file_extension(files@[f as int].1@) && lang@.launch
                                        == file_launch(files@[f as int].1@));
                                }
                            }
                        }
                    } else {
                        proof {
                            assert(name_in(out@, lang@.name));
                            assert forall|x: Seq<char>|
                                name_in(out@, x) <==> matching_name(files@, f + 1, x) by {
                                if name_in(out@, x) {
                                    assert(matching_name(files@, f as int, x));
                                    let i = choose|i: int|
                                        0 <= i < f && (#[trigger] files@[i]).0@ == x
                                            && file_matches(files@[i].1@);
                                    assert(0 <= i < f + 1 && files@[i].0@ == x);
                                }
                                if matching_name(files@, f + 1, x) {
                                    let i = choose|i: int|
                                        0 <= i < f + 1 && (#[trigger] files@[i]).0@ == x
                                            && file_matches(files@[i].1@);
                                    if i < f {
                                        assert(matching_name(files@, f as int, x));
                                    } else {
                                        assert(x == lang@.name);
                                    }
                                }
                            }
                            assert forall|q: int|
                                0 <= q < out@.len() implies entry_from(
                                files@,
                                f + 1,
                                #[trigger] out@[q],
                            ) by {
                                lemma_entry_from_mono(files@, f as int, f + 1, out@[q]);
                            }
                        }
                    }
                },
                Err(_) => {
                    proof {
                        assert(!file_matches(file_contents));
                        assert forall|x: Seq<char>|
                            name_in(out@, x) <==> matching_name(files@, f + 1, x) by {
                            if name_in(out@, x) {
                                assert(matching_name(files@, f as int, x));
                                let i = choose|i: int|
                                    0 <= i < f && (#[trigger] files@[i]).0@ == x && file_matches(
                                        files@[i].1@,
                                    );
                                assert(0 <= i < f + 1 && files@[i].0@ == x);
                            }
                            if matching_name(files@, f + 1, x) {
                                let i = choose|i: int|
                                    0 <= i < f + 1 && (#[trigger] files@[i]).0@ == x
                                        && file_matches(files@[i].1@);
                                assert(i < f);
                                assert(matching_name(files@, f as int, x));
                            }
                        }
                        assert forall|q: int|
                            0 <= q < out@.len() implies entry_from(
                            files@,
                            f + 1,
                            #[trigger] out@[q],
                        ) by {
                            lemma_entry_from_mono(files@, f as int, f + 1, out@[q]);
                        }
                    }
                },
            }
            f = f + 1;
        }
        out
    }

    /// Look a name up; fails with `UnsupportedLanguage` exactly when no
    /// entry carries it.
    #[verifier::loop_isolation(false)]
    pub fn get(&self, key: &str) -> (r: Result<&Language, ExecError>)
        ensures
            r is Ok <==> self.has_lang(key@),
            r matches Ok(l) ==> l@.name == key@ && self@.contains(l@),
            r matches Err(e) ==> e is UnsupportedLanguage,
    {
        let n = self.pool.len();
        let mut idx: usize = 0;
        while idx < n
            invariant
                idx <= n,
                forall|m: int| 0 <= m < idx ==> (#[trigger] self@[m]).name != key@,
            decreases n - idx,
        {
            let entry_name = self.pool[idx].get_name();
            if str_eq(entry_name.as_str(), key) {
                assert(self@[idx as int].name == key@);
                return Ok(&self.pool[idx]);
            }
            idx = idx + 1;
        }
        Err(ExecError::UnsupportedLanguage)
    }
}

} // verus!
