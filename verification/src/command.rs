//! The run-command grammar and its verified parser.
//!
//! A command is: the prefix `~run`, any number of spaces, a fenced code block
//! opener of three backticks tagged with a (possibly empty) lowercase language
//! identifier, a newline, the code text, and a closing newline followed by
//! three backticks. The code text is maximal: it extends to the last closing
//! fence in the input, and anything after that fence is ignored.

use vstd::prelude::*;

verus! {

/// A lowercase ASCII letter, the only characters allowed in a language tag.
pub open spec fn is_lower_char(c: char) -> bool {
    'a' <= c && c <= 'z'
}

/// The first index at or after `i` that does not hold a space.
pub open spec fn spaces_end(s: Seq<char>, i: int) -> int
    decreases s.len() - i
        when 0 <= i <= s.len()
{
    if i < s.len() && s[i] == ' ' {
        spaces_end(s, i + 1)
    } else {
        i
    }
}

/// The first index at or after `i` that does not hold a lowercase letter.
pub open spec fn lower_end(s: Seq<char>, i: int) -> int
    decreases s.len() - i
        when 0 <= i <= s.len()
{
    if i < s.len() && is_lower_char(s[i]) {
        lower_end(s, i + 1)
    } else {
        i
    }
}

/// A closing fence (a newline followed by three backticks) starts at `k`.
pub open spec fn close_at(s: Seq<char>, k: int) -> bool {
    &&& 0 <= k
    &&& k + 4 <= s.len()
    &&& s[k] == '\n'
    &&& s[k + 1] == '`'
    &&& s[k + 2] == '`'
    &&& s[k + 3] == '`'
}

/// The largest index at most `k` where a closing fence starts, or -1 if none.
pub open spec fn last_close_from(s: Seq<char>, k: int) -> int
    decreases k + 1
        when k >= -1
{
    if k < 0 {
        -1
    } else if close_at(s, k) {
        k
    } else {
        last_close_from(s, k - 1)
    }
}

/// Where the opening fence starts: after `~run` and the run of spaces.
pub open spec fn fence_start(s: Seq<char>) -> int {
    spaces_end(s, 4)
}

/// Where the language tag ends: the maximal run of lowercase letters after
/// the opening fence.
pub open spec fn lang_end(s: Seq<char>) -> int {
    lower_end(s, fence_start(s) + 3)
}

/// Where the code text ends: the last closing fence of the whole input.
pub open spec fn code_end(s: Seq<char>) -> int {
    last_close_from(s, s.len() - 4)
}

/// The whole run-command grammar: `~run`, spaces, an opening fence with a
/// lowercase tag, a newline, code text, and a closing fence somewhere after.
pub open spec fn cmd_matches(s: Seq<char>) -> bool {
    &&& s.len() >= 4
    &&& s[0] == '~' && s[1] == 'r' && s[2] == 'u' && s[3] == 'n'
    &&& fence_start(s) + 3 <= s.len()
    &&& s[fence_start(s)] == '`' && s[fence_start(s) + 1] == '`' && s[fence_start(s) + 2] == '`'
    &&& lang_end(s) < s.len()
    &&& s[lang_end(s)] == '\n'
    &&& code_end(s) >= lang_end(s) + 1
}

/// The language tag of a matching command.
pub open spec fn cmd_lang(s: Seq<char>) -> Seq<char> {
    s.subrange(fence_start(s) + 3, lang_end(s))
}

/// The code text of a matching command: everything between the tag's newline
/// and the last closing fence.
pub open spec fn cmd_code(s: Seq<char>) -> Seq<char> {
    s.subrange(lang_end(s) + 1, code_end(s))
}

proof fn lemma_last_close_le(s: Seq<char>, k: int)
    requires
        k >= -1,
    ensures
        last_close_from(s, k) <= k,
    decreases k + 1,
{
    if k >= 0 && !close_at(s, k) {
        lemma_last_close_le(s, k - 1);
    }
}

pub(crate) fn is_lower(c: char) -> (r: bool)
    ensures
        r == is_lower_char(c),
{
    'a' <= c && c <= 'z'
}

/// Parse a command string against the run-command grammar. Returns the
/// language tag and the code text exactly when the grammar matches.
#[verifier::loop_isolation(false)]
pub fn parse_run_command(cmd: &str) -> (r: Option<(String, String)>)
    ensures
        r is Some <==> cmd_matches(cmd@),
        r matches Some(p) ==> p.0@ == cmd_lang(cmd@) && p.1@ == cmd_code(cmd@),
{
    let ghost s = cmd@;
    let n = cmd.unicode_len();
    if n < 4 {
        return None;
    }
    if !(cmd.get_char(0) == '~' && cmd.get_char(1) == 'r' && cmd.get_char(2) == 'u'
        && cmd.get_char(3) == 'n') {
        return None;
    }
    let mut i: usize = 4;
    while i < n && cmd.get_char(i) == ' '
        invariant
            4 <= i <= n,
            spaces_end(s, 4) == spaces_end(s, i as int),
        decreases n - i,
    {
        assert(spaces_end(s, i as int) == spaces_end(s, i as int + 1));
        i = i + 1;
    }
    assert(spaces_end(s, i as int) == i as int);
    assert(fence_start(s) == i as int);
    if n - i < 3 {
        return None;
    }
    if !(cmd.get_char(i) == '`' && cmd.get_char(i + 1) == '`' && cmd.get_char(i + 2) == '`') {
        return None;
    }
    let mut j: usize = i + 3;
    while j < n && is_lower(cmd.get_char(j))
        invariant
            i + 3 <= j <= n,
            lower_end(s, i as int + 3) == lower_end(s, j as int),
        decreases n - j,
    {
        assert(lower_end(s, j as int) == lower_end(s, j as int + 1));
        j = j + 1;
    }
    assert(lower_end(s, j as int) == j as int);
    assert(lang_end(s) == j as int);
    if j >= n {
        return None;
    }
    if cmd.get_char(j) != '\n' {
        return None;
    }
    if n - 4 <= j {
        proof {
            lemma_last_close_le(s, s.len() - 4);
        }
        return None;
    }
    let mut k: usize = n - 4;
    loop
        invariant
            j + 1 <= k <= n - 4,
            last_close_from(s, s.len() - 4) == last_close_from(s, k as int),
        decreases k,
    {
        if cmd.get_char(k) == '\n' && cmd.get_char(k + 1) == '`' && cmd.get_char(k + 2) == '`'
            && cmd.get_char(k + 3) == '`' {
            assert(close_at(s, k as int));
            assert(code_end(s) == k as int);
            let lang = cmd.substring_char(i + 3, j).to_owned();
            let code = cmd.substring_char(j + 1, k).to_owned();
            return Some((lang, code));
        }
        assert(!close_at(s, k as int));
        assert(last_close_from(s, k as int) == last_close_from(s, k as int - 1));
        if k == j + 1 {
            proof {
                lemma_last_close_le(s, k as int - 1);
            }
            return None;
        }
        k = k - 1;
    }
}

} // verus!
