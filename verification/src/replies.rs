//! The verified compute behind the service's replies: assembling reply
//! bodies from captured values. Sending them anywhere is the shell's I/O.

use vstd::prelude::*;

verus! {

/// `items` joined with `sep` between consecutive elements.
pub open spec fn joined_with(sep: Seq<char>, items: Seq<Seq<char>>) -> Seq<char>
    decreases items.len(),
{
    if items.len() == 0 {
        Seq::empty()
    } else if items.len() == 1 {
        items[0]
    } else {
        items[0] + sep + joined_with(sep, items.drop_first())
    }
}

proof fn lemma_joined_with_push(sep: Seq<char>, items: Seq<Seq<char>>, last: Seq<char>)
    ensures
        items.len() == 0 ==> joined_with(sep, items.push(last)) == last,
        items.len() > 0 ==> joined_with(sep, items.push(last)) =~= joined_with(sep, items) + sep
            + last,
    decreases items.len(),
{
    let pushed = items.push(last);
    if items.len() == 0 {
        assert(pushed.len() == 1);
        assert(pushed[0] == last);
    } else if items.len() == 1 {
        assert(pushed.len() == 2);
        assert(pushed[0] == items[0]);
        assert(pushed.drop_first() =~= seq![last]);
        assert(joined_with(sep, pushed) == pushed[0] + sep + joined_with(sep, pushed.drop_first()));
        assert(joined_with(sep, seq![last]) == last);
        assert(joined_with(sep, items) == items[0]);
    } else {
        assert(pushed.len() > 1);
        assert(pushed[0] == items[0]);
        assert(pushed.drop_first() =~= items.drop_first().push(last));
        assert(joined_with(sep, pushed) == pushed[0] + sep + joined_with(sep, pushed.drop_first()));
        lemma_joined_with_push(sep, items.drop_first(), last);
        let tail = joined_with(sep, items.drop_first());
        assert(joined_with(sep, pushed.drop_first()) == tail + sep + last);
        assert(joined_with(sep, items) == items[0] + sep + tail);
        assert(items[0] + sep + (tail + sep + last) =~= (items[0] + sep + tail) + sep + last);
    }
}

/// The body of the supported-languages reply: a bullet before the first
/// identifier and one between each pair, exactly as the listing is shown.
#[verifier::loop_isolation(false)]
pub fn language_list(languages: &Vec<String>) -> (r: String)
    ensures
        r@ == " • "@ + joined_with("\n • "@, languages.deep_view()),
{
    let ghost items = languages.deep_view();
    let mut r: String = " • ".to_owned();
    let n = languages.len();
    assert(items.len() == n);
    let mut idx: usize = 0;
    while idx < n
        invariant
            idx <= n,
            r@ == " • "@ + joined_with("\n • "@, items.subrange(0, idx as int)),
        decreases n - idx,
    {
        proof {
            assert(items.subrange(0, idx as int).push(items[idx as int]) =~= items.subrange(
                0,
                idx as int + 1,
            ));
            lemma_joined_with_push("\n • "@, items.subrange(0, idx as int), items[idx as int]);
        }
        if idx > 0 {
            r.append("\n • ");
        }
        assert(languages@[idx as int]@ == items[idx as int]);
        r.append(languages[idx].as_str());
        idx = idx + 1;
    }
    assert(items.subrange(0, n as int) =~= items);
    r
}

/// The captured text fenced as a code block for display.
pub fn code_block(text: &str) -> (r: String)
    ensures
        r@ == "```"@ + text@ + "```"@,
{
    let mut r: String = "```".to_owned();
    r.append(text);
    r.append("```");
    assert(r@ =~= "```"@ + text@ + "```"@);
    r
}

/// The decimal digit character for a value below ten.
pub open spec fn dec_digit(d: int) -> char {
    if d == 0 {
        '0'
    } else if d == 1 {
        '1'
    } else if d == 2 {
        '2'
    } else if d == 3 {
        '3'
    } else if d == 4 {
        '4'
    } else if d == 5 {
        '5'
    } else if d == 6 {
        '6'
    } else if d == 7 {
        '7'
    } else if d == 8 {
        '8'
    } else {
        '9'
    }
}

/// The decimal rendering of a number, most significant digit first, with
/// no leading zeros (zero itself is "0").
pub open spec fn dec_str(n: nat) -> Seq<char>
    decreases n,
{
    if n < 10 {
        seq![dec_digit(n as int)]
    } else {
        dec_str(n / 10) + seq![dec_digit((n % 10) as int)]
    }
}

fn dec_digit_str(d: u64) -> (r: &'static str)
    requires
        d < 10,
    ensures
        r@ =~= seq![dec_digit(d as int)],
{
    proof {
        reveal_strlit("0");
        reveal_strlit("1");
        reveal_strlit("2");
        reveal_strlit("3");
        reveal_strlit("4");
        reveal_strlit("5");
        reveal_strlit("6");
        reveal_strlit("7");
        reveal_strlit("8");
        reveal_strlit("9");
    }
    if d == 0 {
        "0"
    } else if d == 1 {
        "1"
    } else if d == 2 {
        "2"
    } else if d == 3 {
        "3"
    } else if d == 4 {
        "4"
    } else if d == 5 {
        "5"
    } else if d == 6 {
        "6"
    } else if d == 7 {
        "7"
    } else if d == 8 {
        "8"
    } else {
        "9"
    }
}

/// Render a number in decimal.
#[verifier::loop_isolation(false)]
pub fn u64_to_string(n: u64) -> (r: String)
    ensures
        r@ == dec_str(n as nat),
{
    if n == 0 {
        proof {
            reveal_strlit("0");
            assert("0"@ =~= seq![dec_digit(0)]);
        }
        return "0".to_owned();
    }
    let mut acc = String::new();
    let mut m = n;
    proof {
        assert(dec_str(n as nat) =~= dec_str(n as nat) + Seq::<char>::empty());
    }
    while m > 0
        invariant
            m > 0 ==> dec_str(n as nat) == dec_str(m as nat) + acc@,
            m == 0 ==> dec_str(n as nat) == acc@,
        decreases m,
    {
        let ghost prev_acc = acc@;
        let d = m % 10;
        let mut step = dec_digit_str(d).to_owned();
        step.append(acc.as_str());
        acc = step;
        proof {
            if m >= 10 {
                assert(dec_str(m as nat) == dec_str((m / 10) as nat) + seq![
                    dec_digit((m % 10) as int),
                ]);
                assert(dec_str((m / 10) as nat) + (seq![dec_digit(d as int)] + prev_acc) =~= (
                dec_str((m / 10) as nat) + seq![dec_digit(d as int)]) + prev_acc);
            } else {
                assert(dec_str(m as nat) == seq![dec_digit(m as int)]);
                assert(seq![dec_digit(d as int)] + prev_acc =~= dec_str(m as nat) + prev_acc);
            }
        }
        m = m / 10;
    }
    acc
}

/// The execution-time label shown beside a run's output: the elapsed
/// milliseconds rendered in decimal, followed by `ms`.
pub fn ms_label(ms: u64) -> (r: String)
    ensures
        r@ == dec_str(ms as nat) + "ms"@,
{
    let mut r = u64_to_string(ms);
    r.append("ms");
    r
}

} // verus!
