use vstd::prelude::*;
use vstd::string::StringExecFns;

verus! {

/// The commands of the line-oriented front end.
#[derive(Debug, Clone, Copy, PartialEq, Eq, Structural)]
pub enum Command {
    Help,
    Quit,
    AddSync,
    AddAsync,
    Clear,
    Remove,
    Search,
    Reset,
    History,
    Ip,
    Air,
    Unknown,
}

/// The command that the text `s` names.
pub open spec fn command_of(s: Seq<char>) -> Command {
    if s == "help"@ {
        Command::Help
    } else if s == "quit"@ || s == "exit"@ {
        Command::Quit
    } else if s == "add-sync"@ {
        Command::AddSync
    } else if s == "add-async"@ {
        Command::AddAsync
    } else if s == "clear"@ {
        Command::Clear
    } else if s == "remove"@ {
        Command::Remove
    } else if s == "search"@ {
        Command::Search
    } else if s == "reset"@ {
        Command::Reset
    } else if s == "history"@ {
        Command::History
    } else if s == "ip"@ {
        Command::Ip
    } else if s == "air"@ {
        Command::Air
    } else {
        Command::Unknown
    }
}

fn is(line: &String, word: &str) -> (r: bool)
    ensures
        r == (line@ == word@),
{
    *line == String::from_str(word)
}

/// Maps a line of input to its command; anything else is `Unknown`.
pub fn parse_command(line: &String) -> (r: Command)
    ensures
        r == command_of(line@),
{
    if is(line, "help") {
        Command::Help
    } else if is(line, "quit") || is(line, "exit") {
        Command::Quit
    } else if is(line, "add-sync") {
        Command::AddSync
    } else if is(line, "add-async") {
        Command::AddAsync
    } else if is(line, "clear") {
        Command::Clear
    } else if is(line, "remove") {
        Command::Remove
    } else if is(line, "search") {
        Command::Search
    } else if is(line, "reset") {
        Command::Reset
    } else if is(line, "history") {
        Command::History
    } else if is(line, "ip") {
        Command::Ip
    } else if is(line, "air") {
        Command::Air
    } else {
        Command::Unknown
    }
}

pub open spec fn is_digit(c: char) -> bool {
    '0' <= c && c <= '9'
}

/// The number that the decimal digits `s` write.
pub open spec fn digits_value(s: Seq<char>) -> int
    decreases s.len(),
{
    if s.len() == 0 {
        0
    } else {
        digits_value(s.drop_last()) * 10 + (s.last() as int - '0' as int)
    }
}

/// `s` is a non-empty run of decimal digits whose value fits in a `u64`.
pub open spec fn is_id_text(s: Seq<char>) -> bool {
    &&& s.len() > 0
    &&& forall|i: int| 0 <= i < s.len() ==> is_digit(#[trigger] s[i])
    &&& digits_value(s) <= u64::MAX
}

proof fn lemma_digits_grow(s: Seq<char>, k: int)
    requires
        0 <= k <= s.len(),
        forall|i: int| 0 <= i < s.len() ==> is_digit(#[trigger] s[i]),
    ensures
        digits_value(s.subrange(0, k)) <= digits_value(s),
    decreases s.len() - k,
{
    if k < s.len() {
        lemma_digits_grow(s, k + 1);
        let t = s.subrange(0, k + 1);
        assert(t.drop_last() =~= s.subrange(0, k));
        assert(is_digit(t.last()));
        assert(digits_value(t.drop_last()) >= 0) by {
            lemma_digits_nonneg(t.drop_last());
        }
    } else {
        assert(s.subrange(0, k) =~= s);
    }
}

proof fn lemma_digits_nonneg(s: Seq<char>)
    requires
        forall|i: int| 0 <= i < s.len() ==> is_digit(#[trigger] s[i]),
    ensures
        digits_value(s) >= 0,
    decreases s.len(),
{
    if s.len() > 0 {
        let t = s.drop_last();
        assert(forall|i: int| 0 <= i < t.len() ==> t[i] == s[i]);
        lemma_digits_nonneg(t);
        assert(is_digit(s[s.len() - 1]));
    }
}

/// Reads a contact id written in decimal; `None` when `s` is empty, holds
/// anything but digits, or names a number beyond `u64`.
pub fn parse_id(s: &str) -> (r: Option<u64>)
    ensures
        r is Some <==> is_id_text(s@),
        r matches Some(v) ==> v as int == digits_value(s@),
{
    let n = s.unicode_len();
    if n == 0 {
        return None;
    }
    let mut acc: u64 = 0;
    let mut i: usize = 0;
    while i < n
        invariant
            n == s@.len(),
            i <= n,
            forall|k: int| 0 <= k < i ==> is_digit(#[trigger] s@[k]),
            acc as int == digits_value(s@.subrange(0, i as int)),
        decreases n - i,
    {
        let c = s.get_char(i);
        let ghost t = s@.subrange(0, i + 1);
        proof {
            assert(t.drop_last() =~= s@.subrange(0, i as int));
        }
        if !('0' <= c && c <= '9') {
            return None;
        }
        let d: u64 = (c as u32 - '0' as u32) as u64;
        if acc > (u64::MAX - d) / 10 {
            proof {
                assert(forall|k: int| 0 <= k < i + 1 ==> is_digit(#[trigger] t[k]));
                assert(digits_value(t) > u64::MAX);
                if forall|k: int| 0 <= k < s@.len() ==> is_digit(#[trigger] s@[k]) {
                    lemma_digits_grow(s@, i + 1);
                }
            }
            return None;
        }
        acc = acc * 10 + d;
        i += 1;
    }
    proof {
        assert(s@.subrange(0, n as int) =~= s@);
    }
    Some(acc)
}

} // verus!
