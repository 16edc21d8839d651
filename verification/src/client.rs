//! What the command-line client decides: which server and channel are active,
//! how an input line splits into a command and its argument, and how numbers
//! in arguments are read.
use vstd::prelude::*;

verus! {

// ---------------------------------------------------------------------------
// Active server and channel
// ---------------------------------------------------------------------------

/// The client's selection. An id of 0 means that nothing is selected.
pub struct ClientState {
    pub server_id: u64,
    pub channel_id: u64,
}

/// A stored id read as a selection: 0 is none.
pub open spec fn selected(id: u64) -> Option<u64> {
    if id == 0 {
        None
    } else {
        Some(id)
    }
}

impl ClientState {
    /// Nothing selected.
    pub fn new() -> (r: Self)
        ensures
            r.server_id == 0,
            r.channel_id == 0,
    {
        ClientState { server_id: 0, channel_id: 0 }
    }

    pub fn current_server(&self) -> (r: Option<u64>)
        ensures
            r == selected(self.server_id),
    {
        let v = self.server_id;
        if v == 0 {
            None
        } else {
            Some(v)
        }
    }

    pub fn current_channel(&self) -> (r: Option<u64>)
        ensures
            r == selected(self.channel_id),
    {
        let v = self.channel_id;
        if v == 0 {
            None
        } else {
            Some(v)
        }
    }

    /// Makes a server active; no channel is active afterwards.
    pub fn select_server(&mut self, server_id: u64)
        ensures
            final(self).server_id == server_id,
            final(self).channel_id == 0,
    {
        self.server_id = server_id;
        self.channel_id = 0;
    }

    /// Makes a channel active; the active server stays.
    pub fn select_channel(&mut self, channel_id: u64)
        ensures
            final(self).server_id == old(self).server_id,
            final(self).channel_id == channel_id,
    {
        self.channel_id = channel_id;
    }
}

// ---------------------------------------------------------------------------
// Splitting and trimming
// ---------------------------------------------------------------------------

/// Unicode White_Space, the characters `char::is_whitespace` accepts.
pub open spec fn is_ws(c: char) -> bool {
    ||| c == ' '
    ||| c == '\t'
    ||| c == '\n'
    ||| c == '\x0B'
    ||| c == '\x0C'
    ||| c == '\r'
    ||| c == '\u{85}'
    ||| c == '\u{A0}'
    ||| c == '\u{1680}'
    ||| ('\u{2000}' as u32 <= c as u32 && c as u32 <= '\u{200A}' as u32)
    ||| c == '\u{2028}'
    ||| c == '\u{2029}'
    ||| c == '\u{202F}'
    ||| c == '\u{205F}'
    ||| c == '\u{3000}'
}

pub fn is_whitespace_char(c: char) -> (r: bool)
    ensures
        r == is_ws(c),
{
    c == ' ' || c == '\t' || c == '\n' || c == '\x0B' || c == '\x0C' || c == '\r' || c == '\u{85}'
        || c == '\u{A0}' || c == '\u{1680}' || ('\u{2000}' as u32 <= c as u32 && c as u32
        <= '\u{200A}' as u32) || c == '\u{2028}' || c == '\u{2029}' || c == '\u{202F}' || c
        == '\u{205F}' || c == '\u{3000}'
}

/// The number of leading whitespace characters.
pub open spec fn leading_ws(s: Seq<char>) -> nat
    decreases s.len(),
{
    if s.len() > 0 && is_ws(s[0]) {
        1 + leading_ws(s.drop_first())
    } else {
        0
    }
}

/// The number of trailing whitespace characters.
pub open spec fn trailing_ws(s: Seq<char>) -> nat
    decreases s.len(),
{
    if s.len() > 0 && is_ws(s.last()) {
        1 + trailing_ws(s.drop_last())
    } else {
        0
    }
}

/// `s` without leading and trailing whitespace, as `str::trim` gives it.
pub open spec fn trimmed(s: Seq<char>) -> Seq<char> {
    let front = s.skip(leading_ws(s) as int);
    front.take(front.len() - trailing_ws(front))
}

proof fn lemma_leading_ws_step(s: Seq<char>, i: int)
    requires
        0 <= i < s.len(),
        forall|j: int| 0 <= j < i ==> is_ws(#[trigger] s[j]),
        is_ws(s[i]),
    ensures
        leading_ws(s) == leading_ws(s.skip(i + 1)) + i + 1,
    decreases i,
{
    if i > 0 {
        let d = s.drop_first();
        assert forall|j: int| 0 <= j < i - 1 implies is_ws(#[trigger] d[j]) by {
            assert(d[j] == s[j + 1]);
        }
        lemma_leading_ws_step(d, i - 1);
        assert(d.skip(i) =~= s.skip(i + 1));
    } else {
        assert(s.drop_first() =~= s.skip(1));
    }
}

proof fn lemma_leading_ws_stop(s: Seq<char>, i: int)
    requires
        0 <= i <= s.len(),
        forall|j: int| 0 <= j < i ==> is_ws(#[trigger] s[j]),
        i == s.len() || !is_ws(s[i]),
    ensures
        leading_ws(s) == i,
    decreases i,
{
    if i > 0 {
        let d = s.drop_first();
        assert forall|j: int| 0 <= j < i - 1 implies is_ws(#[trigger] d[j]) by {
            assert(d[j] == s[j + 1]);
        }
        if i < s.len() {
            assert(d[i - 1] == s[i]);
        }
        lemma_leading_ws_stop(d, i - 1);
    }
}

proof fn lemma_trailing_ws_stop(s: Seq<char>, k: int)
    requires
        0 <= k <= s.len(),
        forall|j: int| s.len() - k <= j < s.len() ==> is_ws(#[trigger] s[j]),
        k == s.len() || !is_ws(s[s.len() - k - 1]),
    ensures
        trailing_ws(s) == k,
    decreases k,
{
    if k > 0 {
        let d = s.drop_last();
        assert forall|j: int| d.len() - (k - 1) <= j < d.len() implies is_ws(#[trigger] d[j]) by {
            assert(d[j] == s[j]);
        }
        if k < s.len() {
            assert(d[d.len() - (k - 1) - 1] == s[s.len() - k - 1]);
        }
        lemma_trailing_ws_stop(d, k - 1);
    }
}

/// `s` without leading and trailing whitespace.
pub fn trim_ws(s: &str) -> (r: String)
    ensures
        r@ == trimmed(s@),
{
    let n = s.unicode_len();
    let mut start: usize = 0;
    while start < n && is_whitespace_char(s.get_char(start))
        invariant
            n == s@.len(),
            start <= n,
            forall|j: int| 0 <= j < start ==> is_ws(#[trigger] s@[j]),
        decreases n - start,
    {
        start = start + 1;
    }
    proof {
        lemma_leading_ws_stop(s@, start as int);
    }
    let ghost front = s@.skip(start as int);
    let mut end: usize = n;
    while end > start && is_whitespace_char(s.get_char(end - 1))
        invariant
            n == s@.len(),
            start <= end <= n,
            front == s@.skip(start as int),
            forall|j: int| end <= j < n ==> is_ws(#[trigger] s@[j]),
        decreases end - start,
    {
        end = end - 1;
    }
    proof {
        let k = (n - end) as int;
        assert forall|j: int| front.len() - k <= j < front.len() implies is_ws(#[trigger] front[j]) by {
            assert(front[j] == s@[j + start]);
        }
        if k < front.len() {
            assert(front[front.len() - k - 1] == s@[end - 1]);
        }
        lemma_trailing_ws_stop(front, k);
        assert(front.take(front.len() - k) =~= s@.subrange(start as int, end as int));
    }
    String::from_str(s.substring_char(start, end))
}

/// The text before the first `sep`, and the text after it when `sep` occurs,
/// as `splitn(2, sep)` gives them.
pub open spec fn split_first(s: Seq<char>, sep: char) -> (Seq<char>, Option<Seq<char>>) {
    if exists|i: int| 0 <= i < s.len() && s[i] == sep {
        let i = choose|i: int| 0 <= i < s.len() && s[i] == sep && forall|j: int| 0 <= j < i ==> s[j] != sep;
        (s.take(i), Some(s.skip(i + 1)))
    } else {
        (s, None)
    }
}

/// Splits at the first `sep`.
pub fn split_once_char(s: &str, sep: char) -> (r: (String, Option<String>))
    ensures
        r.0@ == split_first(s@, sep).0,
        match r.1 {
            Some(rest) => split_first(s@, sep).1 == Some(rest@),
            None => split_first(s@, sep).1 is None,
        },
{
    let n = s.unicode_len();
    let mut i: usize = 0;
    while i < n
        invariant
            n == s@.len(),
            i <= n,
            forall|j: int| 0 <= j < i ==> s@[j] != sep,
        decreases n - i,
    {
        if s.get_char(i) == sep {
            proof {
                let k = choose|k: int| 0 <= k < s@.len() && s@[k] == sep && forall|j: int| 0 <= j < k ==> s@[j] != sep;
                if k < i {
                    assert(s@[k] != sep);
                } else if k > i {
                    assert(s@[i as int] != sep);
                }
            }
            let head = String::from_str(s.substring_char(0, i));
            let rest = String::from_str(s.substring_char(i + 1, n));
            assert(s@.subrange(0, i as int) =~= s@.take(i as int));
            assert(s@.subrange(i + 1, n as int) =~= s@.skip(i + 1));
            return (head, Some(rest));
        }
        i = i + 1;
    }
    (String::from_str(s), None)
}

/// A line typed by the user: nothing, a command with its argument, or a message.
pub enum InputLine {
    Empty,
    Command { name: String, arg: String },
    Text(String),
}

/// How a line is read: trimmed; a leading `/` makes it a command, whose name
/// runs to the first space and whose argument is the rest, trimmed.
pub open spec fn input_kind(line: Seq<char>) -> (nat, Seq<char>, Seq<char>) {
    let t = trimmed(line);
    if t.len() == 0 {
        (0, Seq::empty(), Seq::empty())
    } else if t[0] == '/' {
        let (name, rest) = split_first(t, ' ');
        (
            1,
            name,
            match rest {
                Some(a) => trimmed(a),
                None => Seq::empty(),
            },
        )
    } else {
        (2, t, Seq::empty())
    }
}

pub fn classify_input(line: &str) -> (r: InputLine)
    ensures
        match r {
            InputLine::Empty => input_kind(line@).0 == 0,
            InputLine::Command { name, arg } => input_kind(line@) == (1nat, name@, arg@),
            InputLine::Text(t) => input_kind(line@).0 == 2 && input_kind(line@).1 == t@,
        },
{
    let t = trim_ws(line);
    if t.as_str().unicode_len() == 0 {
        return InputLine::Empty;
    }
    if t.as_str().get_char(0) == '/' {
        let (name, rest) = split_once_char(t.as_str(), ' ');
        let arg = match rest {
            Some(a) => trim_ws(a.as_str()),
            None => String::new(),
        };
        return InputLine::Command { name, arg };
    }
    InputLine::Text(t)
}

// ---------------------------------------------------------------------------
// Numbers
// ---------------------------------------------------------------------------

pub open spec fn is_digit(c: char) -> bool {
    48 <= c as u32 && c as u32 <= 57
}

/// The value of a string of decimal digits.
pub open spec fn digits_value(s: Seq<char>) -> nat
    decreases s.len(),
{
    if s.len() == 0 {
        0
    } else {
        digits_value(s.drop_last()) * 10 + (s.last() as u32 - 48) as nat
    }
}

/// The digits part of a number: `s` without one leading `+`.
pub open spec fn unsigned_part(s: Seq<char>) -> Seq<char> {
    if s.len() > 0 && s[0] == '+' {
        s.drop_first()
    } else {
        s
    }
}

pub open spec fn all_digits(d: Seq<char>) -> bool {
    forall|i: int| 0 <= i < d.len() ==> is_digit(#[trigger] d[i])
}

/// The number `parse` reads from `s` when it is at most `max`: an optional `+`,
/// then one or more decimal digits.
pub open spec fn parsed_number(s: Seq<char>, max: nat) -> Option<nat> {
    let d = unsigned_part(s);
    if d.len() > 0 && all_digits(d) && digits_value(d) <= max {
        Some(digits_value(d))
    } else {
        None
    }
}

/// A longer digit string is worth at least as much.
proof fn lemma_digits_value_grows(s: Seq<char>, k: int)
    requires
        0 <= k <= s.len(),
        forall|i: int| 0 <= i < s.len() ==> is_digit(#[trigger] s[i]),
    ensures
        digits_value(s.take(k)) <= digits_value(s),
    decreases s.len() - k,
{
    if k < s.len() {
        lemma_digits_value_grows(s, k + 1);
        assert(s.take(k + 1).drop_last() =~= s.take(k));
    } else {
        assert(s.take(k) =~= s);
    }
}

/// Reads a `u64` as `str::parse::<u64>` does; `None` where it fails.
pub fn parse_u64(s: &str) -> (r: Option<u64>)
    ensures
        match r {
            Some(v) => parsed_number(s@, u64::MAX as nat) == Some(v as nat),
            None => parsed_number(s@, u64::MAX as nat) is None,
        },
{
    let n = s.unicode_len();
    let mut start: usize = 0;
    if n > 0 && s.get_char(0) == '+' {
        start = 1;
    }
    let ghost d = unsigned_part(s@);
    assert(d =~= s@.skip(start as int));
    if start == n {
        return None;
    }
    let mut v: u64 = 0;
    let mut i: usize = start;
    while i < n
        invariant
            n == s@.len(),
            start < n,
            start <= i <= n,
            d == s@.skip(start as int),
            d == unsigned_part(s@),
            forall|j: int| start <= j < i ==> is_digit(#[trigger] s@[j]),
            v as nat == digits_value(d.take(i - start)),
        decreases n - i,
    {
        let c = s.get_char(i);
        let cv = c as u32;
        assert(d.take(i - start + 1).drop_last() =~= d.take(i - start));
        assert(d[i - start] == c);
        if !(48 <= cv && cv <= 57) {
            proof {
                assert(d[i - start] == c);
                assert(!is_digit(d[i - start]));
            }
            return None;
        }
        let digit = (cv - 48) as u64;
        let next = match v.checked_mul(10) {
            Some(x) => x.checked_add(digit),
            None => None,
        };
        match next {
            Some(x) => {
                v = x;
            },
            None => {
                proof {
                    assert forall|j: int| 0 <= j < d.len() implies is_digit(#[trigger] d[j]) || j
                        == i - start || j > i - start by {
                        if j < i - start {
                            assert(d[j] == s@[j + start]);
                        }
                    }
                    if all_digits(d) {
                        lemma_digits_value_grows(d, i - start + 1);
                    }
                }
                return None;
            },
        }
        i = i + 1;
    }
    proof {
        assert(d.take(n - start) =~= d);
        assert forall|j: int| 0 <= j < d.len() implies is_digit(#[trigger] d[j]) by {
            assert(d[j] == s@[j + start]);
        }
    }
    Some(v)
}

/// Reads a `usize` as `str::parse::<usize>` does; `None` where it fails.
pub fn parse_usize(s: &str) -> (r: Option<usize>)
    ensures
        match r {
            Some(v) => parsed_number(s@, usize::MAX as nat) == Some(v as nat),
            None => parsed_number(s@, usize::MAX as nat) is None,
        },
{
    match parse_u64(s) {
        Some(v) => {
            if v <= usize::MAX as u64 {
                Some(v as usize)
            } else {
                None
            }
        },
        None => {
            proof {
                assert(usize::MAX as nat <= u64::MAX as nat);
            }
            None
        },
    }
}

// ---------------------------------------------------------------------------
// Command arguments
// ---------------------------------------------------------------------------

/// `name | rest`: the trimmed text before the first `|`, and the trimmed text
/// after it when there is a `|`.
pub open spec fn name_and_rest(arg: Seq<char>) -> (Seq<char>, Option<Seq<char>>) {
    let (name, rest) = split_first(arg, '|');
    (
        trimmed(name),
        match rest {
            Some(r) => Some(trimmed(r)),
            None => None,
        },
    )
}

/// Splits `name | rest` arguments (threads, agent registration).
pub fn split_name_and_rest(arg: &str) -> (r: (String, Option<String>))
    ensures
        r.0@ == name_and_rest(arg@).0,
        match r.1 {
            Some(rest) => name_and_rest(arg@).1 == Some(rest@),
            None => name_and_rest(arg@).1 is None,
        },
{
    let (name, rest) = split_once_char(arg, '|');
    let name = trim_ws(name.as_str());
    match rest {
        Some(r) => (name, Some(trim_ws(r.as_str()))),
        None => (name, None),
    }
}

/// How many messages a history command shows: the number given, or 25.
pub open spec fn history_count_of(arg: Seq<char>) -> nat {
    match parsed_number(arg, usize::MAX as nat) {
        Some(n) => n,
        None => 25,
    }
}

pub fn history_count(arg: &str) -> (r: usize)
    ensures
        r as nat == history_count_of(arg@),
{
    match parse_usize(arg) {
        Some(n) => n,
        None => 25,
    }
}

} // verus!
