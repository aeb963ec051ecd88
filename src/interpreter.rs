//! The interpreter's line protocol: outgoing lines and `STATE: <id>` replies.
use vstd::prelude::*;
use crate::error::URError;
use crate::script::{is_ws, lemma_trim_start_sub, skip_ws_forward, trim_start};

verus! {

/// Port of the interpreter-mode interface.
pub const UR_INTERPRETER_PORT: u16 = 30020;

/// The robot's answer to one interpreter line.
#[derive(Debug, Clone, PartialEq, Eq)]
pub struct CommandResult {
    /// Statement id; `0` when rejected or when the reply carried none.
    pub id: u32,
    pub raw_reply: String,
    pub rejected: bool,
}

/// A character of the status token: ASCII letter, digit or `_`.
pub open spec fn is_word(c: char) -> bool {
    ('a' <= c && c <= 'z') || ('A' <= c && c <= 'Z') || ('0' <= c && c <= '9') || c == '_'
}

pub open spec fn is_digit(c: char) -> bool {
    '0' <= c && c <= '9'
}

/// Length of the run of word characters that starts `s`.
pub open spec fn word_len(s: Seq<char>) -> nat
    decreases s.len(),
{
    if s.len() > 0 && is_word(s[0]) {
        1 + word_len(s.drop_first())
    } else {
        0
    }
}

/// The value of a run of decimal digits.
pub open spec fn digits_value(s: Seq<char>) -> nat
    decreases s.len(),
{
    if s.len() == 0 {
        0
    } else {
        digits_value(s.drop_last()) * 10 + (s.last() as nat - '0' as nat) as nat
    }
}

/// The digit group of a reply: what follows the status, its colon and white space.
pub open spec fn id_part(r: Seq<char>) -> Seq<char> {
    trim_start(r.subrange(word_len(r) + 1int, r.len() as int))
}

/// `r` has the shape `STATE:[white space][digits]`.
pub open spec fn is_state_reply(r: Seq<char>) -> bool {
    let w = word_len(r);
    &&& 0 < w < r.len()
    &&& r[w as int] == ':'
    &&& forall|i: int| 0 <= i < id_part(r).len() ==> is_digit(#[trigger] id_part(r)[i])
}

/// The status token of a reply.
pub open spec fn status_of(r: Seq<char>) -> Seq<char> {
    r.subrange(0, word_len(r) as int)
}

/// The statement id a well-formed reply carries: its digits, or 0 when there
/// are none or they do not fit in 32 bits.
pub open spec fn reply_id(r: Seq<char>) -> u32 {
    let d = id_part(r);
    if d.len() > 0 && digits_value(d) <= u32::MAX {
        digits_value(d) as u32
    } else {
        0
    }
}

pub open spec fn discard_word() -> Seq<char> {
    seq!['d', 'i', 's', 'c', 'a', 'r', 'd']
}

/// What a reply means: an id, or a rejection when the status is `discard`.
pub open spec fn reply_meaning(r: Seq<char>) -> (u32, bool) {
    if status_of(r) == discard_word() {
        (0, true)
    } else {
        (reply_id(r), false)
    }
}

fn is_word_exec(c: char) -> (r: bool)
    ensures
        r == is_word(c),
{
    ('a' <= c && c <= 'z') || ('A' <= c && c <= 'Z') || ('0' <= c && c <= '9') || c == '_'
}

proof fn lemma_word_len_prefix(s: Seq<char>, w: int)
    requires
        0 <= w <= s.len(),
        forall|k: int| 0 <= k < w ==> is_word(#[trigger] s[k]),
        w == s.len() || !is_word(s[w]),
    ensures
        word_len(s) == w,
    decreases w,
{
    if w > 0 {
        let t = s.drop_first();
        assert forall|k: int| 0 <= k < w - 1 implies is_word(#[trigger] t[k]) by {
            assert(t[k] == s[k + 1]);
        }
        if w - 1 < t.len() {
            assert(t[w - 1] == s[w]);
        }
        lemma_word_len_prefix(t, w - 1);
    }
}

/// Index of the first non-word character of `s`, or its length.
fn word_end(s: &str) -> (w: usize)
    ensures
        w <= s@.len(),
        forall|k: int| 0 <= k < w ==> is_word(#[trigger] s@[k]),
        w == s@.len() || !is_word(s@[w as int]),
{
    let n = s.unicode_len();
    let mut w: usize = 0;
    while w < n
        invariant
            n == s@.len(),
            w <= n,
            forall|k: int| 0 <= k < w ==> is_word(#[trigger] s@[k]),
        decreases n - w,
    {
        if !is_word_exec(s.get_char(w)) {
            return w;
        }
        w = w + 1;
    }
    w
}

fn reply_error(raw_reply: &str) -> (e: URError)
    ensures
        e is Protocol,
{
    let mut msg = String::from_str("Invalid interpreter reply format: ");
    msg.append(raw_reply);
    URError::Protocol(msg)
}

/// Reads a reply line of the interpreter. A line not of the form
/// `STATE:[white space][digits]` is a protocol error; a `discard` status is a
/// rejection with id 0; otherwise the id is the digit group (0 if absent or
/// too large for 32 bits).
pub fn parse_reply(raw_reply: &str) -> (r: Result<CommandResult, URError>)
    ensures
        is_state_reply(raw_reply@) <==> r is Ok,
        r matches Ok(c) ==> c.raw_reply@ == raw_reply@ && (c.id, c.rejected) == reply_meaning(
            raw_reply@,
        ),
        r matches Err(e) ==> e is Protocol,
{
    let n = raw_reply.unicode_len();
    let ghost s = raw_reply@;
    let w = word_end(raw_reply);
    proof {
        lemma_word_len_prefix(s, w as int);
    }
    if w == 0 || w >= n || raw_reply.get_char(w) != ':' {
        return Err(reply_error(raw_reply));
    }
    let ghost rest = s.subrange(w + 1, n as int);
    let a = skip_ws_forward(raw_reply, w + 1, n);
    proof {
        assert forall|k: int| 0 <= k < a - (w + 1) implies is_ws(#[trigger] rest[k]) by {
            assert(rest[k] == s[w + 1 + k]);
        }
        if a < n {
            assert(rest[a - (w + 1)] == s[a as int]);
        }
        lemma_trim_start_sub(rest, a - (w + 1));
        assert(rest.subrange(a - (w + 1), rest.len() as int) =~= s.subrange(a as int, n as int));
    }
    let ghost d = s.subrange(a as int, n as int);
    let mut j: usize = a;
    let mut acc: u64 = 0;
    let mut over = false;
    proof {
        assert(s.subrange(a as int, a as int) =~= Seq::<char>::empty());
    }
    while j < n
        invariant
            n == s.len(),
            s == raw_reply@,
            d == s.subrange(a as int, n as int),
            id_part(s) == d,
            a <= j <= n,
            forall|k: int| a <= k < j ==> is_digit(#[trigger] s[k]),
            over <==> digits_value(s.subrange(a as int, j as int)) > u32::MAX,
            !over ==> acc == digits_value(s.subrange(a as int, j as int)),
        decreases n - j,
    {
        let c = raw_reply.get_char(j);
        if !('0' <= c && c <= '9') {
            proof {
                assert(d[j - a] == s[j as int]);
                assert(!is_digit(id_part(s)[j - a]));
            }
            return Err(reply_error(raw_reply));
        }
        let ghost p = s.subrange(a as int, j as int);
        let ghost q = s.subrange(a as int, j + 1);
        proof {
            assert(q.drop_last() =~= p);
            assert(q.last() == c);
        }
        let dv = (c as u32 - '0' as u32) as u64;
        if !over {
            acc = acc * 10 + dv;
            if acc > 0xFFFF_FFFF {
                over = true;
            }
        } else {
            proof {
                let pv = digits_value(p);
                assert(pv * 10 + dv >= pv) by (nonlinear_arith)
                    requires
                        pv >= 0,
                        dv >= 0,
                ;
            }
        }
        j = j + 1;
    }
    proof {
        assert(s.subrange(a as int, n as int) =~= d);
        assert forall|i: int| 0 <= i < d.len() implies is_digit(#[trigger] d[i]) by {
            assert(d[i] == s[a + i]);
        }
    }
    let is_discard = w == 7 && raw_reply.get_char(0) == 'd' && raw_reply.get_char(1) == 'i'
        && raw_reply.get_char(2) == 's' && raw_reply.get_char(3) == 'c'
        && raw_reply.get_char(4) == 'a' && raw_reply.get_char(5) == 'r'
        && raw_reply.get_char(6) == 'd';
    proof {
        if is_discard {
            assert(status_of(s) =~= discard_word());
        } else if status_of(s) == discard_word() {
            assert(status_of(s).len() == 7);
            assert(status_of(s)[0] == s[0]);
            assert(status_of(s)[1] == s[1]);
            assert(status_of(s)[2] == s[2]);
            assert(status_of(s)[3] == s[3]);
            assert(status_of(s)[4] == s[4]);
            assert(status_of(s)[5] == s[5]);
            assert(status_of(s)[6] == s[6]);
        }
    }
    let raw = String::from_str(raw_reply);
    if is_discard {
        Ok(CommandResult { id: 0, raw_reply: raw, rejected: true })
    } else {
        let id: u32 = if j > a && !over {
            acc as u32
        } else {
            0
        };
        Ok(CommandResult { id, raw_reply: raw, rejected: false })
    }
}

/// The line as sent: `command`, with a newline appended when it has none.
pub fn with_newline(command: &str) -> (r: String)
    ensures
        r@ == if command@.len() > 0 && command@.last() == '\n' {
            command@
        } else {
            command@.push('\n')
        },
{
    let n = command.unicode_len();
    let mut r = String::from_str(command);
    if n == 0 || command.get_char(n - 1) != '\n' {
        r.append("\n");
        proof {
            reveal_strlit("\n");
            assert(r@ =~= command@.push('\n'));
        }
    }
    r
}

} // verus!
