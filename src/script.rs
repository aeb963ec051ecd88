//! Splitting a URScript submission into blocks, brace-block tracking and
//! the auto-clear cadence.
use vstd::prelude::*;
use crate::text::string_views;

verus! {

/// The characters that `str::trim` removes: Unicode `White_Space`.
pub open spec fn is_ws(c: char) -> bool {
    ('\u{9}' <= c && c <= '\u{d}') || c == ' ' || c == '\u{85}' || c == '\u{a0}'
        || c == '\u{1680}' || ('\u{2000}' <= c && c <= '\u{200a}') || c == '\u{2028}'
        || c == '\u{2029}' || c == '\u{202f}' || c == '\u{205f}' || c == '\u{3000}'
}

pub(crate) fn is_ws_exec(c: char) -> (r: bool)
    ensures
        r == is_ws(c),
{
    ('\u{9}' <= c && c <= '\u{d}') || c == ' ' || c == '\u{85}' || c == '\u{a0}'
        || c == '\u{1680}' || ('\u{2000}' <= c && c <= '\u{200a}') || c == '\u{2028}'
        || c == '\u{2029}' || c == '\u{202f}' || c == '\u{205f}' || c == '\u{3000}'
}

/// `s` without its leading white space.
pub open spec fn trim_start(s: Seq<char>) -> Seq<char>
    decreases s.len(),
{
    if s.len() > 0 && is_ws(s[0]) {
        trim_start(s.drop_first())
    } else {
        s
    }
}

/// `s` without its trailing white space.
pub open spec fn trim_end(s: Seq<char>) -> Seq<char>
    decreases s.len(),
{
    if s.len() > 0 && is_ws(s.last()) {
        trim_end(s.drop_last())
    } else {
        s
    }
}

pub open spec fn trim(s: Seq<char>) -> Seq<char> {
    trim_end(trim_start(s))
}

/// The pieces of `s` between newline characters (the last piece may be empty).
pub open spec fn split_lines(s: Seq<char>) -> Seq<Seq<char>>
    decreases s.len(),
{
    if s.len() == 0 {
        seq![Seq::<char>::empty()]
    } else {
        let p = split_lines(s.drop_last());
        if s.last() == '\n' {
            p.push(Seq::<char>::empty())
        } else {
            p.update(p.len() - 1, p.last().push(s.last()))
        }
    }
}

/// A trimmed line is a block unless it is empty or a `#` comment.
pub open spec fn is_block(t: Seq<char>) -> bool {
    t.len() > 0 && t[0] != '#'
}

/// The trimmed lines of `lines` that are blocks, in order.
pub open spec fn kept_blocks(lines: Seq<Seq<char>>) -> Seq<Seq<char>>
    decreases lines.len(),
{
    if lines.len() == 0 {
        Seq::empty()
    } else {
        let p = kept_blocks(lines.drop_last());
        let t = trim(lines.last());
        if is_block(t) {
            p.push(t)
        } else {
            p
        }
    }
}

/// The executable blocks of a submission.
pub open spec fn blocks_of(s: Seq<char>) -> Seq<Seq<char>> {
    kept_blocks(split_lines(s))
}

proof fn lemma_split_lines_nonempty(s: Seq<char>)
    ensures
        split_lines(s).len() > 0,
    decreases s.len(),
{
    if s.len() > 0 {
        lemma_split_lines_nonempty(s.drop_last());
    }
}

pub(crate) proof fn lemma_trim_start_sub(s: Seq<char>, a: int)
    requires
        0 <= a <= s.len(),
        forall|k: int| 0 <= k < a ==> is_ws(#[trigger] s[k]),
        a == s.len() || !is_ws(s[a]),
    ensures
        trim_start(s) == s.subrange(a, s.len() as int),
    decreases a,
{
    if a > 0 {
        let t = s.drop_first();
        assert forall|k: int| 0 <= k < a - 1 implies is_ws(#[trigger] t[k]) by {
            assert(t[k] == s[k + 1]);
        }
        if a - 1 < t.len() {
            assert(t[a - 1] == s[a]);
        }
        lemma_trim_start_sub(t, a - 1);
        assert(t.subrange(a - 1, t.len() as int) =~= s.subrange(a, s.len() as int));
    } else {
        assert(s.subrange(0, s.len() as int) =~= s);
    }
}

proof fn lemma_trim_end_sub(s: Seq<char>, b: int)
    requires
        0 <= b <= s.len(),
        forall|k: int| b <= k < s.len() ==> is_ws(#[trigger] s[k]),
        b == 0 || !is_ws(s[b - 1]),
    ensures
        trim_end(s) == s.subrange(0, b),
    decreases s.len() - b,
{
    if b < s.len() {
        let t = s.drop_last();
        assert forall|k: int| b <= k < t.len() implies is_ws(#[trigger] t[k]) by {
            assert(t[k] == s[k]);
        }
        if b > 0 {
            assert(t[b - 1] == s[b - 1]);
        }
        lemma_trim_end_sub(t, b);
        assert(t.subrange(0, b) =~= s.subrange(0, b));
    } else {
        assert(s.subrange(0, s.len() as int) =~= s);
    }
}

/// Index of the first character of `s[from..to]` that is not white space, or `to`.
pub(crate) fn skip_ws_forward(s: &str, from: usize, to: usize) -> (a: usize)
    requires
        from <= to <= s@.len(),
    ensures
        from <= a <= to,
        forall|k: int| from <= k < a ==> is_ws(#[trigger] s@[k]),
        a == to || !is_ws(s@[a as int]),
{
    let mut a = from;
    while a < to
        invariant
            from <= a <= to <= s@.len(),
            forall|k: int| from <= k < a ==> is_ws(#[trigger] s@[k]),
        decreases to - a,
    {
        if !is_ws_exec(s.get_char(a)) {
            return a;
        }
        a = a + 1;
    }
    a
}

/// One past the last character of `s[from..to]` that is not white space, or `from`.
fn skip_ws_backward(s: &str, from: usize, to: usize) -> (b: usize)
    requires
        from <= to <= s@.len(),
    ensures
        from <= b <= to,
        forall|k: int| b <= k < to ==> is_ws(#[trigger] s@[k]),
        b == from || !is_ws(s@[b - 1]),
{
    let mut b = to;
    while b > from
        invariant
            from <= b <= to <= s@.len(),
            forall|k: int| b <= k < to ==> is_ws(#[trigger] s@[k]),
        decreases b - from,
    {
        if !is_ws_exec(s.get_char(b - 1)) {
            return b;
        }
        b = b - 1;
    }
    b
}

/// The trimmed text of `s[from..to]`, as a range of `s`.
fn trim_range(s: &str, from: usize, to: usize) -> (r: (usize, usize))
    requires
        from <= to <= s@.len(),
    ensures
        from <= r.0 <= r.1 <= to,
        s@.subrange(r.0 as int, r.1 as int) == trim(s@.subrange(from as int, to as int)),
{
    let ghost line = s@.subrange(from as int, to as int);
    let a = skip_ws_forward(s, from, to);
    proof {
        assert forall|k: int| 0 <= k < a - from implies is_ws(#[trigger] line[k]) by {
            assert(line[k] == s@[from + k]);
        }
        if a < to {
            assert(line[a - from] == s@[a as int]);
        }
        lemma_trim_start_sub(line, a - from);
        assert(line.subrange(a - from, line.len() as int) =~= s@.subrange(a as int, to as int));
    }
    let b = skip_ws_backward(s, a, to);
    proof {
        let mid = s@.subrange(a as int, to as int);
        assert forall|k: int| b - a <= k < mid.len() implies is_ws(#[trigger] mid[k]) by {
            assert(mid[k] == s@[a + k]);
        }
        if b > a {
            assert(mid[b - a - 1] == s@[b - 1]);
        }
        lemma_trim_end_sub(mid, b - a);
        assert(mid.subrange(0, b - a) =~= s@.subrange(a as int, b as int));
    }
    (a, b)
}

/// Appends the trimmed text of `s[from..to]` to `blocks` when it is a block.
fn push_if_block(s: &str, from: usize, to: usize, blocks: &mut Vec<String>)
    requires
        from <= to <= s@.len(),
    ensures
        ({
            let t = trim(s@.subrange(from as int, to as int));
            string_views(final(blocks)@) == if is_block(t) {
                string_views(old(blocks)@).push(t)
            } else {
                string_views(old(blocks)@)
            }
        }),
{
    let (a, b) = trim_range(s, from, to);
    if a < b && s.get_char(a) != '#' {
        let piece = s.substring_char(a, b);
        blocks.push(String::from_str(piece));
        proof {
            assert(s@.subrange(a as int, b as int)[0] == s@[a as int]);
            assert(string_views(blocks@) =~= string_views(old(blocks)@).push(piece@));
        }
    } else {
        proof {
            if a < b {
                assert(s@.subrange(a as int, b as int)[0] == s@[a as int]);
            }
        }
    }
}

/// Splits a submission into its blocks: each line, trimmed, that is neither
/// empty nor a `#` comment, in source order.
pub fn split_blocks(urscript: &str) -> (blocks: Vec<String>)
    ensures
        string_views(blocks@) == blocks_of(urscript@),
{
    let n = urscript.unicode_len();
    let mut blocks: Vec<String> = Vec::new();
    let mut line_start: usize = 0;
    let mut i: usize = 0;
    proof {
        assert(urscript@.subrange(0, 0) =~= Seq::<char>::empty());
        assert(string_views(blocks@) =~= Seq::<Seq<char>>::empty());
        assert(split_lines(Seq::<char>::empty()).drop_last() =~= Seq::<Seq<char>>::empty());
    }
    while i < n
        invariant
            n == urscript@.len(),
            line_start <= i <= n,
            split_lines(urscript@.subrange(0, i as int)).len() > 0,
            split_lines(urscript@.subrange(0, i as int)).last() == urscript@.subrange(
                line_start as int,
                i as int,
            ),
            string_views(blocks@) == kept_blocks(split_lines(urscript@.subrange(0, i as int)).drop_last()),
        decreases n - i,
    {
        let ghost pre = urscript@.subrange(0, i as int);
        let ghost next = urscript@.subrange(0, i + 1);
        let ghost lines = split_lines(pre);
        proof {
            assert(next.drop_last() =~= pre);
            assert(next.last() == urscript@[i as int]);
        }
        let c = urscript.get_char(i);
        if c == '\n' {
            push_if_block(urscript, line_start, i, &mut blocks);
            proof {
                assert(split_lines(next) == lines.push(Seq::<char>::empty()));
                assert(split_lines(next).drop_last() =~= lines);
                assert(lines =~= lines.drop_last().push(lines.last()));
            }
            line_start = i + 1;
            proof {
                assert(urscript@.subrange(line_start as int, i + 1) =~= Seq::<char>::empty());
            }
        } else {
            proof {
                assert(split_lines(next) == lines.update(lines.len() - 1, lines.last().push(c)));
                assert(urscript@.subrange(line_start as int, i + 1) =~= urscript@.subrange(
                    line_start as int,
                    i as int,
                ).push(c));
                assert(split_lines(next).drop_last() =~= lines.drop_last());
            }
        }
        i = i + 1;
    }
    push_if_block(urscript, line_start, n, &mut blocks);
    proof {
        let lines = split_lines(urscript@.subrange(0, n as int));
        assert(urscript@.subrange(0, n as int) =~= urscript@);
        assert(lines =~= lines.drop_last().push(lines.last()));
    }
    blocks
}

/// The brace state after scanning `s` from state `inside`: each `{` sets it,
/// each `}` clears it, so the last brace of `s` decides.
pub open spec fn brace_after(inside: bool, s: Seq<char>) -> bool
    decreases s.len(),
{
    if s.len() == 0 {
        inside
    } else if s.last() == '{' {
        true
    } else if s.last() == '}' {
        false
    } else {
        brace_after(inside, s.drop_last())
    }
}

/// Whether the auto-clear is due after `count` completed submissions.
pub open spec fn auto_clear_due(count: int, limit: int, inside: bool) -> bool {
    count % limit == 0 && !inside
}

/// Default number of URScript submissions between two buffer clears.
pub const CLEAR_BUFFER_LIMIT: u32 = 500;

/// Statistics of the executor's counters.
#[derive(Debug, Clone)]
pub struct ExecutorStats {
    pub urscript_count: u32,
    pub inside_brace_block: bool,
}

/// The counters that decide when the interpreter buffer is cleared.
#[derive(Debug, Clone)]
pub struct ClearSchedule {
    pub urscript_count: u32,
    pub inside_brace_block: bool,
    pub clear_limit: u32,
}

impl ClearSchedule {
    pub open spec fn wf(&self) -> bool {
        self.clear_limit > 0
    }

    /// A fresh schedule: no submission seen, outside any brace block.
    pub fn new(clear_limit: u32) -> (r: ClearSchedule)
        requires
            clear_limit > 0,
        ensures
            r.wf(),
            r.urscript_count == 0,
            !r.inside_brace_block,
            r.clear_limit == clear_limit,
    {
        ClearSchedule { urscript_count: 0, inside_brace_block: false, clear_limit }
    }

    /// Scans `urscript` for braces, left to right.
    pub fn update_brace_tracking(&mut self, urscript: &str)
        ensures
            final(self).inside_brace_block == brace_after(
                old(self).inside_brace_block,
                urscript@,
            ),
            final(self).urscript_count == old(self).urscript_count,
            final(self).clear_limit == old(self).clear_limit,
    {
        let n = urscript.unicode_len();
        let mut i: usize = 0;
        let ghost start = self.inside_brace_block;
        proof {
            assert(urscript@.subrange(0, 0) =~= Seq::<char>::empty());
        }
        while i < n
            invariant
                n == urscript@.len(),
                i <= n,
                self.inside_brace_block == brace_after(start, urscript@.subrange(0, i as int)),
                self.urscript_count == old(self).urscript_count,
                self.clear_limit == old(self).clear_limit,
            decreases n - i,
        {
            let c = urscript.get_char(i);
            if c == '{' {
                self.inside_brace_block = true;
            } else if c == '}' {
                self.inside_brace_block = false;
            }
            proof {
                let next = urscript@.subrange(0, i + 1);
                assert(next.drop_last() =~= urscript@.subrange(0, i as int));
            }
            i = i + 1;
        }
        proof {
            assert(urscript@.subrange(0, n as int) =~= urscript@);
        }
    }

    /// Whether the buffer clear is due now.
    pub fn should_auto_clear(&self) -> (r: bool)
        requires
            self.wf(),
        ensures
            r == auto_clear_due(
                self.urscript_count as int,
                self.clear_limit as int,
                self.inside_brace_block,
            ),
    {
        self.urscript_count % self.clear_limit == 0 && !self.inside_brace_block
    }

    /// Records a finished URScript submission; returns whether the buffer
    /// clear must run now. The counter moves only on success, and wraps.
    pub fn record_submission(&mut self, urscript: &str, completed: bool) -> (clear: bool)
        requires
            old(self).wf(),
        ensures
            final(self).wf(),
            final(self).clear_limit == old(self).clear_limit,
            final(self).inside_brace_block == brace_after(
                old(self).inside_brace_block,
                urscript@,
            ),
            final(self).urscript_count == if completed {
                (old(self).urscript_count + 1) % 0x1_0000_0000
            } else {
                old(self).urscript_count as int
            },
            clear == (completed && auto_clear_due(
                final(self).urscript_count as int,
                final(self).clear_limit as int,
                final(self).inside_brace_block,
            )),
    {
        self.update_brace_tracking(urscript);
        if completed {
            self.urscript_count = self.urscript_count.wrapping_add(1);
            self.should_auto_clear()
        } else {
            false
        }
    }

    pub fn get_stats(&self) -> (r: ExecutorStats)
        ensures
            r.urscript_count == self.urscript_count,
            r.inside_brace_block == self.inside_brace_block,
    {
        ExecutorStats {
            urscript_count: self.urscript_count,
            inside_brace_block: self.inside_brace_block,
        }
    }
}

/// Among any `limit` consecutive submission counts that follow `start`,
/// the auto-clear is due at exactly one outside a brace block, and never
/// inside one.
pub proof fn lemma_one_clear_per_window(start: int, limit: int)
    requires
        start >= 0,
        limit > 0,
    ensures
        exists|k: int|
            start < k <= start + limit && auto_clear_due(k, limit, false) && forall|j: int|
                start < j <= start + limit && auto_clear_due(j, limit, false) ==> j == k,
        forall|j: int| !auto_clear_due(j, limit, true),
{
    let k = start + limit - start % limit;
    assert(k % limit == 0) by {
        vstd::arithmetic::div_mod::lemma_fundamental_div_mod(start, limit);
        vstd::arithmetic::div_mod::lemma_mod_multiples_basic(start / limit + 1, limit);
        assert(k == (start / limit + 1) * limit) by (nonlinear_arith)
            requires
                start == limit * (start / limit) + start % limit,
                k == start + limit - start % limit,
        ;
    }
    vstd::arithmetic::div_mod::lemma_mod_bound(start, limit);
    assert(start < k <= start + limit);
    assert(auto_clear_due(k, limit, false));
    assert forall|j: int|
        start < j <= start + limit && auto_clear_due(j, limit, false) implies j == k by {
        vstd::arithmetic::div_mod::lemma_fundamental_div_mod(j, limit);
        vstd::arithmetic::div_mod::lemma_fundamental_div_mod(start, limit);
        vstd::arithmetic::div_mod::lemma_mod_bound(start, limit);
        let q = j / limit;
        let p = start / limit;
        assert(j == limit * q);
        assert(start == limit * p + start % limit);
        assert(q == p + 1) by (nonlinear_arith)
            requires
                j == limit * q,
                start == limit * p + start % limit,
                0 <= start % limit < limit,
                start < j <= start + limit,
                limit > 0,
        ;
        assert(k == limit * (p + 1)) by (nonlinear_arith)
            requires
                start == limit * p + start % limit,
                k == start + limit - start % limit,
        ;
        assert(j == limit * (p + 1));
    }
}

} // verus!
