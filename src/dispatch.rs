//! Classification of submissions and the priority queue of the dispatcher:
//! higher priority first, first-in first-out within a priority, one
//! submission executing at a time.
use vstd::prelude::*;
use crate::script::{is_ws, is_ws_exec, lemma_trim_start_sub, skip_ws_forward, trim_start};

verus! {

#[derive(Debug, Clone, Copy, PartialEq, Eq, Hash, PartialOrd, Ord, Structural)]
pub enum ExecutionPriority {
    Low,
    Normal,
    High,
    Emergency,
}

/// The numeric level of a priority: higher runs first.
pub open spec fn rank(p: ExecutionPriority) -> int {
    match p {
        ExecutionPriority::Low => 0,
        ExecutionPriority::Normal => 1,
        ExecutionPriority::High => 2,
        ExecutionPriority::Emergency => 3,
    }
}

impl ExecutionPriority {
    pub fn level(self) -> (r: u8)
        ensures
            r == rank(self),
    {
        match self {
            ExecutionPriority::Low => 0,
            ExecutionPriority::Normal => 1,
            ExecutionPriority::High => 2,
            ExecutionPriority::Emergency => 3,
        }
    }
}

#[derive(Debug, Clone, Copy, PartialEq, Eq, Structural)]
pub enum CommandClass {
    /// `@halt`
    Emergency,
    /// `@status`, `@health`, `@pose`
    Query,
    /// `@clear`, `@reconnect`, `@help` and any other `@` verb
    Meta,
    /// Anything that does not start with `@`
    URScript,
}

/// A control verb, as named after the `@`.
#[derive(Debug, Clone, PartialEq, Eq)]
pub enum ControlVerb {
    Halt,
    Reconnect,
    Status,
    Health,
    Clear,
    Pose,
    Help,
    Unknown(String),
}

/// Length of the run of non-white-space characters that starts `s`.
pub open spec fn word_run(s: Seq<char>) -> nat
    decreases s.len(),
{
    if s.len() > 0 && !is_ws(s[0]) {
        1 + word_run(s.drop_first())
    } else {
        0
    }
}

/// The first white-space-separated word of `s` (empty if none).
pub open spec fn first_word(s: Seq<char>) -> Seq<char> {
    let t = trim_start(s);
    t.subrange(0, word_run(t) as int)
}

/// The verb word of a command that starts with `@`.
pub open spec fn verb_word(c: Seq<char>) -> Seq<char> {
    first_word(c.drop_first())
}

pub open spec fn is_control(c: Seq<char>) -> bool {
    c.len() > 0 && c[0] == '@'
}

/// The verb a word names, if it names one of the known verbs.
pub open spec fn known_verb(w: Seq<char>) -> Option<ControlVerb> {
    if w == "halt"@ {
        Some(ControlVerb::Halt)
    } else if w == "reconnect"@ {
        Some(ControlVerb::Reconnect)
    } else if w == "status"@ {
        Some(ControlVerb::Status)
    } else if w == "health"@ {
        Some(ControlVerb::Health)
    } else if w == "clear"@ {
        Some(ControlVerb::Clear)
    } else if w == "pose"@ {
        Some(ControlVerb::Pose)
    } else if w == "help"@ {
        Some(ControlVerb::Help)
    } else {
        None
    }
}

/// The class of the verb a word names: unknown verbs are meta commands.
pub open spec fn class_of_word(w: Seq<char>) -> CommandClass {
    match known_verb(w) {
        Some(ControlVerb::Halt) => CommandClass::Emergency,
        Some(ControlVerb::Status) | Some(ControlVerb::Health) | Some(ControlVerb::Pose) => CommandClass::Query,
        _ => CommandClass::Meta,
    }
}

/// The class of a submission.
pub open spec fn class_of(c: Seq<char>) -> CommandClass {
    if is_control(c) {
        class_of_word(verb_word(c))
    } else {
        CommandClass::URScript
    }
}

pub open spec fn priority_of(c: CommandClass) -> ExecutionPriority {
    match c {
        CommandClass::Emergency => ExecutionPriority::Emergency,
        CommandClass::Query => ExecutionPriority::High,
        CommandClass::Meta => ExecutionPriority::Normal,
        CommandClass::URScript => ExecutionPriority::Normal,
    }
}

proof fn lemma_word_run_prefix(s: Seq<char>, w: int)
    requires
        0 <= w <= s.len(),
        forall|k: int| 0 <= k < w ==> !is_ws(#[trigger] s[k]),
        w == s.len() || is_ws(s[w]),
    ensures
        word_run(s) == w,
    decreases w,
{
    if w > 0 {
        let t = s.drop_first();
        assert forall|k: int| 0 <= k < w - 1 implies !is_ws(#[trigger] t[k]) by {
            assert(t[k] == s[k + 1]);
        }
        if w - 1 < t.len() {
            assert(t[w - 1] == s[w]);
        }
        lemma_word_run_prefix(t, w - 1);
    }
}

/// Index of the first white-space character of `s[from..to]`, or `to`.
fn skip_word_forward(s: &str, from: usize, to: usize) -> (b: usize)
    requires
        from <= to <= s@.len(),
    ensures
        from <= b <= to,
        forall|k: int| from <= k < b ==> !is_ws(#[trigger] s@[k]),
        b == to || is_ws(s@[b as int]),
{
    let mut b = from;
    while b < to
        invariant
            from <= b <= to <= s@.len(),
            forall|k: int| from <= k < b ==> !is_ws(#[trigger] s@[k]),
        decreases to - b,
    {
        if is_ws_exec(s.get_char(b)) {
            return b;
        }
        b = b + 1;
    }
    b
}

/// The range of `s` that holds the verb word of a control command.
fn verb_range(s: &str) -> (r: (usize, usize))
    requires
        is_control(s@),
    ensures
        r.0 <= r.1 <= s@.len(),
        s@.subrange(r.0 as int, r.1 as int) == verb_word(s@),
{
    let n = s.unicode_len();
    let ghost rest = s@.drop_first();
    let a = skip_ws_forward(s, 1, n);
    proof {
        assert forall|k: int| 0 <= k < a - 1 implies is_ws(#[trigger] rest[k]) by {
            assert(rest[k] == s@[k + 1]);
        }
        if a < n {
            assert(rest[a - 1] == s@[a as int]);
        }
        lemma_trim_start_sub(rest, a - 1);
        assert(rest.subrange(a - 1, rest.len() as int) =~= s@.subrange(a as int, n as int));
    }
    let b = skip_word_forward(s, a, n);
    proof {
        let t = s@.subrange(a as int, n as int);
        assert(trim_start(rest) == t);
        assert forall|k: int| 0 <= k < b - a implies !is_ws(#[trigger] t[k]) by {
            assert(t[k] == s@[a + k]);
        }
        if b < n {
            assert(t[b - a] == s@[b as int]);
        }
        lemma_word_run_prefix(t, b - a);
        assert(t.subrange(0, b - a) =~= s@.subrange(a as int, b as int));
    }
    (a, b)
}

/// Whether `s[from..to]` is the text `w`.
fn range_is(s: &str, from: usize, to: usize, w: &str) -> (r: bool)
    requires
        from <= to <= s@.len(),
    ensures
        r == (s@.subrange(from as int, to as int) == w@),
{
    let n = w.unicode_len();
    if to - from != n {
        return false;
    }
    let mut i: usize = 0;
    while i < n
        invariant
            n == w@.len(),
            to - from == n,
            from <= to <= s@.len(),
            i <= n,
            forall|k: int| 0 <= k < i ==> s@[from + k] == w@[k],
        decreases n - i,
    {
        if s.get_char(from + i) != w.get_char(i) {
            proof {
                assert(s@.subrange(from as int, to as int)[i as int] == s@[from + i]);
            }
            return false;
        }
        i = i + 1;
    }
    assert(s@.subrange(from as int, to as int) =~= w@);
    true
}

/// The known verb that `s[from..to]` names, if any.
fn known_verb_in(s: &str, from: usize, to: usize) -> (r: Option<ControlVerb>)
    requires
        from <= to <= s@.len(),
    ensures
        r == known_verb(s@.subrange(from as int, to as int)),
{
    if range_is(s, from, to, "halt") {
        Some(ControlVerb::Halt)
    } else if range_is(s, from, to, "reconnect") {
        Some(ControlVerb::Reconnect)
    } else if range_is(s, from, to, "status") {
        Some(ControlVerb::Status)
    } else if range_is(s, from, to, "health") {
        Some(ControlVerb::Health)
    } else if range_is(s, from, to, "clear") {
        Some(ControlVerb::Clear)
    } else if range_is(s, from, to, "pose") {
        Some(ControlVerb::Pose)
    } else if range_is(s, from, to, "help") {
        Some(ControlVerb::Help)
    } else {
        None
    }
}

/// Reads the verb of a control command: the first word after the `@`.
/// A command that does not start with `@` has none.
pub fn parse_verb(command: &str) -> (r: Option<ControlVerb>)
    ensures
        r is None <==> !is_control(command@),
        r matches Some(v) ==> match known_verb(verb_word(command@)) {
            Some(k) => v == k,
            None => v matches ControlVerb::Unknown(u) && u@ == verb_word(command@),
        },
{
    if command.unicode_len() == 0 || command.get_char(0) != '@' {
        return None;
    }
    let (a, b) = verb_range(command);
    match known_verb_in(command, a, b) {
        Some(v) => Some(v),
        None => Some(ControlVerb::Unknown(String::from_str(command.substring_char(a, b)))),
    }
}

impl CommandClass {
    /// Classifies a submission by its verb: `@halt` is an emergency;
    /// `@status`, `@health` and `@pose` are queries; every other `@` verb is
    /// a meta command; text without a leading `@` is URScript.
    pub fn classify(command: &str) -> (r: CommandClass)
        ensures
            r == class_of(command@),
    {
        if command.unicode_len() == 0 || command.get_char(0) != '@' {
            return CommandClass::URScript;
        }
        let (a, b) = verb_range(command);
        match known_verb_in(command, a, b) {
            Some(ControlVerb::Halt) => CommandClass::Emergency,
            Some(ControlVerb::Status) | Some(ControlVerb::Health) | Some(ControlVerb::Pose) => CommandClass::Query,
            _ => CommandClass::Meta,
        }
    }

    /// The queue priority of a class.
    pub fn to_priority(self) -> (r: ExecutionPriority)
        ensures
            r == priority_of(self),
    {
        match self {
            CommandClass::Emergency => ExecutionPriority::Emergency,
            CommandClass::Query => ExecutionPriority::High,
            CommandClass::Meta => ExecutionPriority::Normal,
            CommandClass::URScript => ExecutionPriority::Normal,
        }
    }
}

/// A submission waiting in the queue.
#[derive(Debug, Clone)]
pub struct QueuedExecution {
    pub id: u128,
    pub command: String,
    pub command_class: CommandClass,
    pub priority: ExecutionPriority,
    /// Position of the submission in the order of arrival.
    pub arrival: u64,
}

/// Introspection snapshot of the queue.
#[derive(Debug, Clone)]
pub struct QueueState {
    pub total_queued: usize,
    pub current_executing: Option<u128>,
    /// Number of queued submissions of each priority present, highest first.
    pub queue_by_priority: Vec<(ExecutionPriority, usize)>,
}

/// Where a new submission goes.
#[derive(Debug, Clone, Copy, PartialEq, Eq, Structural)]
pub enum Route {
    /// Run at once on the caller, bypassing queue and executing slot.
    Immediate,
    /// Wait in the queue.
    Enqueue,
    /// The queue is off: run at once, in turn.
    Direct,
}

/// `a` runs before `b`: higher priority, or the same priority and earlier arrival.
pub open spec fn runs_before(a: QueuedExecution, b: QueuedExecution) -> bool {
    rank(a.priority) > rank(b.priority) || (rank(a.priority) == rank(b.priority) && a.arrival
        < b.arrival)
}

/// Number of entries of `items` with priority `p`.
pub open spec fn count_priority(items: Seq<QueuedExecution>, p: ExecutionPriority) -> nat
    decreases items.len(),
{
    if items.len() == 0 {
        0
    } else {
        count_priority(items.drop_last(), p) + if items.last().priority == p {
            1nat
        } else {
            0nat
        }
    }
}

/// The priority queue and the single executing slot.
#[derive(Debug, Clone)]
pub struct DispatchQueue {
    pub items: Vec<QueuedExecution>,
    pub current_execution: Option<u128>,
    pub queue_enabled: bool,
    pub next_arrival: u64,
}

impl DispatchQueue {
    /// The queue is in execution order, and every arrival index is below the next one.
    pub open spec fn wf(&self) -> bool {
        &&& forall|i: int, j: int|
            0 <= i < j < self.items@.len() ==> runs_before(
                #[trigger] self.items@[i],
                #[trigger] self.items@[j],
            )
        &&& forall|i: int| 0 <= i < self.items@.len() ==> #[trigger] self.items@[i].arrival < self.next_arrival
    }

    /// An empty, enabled queue with nothing executing.
    pub fn new() -> (q: DispatchQueue)
        ensures
            q.wf(),
            q.items@.len() == 0,
            q.current_execution is None,
            q.queue_enabled,
            q.next_arrival == 0,
    {
        DispatchQueue { items: Vec::new(), current_execution: None, queue_enabled: true, next_arrival: 0 }
    }

    /// How a submission of class `class` is handled: an emergency bypasses
    /// everything; otherwise it is queued, or run in turn when the queue is off.
    pub fn route(&self, class: CommandClass) -> (r: Route)
        ensures
            class == CommandClass::Emergency ==> r == Route::Immediate,
            class != CommandClass::Emergency && self.queue_enabled ==> r == Route::Enqueue,
            class != CommandClass::Emergency && !self.queue_enabled ==> r == Route::Direct,
    {
        if class == CommandClass::Emergency {
            Route::Immediate
        } else if self.queue_enabled {
            Route::Enqueue
        } else {
            Route::Direct
        }
    }

    /// Index of the first queued entry of lower priority than `p`, or the length.
    fn insert_position(&self, p: ExecutionPriority) -> (pos: usize)
        requires
            self.wf(),
        ensures
            pos <= self.items@.len(),
            forall|i: int| 0 <= i < pos ==> rank(#[trigger] self.items@[i].priority) >= rank(p),
            forall|i: int|
                pos <= i < self.items@.len() ==> rank(#[trigger] self.items@[i].priority) < rank(p),
    {
        let n = self.items.len();
        let mut i: usize = 0;
        while i < n
            invariant
                n == self.items@.len(),
                self.wf(),
                i <= n,
                forall|k: int| 0 <= k < i ==> rank(#[trigger] self.items@[k].priority) >= rank(p),
            decreases n - i,
        {
            if self.items[i].priority.level() < p.level() {
                proof {
                    assert forall|k: int| i <= k < n implies rank(
                        #[trigger] self.items@[k].priority,
                    ) < rank(p) by {
                        if k > i {
                            assert(runs_before(self.items@[i as int], self.items@[k]));
                        }
                    }
                }
                return i;
            }
            i = i + 1;
        }
        i
    }

    /// Queues a submission behind every entry of its priority or higher and
    /// ahead of every entry of lower priority; returns where it went.
    pub fn enqueue(&mut self, id: u128, command: String) -> (pos: usize)
        requires
            old(self).wf(),
            old(self).next_arrival < u64::MAX,
        ensures
            final(self).wf(),
            final(self).current_execution == old(self).current_execution,
            final(self).queue_enabled == old(self).queue_enabled,
            final(self).next_arrival == old(self).next_arrival + 1,
            pos <= old(self).items@.len(),
            ({
                let class = class_of(command@);
                let e = QueuedExecution {
                    id,
                    command,
                    command_class: class,
                    priority: priority_of(class),
                    arrival: old(self).next_arrival,
                };
                final(self).items@ == old(self).items@.insert(pos as int, e)
            }),
            forall|i: int|
                0 <= i < pos ==> rank(#[trigger] old(self).items@[i].priority) >= rank(
                    priority_of(class_of(command@)),
                ),
            forall|i: int|
                pos <= i < old(self).items@.len() ==> rank(#[trigger] old(self).items@[i].priority)
                    < rank(priority_of(class_of(command@))),
    {
        let class = CommandClass::classify(command.as_str());
        let priority = class.to_priority();
        let pos = self.insert_position(priority);
        let e = QueuedExecution {
            id,
            command,
            command_class: class,
            priority,
            arrival: self.next_arrival,
        };
        let ghost old_items = self.items@;
        self.items.insert(pos, e);
        self.next_arrival = self.next_arrival + 1;
        proof {
            let items = self.items@;
            assert forall|i: int, j: int| 0 <= i < j < items.len() implies runs_before(
                #[trigger] items[i],
                #[trigger] items[j],
            ) by {
                if j < pos {
                    assert(items[i] == old_items[i] && items[j] == old_items[j]);
                } else if j == pos {
                    assert(items[i] == old_items[i]);
                } else if i < pos {
                    assert(items[i] == old_items[i] && items[j] == old_items[j - 1]);
                } else if i == pos {
                    assert(items[j] == old_items[j - 1]);
                } else {
                    assert(items[i] == old_items[i - 1] && items[j] == old_items[j - 1]);
                    assert(runs_before(old_items[i - 1], old_items[j - 1]));
                }
            }
            assert forall|i: int| 0 <= i < items.len() implies #[trigger] items[i].arrival
                < self.next_arrival by {
                if i < pos {
                    assert(items[i] == old_items[i]);
                } else if i > pos {
                    assert(items[i] == old_items[i - 1]);
                }
            }
        }
        pos
    }

    /// Takes the next submission to execute, when the queue is on, not
    /// empty and nothing is executing; it becomes the executing one.
    pub fn pop_next(&mut self) -> (r: Option<QueuedExecution>)
        requires
            old(self).wf(),
        ensures
            final(self).wf(),
            final(self).queue_enabled == old(self).queue_enabled,
            final(self).next_arrival == old(self).next_arrival,
            r is Some <==> (old(self).queue_enabled && old(self).items@.len() > 0
                && old(self).current_execution is None),
            r matches Some(e) ==> {
                &&& e == old(self).items@[0]
                &&& final(self).items@ == old(self).items@.drop_first()
                &&& final(self).current_execution == Some(e.id)
                &&& forall|j: int|
                    0 < j < old(self).items@.len() ==> runs_before(e, #[trigger] old(self).items@[j])
            },
            r is None ==> final(self).items@ == old(self).items@ && final(self).current_execution
                == old(self).current_execution,
    {
        if !self.queue_enabled || self.items.len() == 0 || self.current_execution.is_some() {
            return None;
        }
        let ghost old_items = self.items@;
        let e = self.items.remove(0);
        self.current_execution = Some(e.id);
        proof {
            assert(self.items@ =~= old_items.drop_first());
            assert forall|j: int| 0 < j < old_items.len() implies runs_before(
                e,
                #[trigger] old_items[j],
            ) by {
                assert(runs_before(old_items[0], old_items[j]));
            }
            assert forall|i: int, j: int| 0 <= i < j < self.items@.len() implies runs_before(
                #[trigger] self.items@[i],
                #[trigger] self.items@[j],
            ) by {
                assert(runs_before(old_items[i + 1], old_items[j + 1]));
            }
            assert forall|i: int| 0 <= i < self.items@.len() implies #[trigger] self.items@[i].arrival
                < self.next_arrival by {
                assert(self.items@[i] == old_items[i + 1]);
            }
        }
        Some(e)
    }

    /// The executing submission has finished; the slot is free.
    pub fn finish_current(&mut self)
        requires
            old(self).wf(),
        ensures
            final(self).wf(),
            final(self).items@ == old(self).items@,
            final(self).current_execution is None,
            final(self).queue_enabled == old(self).queue_enabled,
            final(self).next_arrival == old(self).next_arrival,
    {
        self.current_execution = None;
    }

    pub fn enable_queue(&mut self)
        requires
            old(self).wf(),
        ensures
            final(self).wf(),
            final(self).items@ == old(self).items@,
            final(self).current_execution == old(self).current_execution,
            final(self).queue_enabled,
            final(self).next_arrival == old(self).next_arrival,
    {
        self.queue_enabled = true;
    }

    /// Turns the queue off, dropping what waits and freeing the slot.
    pub fn disable_queue(&mut self)
        requires
            old(self).wf(),
        ensures
            final(self).wf(),
            final(self).items@.len() == 0,
            final(self).current_execution is None,
            !final(self).queue_enabled,
            final(self).next_arrival == old(self).next_arrival,
    {
        self.queue_enabled = false;
        self.items.clear();
        self.current_execution = None;
    }

    /// Drops every waiting submission; returns how many there were.
    pub fn clear_queue(&mut self) -> (n: usize)
        requires
            old(self).wf(),
        ensures
            final(self).wf(),
            n == old(self).items@.len(),
            final(self).items@.len() == 0,
            final(self).current_execution == old(self).current_execution,
            final(self).queue_enabled == old(self).queue_enabled,
            final(self).next_arrival == old(self).next_arrival,
    {
        let n = self.items.len();
        self.items.clear();
        n
    }

    fn count_of(&self, p: ExecutionPriority) -> (c: usize)
        ensures
            c == count_priority(self.items@, p),
    {
        let mut c: usize = 0;
        let mut i: usize = 0;
        while i < self.items.len()
            invariant
                i <= self.items@.len(),
                c == count_priority(self.items@.subrange(0, i as int), p),
                c <= i,
            decreases self.items@.len() - i,
        {
            proof {
                assert(self.items@.subrange(0, i + 1).drop_last() =~= self.items@.subrange(
                    0,
                    i as int,
                ));
            }
            if self.items[i].priority == p {
                c = c + 1;
            }
            i = i + 1;
        }
        proof {
            assert(self.items@.subrange(0, self.items@.len() as int) =~= self.items@);
        }
        c
    }

    /// The queue's size, its executing submission, and the count of each
    /// priority present, highest priority first.
    pub fn get_queue_state(&self) -> (st: QueueState)
        ensures
            st.total_queued == self.items@.len(),
            st.current_executing == self.current_execution,
            forall|k: int|
                0 <= k < st.queue_by_priority@.len() ==> {
                    let (p, c) = #[trigger] st.queue_by_priority@[k];
                    c == count_priority(self.items@, p) && c > 0
                },
            forall|i: int, j: int|
                0 <= i < j < st.queue_by_priority@.len() ==> rank(
                    (#[trigger] st.queue_by_priority@[i]).0,
                ) > rank((#[trigger] st.queue_by_priority@[j]).0),
            forall|p: ExecutionPriority|
                count_priority(self.items@, p) > 0 ==> exists|k: int|
                    0 <= k < st.queue_by_priority@.len() && (#[trigger] st.queue_by_priority@[k]).0
                        == p,
    {
        let mut by: Vec<(ExecutionPriority, usize)> = Vec::new();
        let ce = self.count_of(ExecutionPriority::Emergency);
        if ce > 0 {
            by.push((ExecutionPriority::Emergency, ce));
        }
        let ch = self.count_of(ExecutionPriority::High);
        if ch > 0 {
            by.push((ExecutionPriority::High, ch));
        }
        let cn = self.count_of(ExecutionPriority::Normal);
        if cn > 0 {
            by.push((ExecutionPriority::Normal, cn));
        }
        let cl = self.count_of(ExecutionPriority::Low);
        if cl > 0 {
            by.push((ExecutionPriority::Low, cl));
        }
        proof {
            assert forall|p: ExecutionPriority| count_priority(self.items@, p) > 0 implies exists|
                k: int,
            | 0 <= k < by@.len() && (#[trigger] by@[k]).0 == p by {
                match p {
                    ExecutionPriority::Emergency => {
                        assert(by@[0].0 == p);
                    },
                    ExecutionPriority::High => {
                        if ce > 0 {
                            assert(by@[1].0 == p);
                        } else {
                            assert(by@[0].0 == p);
                        }
                    },
                    ExecutionPriority::Normal => {
                        let k = (if ce > 0 { 1int } else { 0int }) + (if ch > 0 { 1int } else { 0int });
                        assert(by@[k].0 == p);
                    },
                    ExecutionPriority::Low => {
                        let k = (if ce > 0 { 1int } else { 0int }) + (if ch > 0 { 1int } else { 0int })
                            + (if cn > 0 { 1int } else { 0int });
                        assert(by@[k].0 == p);
                    },
                }
            }
        }
        QueueState {
            total_queued: self.items.len(),
            current_executing: self.current_execution,
            queue_by_priority: by,
        }
    }
}

/// Execution order of the queue: each submission taken runs before every
/// submission still waiting, so the order in which submissions leave the
/// queue is their order by descending priority and then by arrival.
pub proof fn lemma_next_runs_first(q: DispatchQueue)
    requires
        q.wf(),
    ensures
        forall|j: int| 0 < j < q.items@.len() ==> runs_before(q.items@[0], #[trigger] q.items@[j]),
        forall|i: int, j: int|
            0 <= i < j < q.items@.len() ==> !runs_before(#[trigger] q.items@[j], #[trigger] q.items@[i]),
{
    assert forall|i: int, j: int| 0 <= i < j < q.items@.len() implies !runs_before(
        #[trigger] q.items@[j],
        #[trigger] q.items@[i],
    ) by {
        assert(runs_before(q.items@[i], q.items@[j]));
    }
    assert forall|j: int| 0 < j < q.items@.len() implies runs_before(
        q.items@[0],
        #[trigger] q.items@[j],
    ) by {
        assert(runs_before(q.items@[0], q.items@[j]));
    }
}

/// Relies on `uuid::Uuid::new_v4`: a random version-4 UUID, whose version
/// nibble is 4 whatever the random bits were.
#[verifier::external_body]
fn new_submission_id() -> (id: u128)
    ensures
        (id >> 76u128) & 0xfu128 == 4,
{
    uuid::Uuid::new_v4().as_u128()
}

impl DispatchQueue {
    /// Queues `command` under a fresh random id, which it returns.
    pub fn submit(&mut self, command: String) -> (id: u128)
        requires
            old(self).wf(),
            old(self).next_arrival < u64::MAX,
        ensures
            final(self).wf(),
            final(self).items@.len() == old(self).items@.len() + 1,
            final(self).next_arrival == old(self).next_arrival + 1,
            exists|pos: int|
                0 <= pos <= old(self).items@.len() && final(self).items@ == old(self).items@.insert(
                    pos,
                    QueuedExecution {
                        id,
                        command,
                        command_class: class_of(command@),
                        priority: priority_of(class_of(command@)),
                        arrival: old(self).next_arrival,
                    },
                ),
    {
        let id = new_submission_id();
        let pos = self.enqueue(id, command);
        id
    }
}

} // verus!
