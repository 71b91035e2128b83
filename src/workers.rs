//! Workers that report into a log that their engine keeps.
use vstd::prelude::*;

verus! {

/// The character of the decimal digit `d`.
pub open spec fn digit_char(d: nat) -> char {
    seq!['0', '1', '2', '3', '4', '5', '6', '7', '8', '9'][d as int]
}

/// The decimal form of `n`, without leading zeros.
pub open spec fn decimal_of(n: nat) -> Seq<char>
    decreases n,
{
    if n < 10 {
        seq![digit_char(n)]
    } else {
        decimal_of(n / 10).push(digit_char(n % 10))
    }
}

/// The text of the digit `d`.
fn digit_str(d: usize) -> (r: &'static str)
    requires
        d < 10,
    ensures
        r@ == seq![digit_char(d as nat)],
{
    proof {
        reveal_strlit("0");
        reveal_strlit("1");
        reveal_strlit("2");
        reveal_strlit("3");
        reveal_strlit("4");
        reveal_strlit("5");
        reveal_strlit("6");
        reveal_strlit("7");
        reveal_strlit("8");
        reveal_strlit("9");
    }
    let r = if d == 0 {
        "0"
    } else if d == 1 {
        "1"
    } else if d == 2 {
        "2"
    } else if d == 3 {
        "3"
    } else if d == 4 {
        "4"
    } else if d == 5 {
        "5"
    } else if d == 6 {
        "6"
    } else if d == 7 {
        "7"
    } else if d == 8 {
        "8"
    } else {
        "9"
    };
    assert(r@ =~= seq![digit_char(d as nat)]);
    r
}

/// Appends the decimal form of `n` to `s`.
pub fn push_decimal(s: &mut String, n: usize)
    ensures
        final(s)@ == old(s)@ + decimal_of(n as nat),
    decreases n,
{
    if n >= 10 {
        push_decimal(s, n / 10);
    }
    s.append(digit_str(n % 10));
    proof {
        if n >= 10 {
            assert(decimal_of(n as nat) == decimal_of((n / 10) as nat).push(digit_char((n % 10) as nat)));
        }
    }
    assert(s@ =~= old(s)@ + decimal_of(n as nat));
}

/// The log entry of worker `id`.
pub open spec fn work_entry(id: nat) -> Seq<char> {
    "Worker "@ + decimal_of(id) + " did some work"@
}

pub open spec fn log_view(log: Seq<String>) -> Seq<Seq<char>> {
    log.map_values(|s: String| s@)
}

/// A worker, known by its id.
pub struct Worker {
    id: usize,
}

impl View for Worker {
    type V = usize;

    closed spec fn view(&self) -> usize {
        self.id
    }
}

impl Worker {
    /// The worker `id`.
    pub fn new(id: usize) -> (r: Worker)
        ensures
            r@ == id,
    {
        Worker { id }
    }

    /// Does some work and writes so to `log`.
    pub fn run(&self, log: &mut Vec<String>)
        ensures
            log_view(final(log)@) == log_view(old(log)@).push(work_entry(self@ as nat)),
    {
        let mut entry = String::from_str("Worker ");
        push_decimal(&mut entry, self.id);
        entry.append(" did some work");
        let ghost before = log@;
        log.push(entry);
        assert(log_view(log@) =~= log_view(before).push(work_entry(self@ as nat)));
    }
}

/// The entries that one round of the workers `ids` writes, in their order.
pub open spec fn round_entries(ids: Seq<usize>) -> Seq<Seq<char>> {
    ids.map_values(|id: usize| work_entry(id as nat))
}

/// An engine: its workers and the log they share.
pub struct Engine {
    log: Vec<String>,
    workers: Vec<Worker>,
}

/// The mathematical value of an `Engine`: its log and the ids of its workers.
pub struct EngineView {
    pub log: Seq<Seq<char>>,
    pub workers: Seq<usize>,
}

impl View for Engine {
    type V = EngineView;

    closed spec fn view(&self) -> EngineView {
        EngineView {
            log: log_view(self.log@),
            workers: self.workers@.map_values(|w: Worker| w@),
        }
    }
}

impl Engine {
    /// An engine with no workers and an empty log.
    pub fn new() -> (r: Engine)
        ensures
            r@.log.len() == 0,
            r@.workers.len() == 0,
    {
        let r = Engine { log: Vec::new(), workers: Vec::new() };
        assert(r@.log =~= Seq::<Seq<char>>::empty());
        r
    }

    /// Adds the worker `id`.
    pub fn add_worker(&mut self, id: usize)
        ensures
            final(self)@.log == old(self)@.log,
            final(self)@.workers == old(self)@.workers.push(id),
    {
        let ghost before = self.workers@;
        self.workers.push(Worker::new(id));
        assert(self.workers@.map_values(|w: Worker| w@) =~= before.map_values(|w: Worker| w@).push(id));
    }

    /// Lets every worker, in the order of their adding, do some work.
    pub fn run(&mut self)
        ensures
            final(self)@.workers == old(self)@.workers,
            final(self)@.log == old(self)@.log + round_entries(old(self)@.workers),
    {
        let ghost ids = self@.workers;
        let ghost start = self@.log;
        let mut i: usize = 0;
        while i < self.workers.len()
            invariant
                ids == self@.workers,
                i <= self.workers.len(),
                self@.log == start + round_entries(ids.take(i as int)),
            decreases self.workers.len() - i,
        {
            self.workers[i].run(&mut self.log);
            proof {
                assert(ids[i as int] == self.workers@[i as int]@);
                assert(round_entries(ids.take(i + 1)) =~= round_entries(ids.take(i as int)).push(
                    work_entry(ids[i as int] as nat),
                ));
                assert(self@.log =~= start + round_entries(ids.take(i + 1)));
            }
            i = i + 1;
        }
        proof {
            assert(ids.take(i as int) =~= ids);
        }
    }

    /// The log, oldest entry first.
    pub fn log(&self) -> (r: &Vec<String>)
        ensures
            log_view(r@) == self@.log,
    {
        &self.log
    }
}

} // verus!
