//! Per-core counter samples, their histories, and the usage derived from
//! them.

use vstd::prelude::*;
use crate::text::{parse_u64, parsed_u64, split_words, words};
use crate::usage::{blend, compute_usage, interpolate, lemma_blend_between, usage_ratio, UNIT};

verus! {

/// One snapshot of the cumulative time counters of one core.
#[derive(Debug)]
pub struct CPUSample {
    pub cpu_id: Vec<u8>,
    pub user: u64,
    pub nice: u64,
    pub system: u64,
    pub idle: u64,
    pub iowait: u64,
    pub irq: u64,
    pub softirq: u64,
    pub steal: u64,
    pub guest: u64,
    pub guest_nice: u64,
    pub captured_at: u64,
}

/// What a `CPUSample` holds, as plain values.
pub struct SampleView {
    pub cpu_id: Seq<u8>,
    pub user: u64,
    pub nice: u64,
    pub system: u64,
    pub idle: u64,
    pub iowait: u64,
    pub irq: u64,
    pub softirq: u64,
    pub steal: u64,
    pub guest: u64,
    pub guest_nice: u64,
    pub captured_at: u64,
}

impl SampleView {
    /// The sum of all ten counters.
    pub open spec fn total(self) -> int {
        self.user + self.nice + self.system + self.idle + self.iowait + self.irq + self.softirq
            + self.steal + self.guest + self.guest_nice
    }

    /// The ticks spent idle or waiting for I/O.
    pub open spec fn idle(self) -> int {
        self.idle + self.iowait
    }

    /// The usage between the `older` sample and this one, in millionths.
    pub open spec fn usage_since(self, older: SampleView, fallback: int) -> int {
        usage_ratio(self.total() - older.total(), self.idle() - older.idle(), fallback)
    }
}

impl View for CPUSample {
    type V = SampleView;

    open spec fn view(&self) -> SampleView {
        SampleView {
            cpu_id: self.cpu_id@,
            user: self.user,
            nice: self.nice,
            system: self.system,
            idle: self.idle,
            iowait: self.iowait,
            irq: self.irq,
            softirq: self.softirq,
            steal: self.steal,
            guest: self.guest,
            guest_nice: self.guest_nice,
            captured_at: self.captured_at,
        }
    }
}

impl CPUSample {
    /// The sum of all ten counters.
    pub fn total(&self) -> (r: u128)
        ensures
            r == self@.total(),
    {
        self.user as u128 + self.nice as u128 + self.system as u128 + self.idle as u128
            + self.iowait as u128 + self.irq as u128 + self.softirq as u128 + self.steal as u128
            + self.guest as u128 + self.guest_nice as u128
    }

    /// The ticks spent idle or waiting for I/O.
    pub fn idle(&self) -> (r: u128)
        ensures
            r == self@.idle(),
    {
        self.idle as u128 + self.iowait as u128
    }

    /// The share of the ticks between `other`, the older sample, and this
    /// one that were not idle, in millionths. Where no ticks elapsed or the
    /// counters ran backwards, the result is `fallback`, limited to `UNIT`.
    pub fn usage(&self, other: &Self, fallback: u64) -> (r: u64)
        ensures
            r == self@.usage_since(other@, fallback as int),
            r <= UNIT,
    {
        compute_usage(self.total(), other.total(), self.idle(), other.idle(), fallback)
    }
}

/// Whether the word names one core: it starts with `cpu` and goes on.
pub open spec fn is_core_id(word: Seq<u8>) -> bool {
    word.len() > 3 && word[0] == 99 && word[1] == 112 && word[2] == 117
}

/// Whether the words at positions 1 to 10 of `w` each write a number.
pub open spec fn ten_numbers(w: Seq<Seq<u8>>) -> bool {
    forall|k: int| 1 <= k <= 10 ==> (#[trigger] parsed_u64(w[k])).is_some()
}

/// The sample that one row of the counter table writes: the name of a
/// core, then ten numbers. `None` for the aggregate row, for a row that
/// names no core, and for one without ten numbers after the name.
pub open spec fn parsed_row(row: Seq<u8>, captured_at: u64) -> Option<SampleView> {
    let w = words(row);
    if w.len() >= 11 && is_core_id(w[0]) && ten_numbers(w) {
        Some(
            SampleView {
                cpu_id: w[0],
                user: parsed_u64(w[1]).unwrap(),
                nice: parsed_u64(w[2]).unwrap(),
                system: parsed_u64(w[3]).unwrap(),
                idle: parsed_u64(w[4]).unwrap(),
                iowait: parsed_u64(w[5]).unwrap(),
                irq: parsed_u64(w[6]).unwrap(),
                softirq: parsed_u64(w[7]).unwrap(),
                steal: parsed_u64(w[8]).unwrap(),
                guest: parsed_u64(w[9]).unwrap(),
                guest_nice: parsed_u64(w[10]).unwrap(),
                captured_at,
            },
        )
    } else {
        None
    }
}

/// Tests whether `word` names one core.
pub fn names_core(word: &[u8]) -> (r: bool)
    ensures
        r == is_core_id(word@),
{
    word.len() > 3 && word[0] == 99 && word[1] == 112 && word[2] == 117
}

/// Reads the numbers at positions 1 to 10 of `w`, or `None` where one of
/// these words writes no number.
fn read_counters(w: &Vec<Vec<u8>>) -> (r: Option<Vec<u64>>)
    requires
        w@.len() >= 11,
    ensures
        match r {
            Some(v) => v@.len() == 10 && forall|k: int|
                1 <= k <= 10 ==> parsed_u64(#[trigger] w@[k]@) == Some(v@[k - 1]),
            None => exists|k: int| 1 <= k <= 10 && parsed_u64(#[trigger] w@[k]@).is_none(),
        },
{
    let mut out: Vec<u64> = Vec::new();
    let mut k: usize = 1;
    while k <= 10
        invariant
            1 <= k <= 11,
            w@.len() >= 11,
            out@.len() == k - 1,
            forall|j: int| 1 <= j < k ==> parsed_u64(#[trigger] w@[j]@) == Some(out@[j - 1]),
        decreases 11 - k,
    {
        match parse_u64(w[k].as_slice()) {
            Some(v) => {
                out.push(v);
            },
            None => {
                return None;
            },
        }
        k = k + 1;
    }
    Some(out)
}

/// Reads one row of the counter table, taken at `captured_at`.
pub fn parse_row(row: &[u8], captured_at: u64) -> (r: Option<CPUSample>)
    ensures
        match r {
            Some(s) => parsed_row(row@, captured_at) == Some(s@),
            None => parsed_row(row@, captured_at).is_none(),
        },
{
    let mut w: Vec<Vec<u8>> = split_words(row);
    if w.len() < 11 {
        return None;
    }
    let ghost ws = words(row@);
    if !names_core(w[0].as_slice()) {
        return None;
    }
    let numbers: Vec<u64> = match read_counters(&w) {
        Some(v) => v,
        None => {
            return None;
        },
    };
    proof {
        assert forall|k: int| 1 <= k <= 10 implies (#[trigger] parsed_u64(ws[k])).is_some() by {
            assert(parsed_u64(w@[k]@) == Some(numbers@[k - 1]));
        }
        assert(parsed_u64(w@[1]@) == Some(numbers@[0]));
        assert(parsed_u64(w@[2]@) == Some(numbers@[1]));
        assert(parsed_u64(w@[3]@) == Some(numbers@[2]));
        assert(parsed_u64(w@[4]@) == Some(numbers@[3]));
        assert(parsed_u64(w@[5]@) == Some(numbers@[4]));
        assert(parsed_u64(w@[6]@) == Some(numbers@[5]));
        assert(parsed_u64(w@[7]@) == Some(numbers@[6]));
        assert(parsed_u64(w@[8]@) == Some(numbers@[7]));
        assert(parsed_u64(w@[9]@) == Some(numbers@[8]));
        assert(parsed_u64(w@[10]@) == Some(numbers@[9]));
        assert(w@[0]@ == ws[0]);
    }
    let cpu_id: Vec<u8> = w.swap_remove(0);
    Some(
        CPUSample {
            cpu_id,
            user: numbers[0],
            nice: numbers[1],
            system: numbers[2],
            idle: numbers[3],
            iowait: numbers[4],
            irq: numbers[5],
            softirq: numbers[6],
            steal: numbers[7],
            guest: numbers[8],
            guest_nice: numbers[9],
            captured_at,
        },
    )
}

/// The samples of one core, oldest first, as plain values.
pub struct HistoryView {
    pub core_id: Seq<u8>,
    pub samples: Seq<SampleView>,
}

impl HistoryView {
    /// Whether the core has samples enough for a previous and a current
    /// usage: three or more.
    pub open spec fn eligible(self) -> bool {
        self.samples.len() >= 3
    }

    /// The usage over the last two samples.
    pub open spec fn last_usage(self) -> int {
        usage_after(self.samples)
    }

    /// The usage over the two samples before the last.
    pub open spec fn prev_usage(self) -> int {
        usage_after(self.samples.drop_last())
    }
}

/// The usage that a history of samples ends with: the usage between its
/// last two samples, falling back on the usage that the history without
/// its last sample ends with. It is 0 while there are fewer than two
/// samples.
pub open spec fn usage_after(samples: Seq<SampleView>) -> int
    decreases samples.len(),
{
    if samples.len() < 2 {
        0
    } else {
        samples[samples.len() - 1].usage_since(
            samples[samples.len() - 2],
            usage_after(samples.drop_last()),
        )
    }
}

/// The position of the first history of the core `id`, or the number of
/// histories where there is none.
pub open spec fn index_of(cores: Seq<HistoryView>, id: Seq<u8>) -> int
    decreases cores.len(),
{
    if cores.len() == 0 {
        0
    } else if cores[0].core_id == id {
        0
    } else {
        1 + index_of(cores.drop_first(), id)
    }
}

/// The histories after one more sample: appended to the history of its
/// core, or starting a new history behind the others.
pub open spec fn recorded(cores: Seq<HistoryView>, s: SampleView) -> Seq<HistoryView> {
    let i = index_of(cores, s.cpu_id);
    if 0 <= i < cores.len() {
        cores.update(i, HistoryView { core_id: s.cpu_id, samples: cores[i].samples.push(s) })
    } else {
        cores.push(HistoryView { core_id: s.cpu_id, samples: seq![s] })
    }
}

/// The length of the first line of `text`, its line feed not counted.
pub open spec fn line_len(text: Seq<u8>) -> nat
    decreases text.len(),
{
    if text.len() > 0 && text[0] != 10 {
        1 + line_len(text.drop_first())
    } else {
        0
    }
}

/// The histories after the rows of `text` were read line by line, each
/// row that writes a sample recorded and every other row passed over.
pub open spec fn sampled(cores: Seq<HistoryView>, text: Seq<u8>, captured_at: u64) -> Seq<
    HistoryView,
>
    decreases text.len(),
{
    if text.len() == 0 {
        cores
    } else {
        let n = line_len(text) as int;
        let next = match parsed_row(text.subrange(0, n), captured_at) {
            Some(s) => recorded(cores, s),
            None => cores,
        };
        if n < text.len() {
            sampled(next, text.subrange(n + 1, text.len() as int), captured_at)
        } else {
            next
        }
    }
}

/// The blended usage of each eligible core, in the order of the
/// histories; the other cores are left out.
pub open spec fn interpolated(cores: Seq<HistoryView>, progress: int) -> Seq<u64>
    decreases cores.len(),
{
    if cores.len() == 0 {
        Seq::empty()
    } else {
        let before = interpolated(cores.drop_last(), progress);
        let core = cores.last();
        if core.eligible() {
            before.push(blend(core.prev_usage(), core.last_usage(), progress) as u64)
        } else {
            before
        }
    }
}

/// Whether no two histories belong to the same core.
pub open spec fn distinct_cores(cores: Seq<HistoryView>) -> bool {
    forall|i: int, j: int|
        0 <= i < cores.len() && 0 <= j < cores.len() && i != j ==> (#[trigger] cores[i]).core_id
            != (#[trigger] cores[j]).core_id
}

/// What is kept of the samples of one core: the newest sample, how many
/// there were, and the two usage values last computed. Older samples are
/// not kept; the history as a whole is known to the proofs only.
pub struct CoreHistory {
    last: CPUSample,
    seen: u64,
    prev_usage: u64,
    last_usage: u64,
    samples: Ghost<Seq<SampleView>>,
}

impl View for CoreHistory {
    type V = HistoryView;

    closed spec fn view(&self) -> HistoryView {
        HistoryView { core_id: self.samples@[0].cpu_id, samples: self.samples@ }
    }
}

impl CoreHistory {
    /// The history holds a sample, all its samples are of one core, the
    /// newest is the one kept, and the count and the two usage values are
    /// those of its samples.
    pub closed spec fn wf(&self) -> bool {
        &&& self.samples@.len() >= 1
        &&& forall|k: int|
            0 <= k < self.samples@.len() ==> (#[trigger] self.samples@[k]).cpu_id
                == self.samples@[0].cpu_id
        &&& self.last@ == self.samples@.last()
        &&& self.seen == counted(self.samples@.len())
        &&& self.last_usage == self@.last_usage()
        &&& self.prev_usage == self@.prev_usage()
    }
}

/// A number of samples as it is counted: up to the greatest 64-bit number
/// and no further.
pub open spec fn counted(n: nat) -> u64 {
    if n <= u64::MAX {
        n as u64
    } else {
        u64::MAX
    }
}

/// The sample histories of all cores seen so far, in the order in which
/// the cores were first seen.
pub struct CPUMetrics {
    cores: Vec<CoreHistory>,
}

impl View for CPUMetrics {
    type V = Seq<HistoryView>;

    closed spec fn view(&self) -> Seq<HistoryView> {
        self.cores@.map_values(|h: CoreHistory| h@)
    }
}

/// Tests two byte strings for equality.
pub fn same_bytes(a: &[u8], b: &[u8]) -> (r: bool)
    ensures
        r == (a@ == b@),
{
    if a.len() != b.len() {
        return false;
    }
    let mut i: usize = 0;
    while i < a.len()
        invariant
            i <= a@.len(),
            a@.len() == b@.len(),
            forall|k: int| 0 <= k < i ==> a@[k] == b@[k],
        decreases a@.len() - i,
    {
        if a[i] != b[i] {
            return false;
        }
        i = i + 1;
    }
    assert(a@ =~= b@);
    true
}

/// Every usage that a history ends with is a ratio.
pub proof fn lemma_usage_after_in_range(samples: Seq<SampleView>)
    ensures
        0 <= usage_after(samples) <= UNIT,
{
}

/// Where the histories before position `i` are of other cores, the first
/// history of the core is at `i` if that one is of the core, and there is
/// none if `i` is the number of histories.
pub proof fn lemma_index_of(cores: Seq<HistoryView>, id: Seq<u8>, i: int)
    requires
        0 <= i <= cores.len(),
        forall|k: int| 0 <= k < i ==> (#[trigger] cores[k]).core_id != id,
        i < cores.len() ==> cores[i].core_id == id,
    ensures
        index_of(cores, id) == i,
    decreases i,
{
    if i > 0 {
        let rest = cores.drop_first();
        assert(cores[0].core_id != id);
        assert forall|k: int| 0 <= k < i - 1 implies (#[trigger] rest[k]).core_id != id by {
            assert(rest[k] == cores[k + 1]);
        }
        lemma_index_of(rest, id, i - 1);
    }
}

/// The position that `index_of` gives is within bounds, the history there
/// is of the core, and no history before it is.
pub proof fn lemma_index_of_found(cores: Seq<HistoryView>, id: Seq<u8>)
    ensures
        0 <= index_of(cores, id) <= cores.len(),
        index_of(cores, id) < cores.len() ==> cores[index_of(cores, id)].core_id == id,
        forall|k: int| 0 <= k < index_of(cores, id) ==> (#[trigger] cores[k]).core_id != id,
    decreases cores.len(),
{
    if cores.len() > 0 && cores[0].core_id != id {
        let rest = cores.drop_first();
        lemma_index_of_found(rest, id);
        assert forall|k: int| 0 <= k < index_of(cores, id) implies (#[trigger] cores[k]).core_id
            != id by {
            if k > 0 {
                assert(cores[k] == rest[k - 1]);
            }
        }
    }
}

impl CPUMetrics {
    /// Every history is well formed, and no two are of the same core.
    pub closed spec fn wf(&self) -> bool {
        &&& forall|i: int| 0 <= i < self.cores@.len() ==> (#[trigger] self.cores@[i]).wf()
        &&& distinct_cores(self@)
    }

    /// No histories.
    pub fn new() -> (r: CPUMetrics)
        ensures
            r.wf(),
            r@ == Seq::<HistoryView>::empty(),
    {
        let r = CPUMetrics { cores: Vec::new() };
        assert(r@ =~= Seq::<HistoryView>::empty());
        r
    }

    /// The number of cores seen so far.
    pub fn ncpus(&self) -> (r: usize)
        ensures
            r == self@.len(),
    {
        self.cores.len()
    }

    /// The number of samples recorded for the core `cpu_id`, counted up
    /// to the greatest 64-bit number.
    pub fn sample_count(&self, cpu_id: &[u8]) -> (r: u64)
        requires
            self.wf(),
        ensures
            index_of(self@, cpu_id@) < self@.len() ==> r == counted(
                self@[index_of(self@, cpu_id@)].samples.len(),
            ),
            index_of(self@, cpu_id@) >= self@.len() ==> r == 0,
    {
        let i: usize = self.find(cpu_id);
        if i < self.cores.len() {
            assert(self.cores@[i as int].wf());
            self.cores[i].seen
        } else {
            0
        }
    }

    /// The position of the history of the core `cpu_id`.
    fn find(&self, cpu_id: &[u8]) -> (r: usize)
        requires
            self.wf(),
        ensures
            r == index_of(self@, cpu_id@),
            r <= self@.len(),
            self@.len() == self.cores@.len(),
    {
        let mut i: usize = 0;
        while i < self.cores.len()
            invariant
                self.wf(),
                i <= self.cores@.len(),
                self@.len() == self.cores@.len(),
                forall|k: int| 0 <= k < i ==> (#[trigger] self@[k]).core_id != cpu_id@,
            decreases self.cores@.len() - i,
        {
            assert(self.cores@[i as int].wf());
            if same_bytes(self.cores[i].last.cpu_id.as_slice(), cpu_id) {
                proof {
                    assert(self@[i as int].core_id == cpu_id@);
                    lemma_index_of(self@, cpu_id@, i as int);
                }
                return i;
            }
            assert(self@[i as int].core_id != cpu_id@);
            i = i + 1;
        }
        proof {
            lemma_index_of(self@, cpu_id@, i as int);
        }
        i
    }

    /// Appends `sample` to the history of its core; a core not seen before
    /// gets a history of its own, behind the others.
    pub fn record(&mut self, sample: CPUSample)
        requires
            old(self).wf(),
        ensures
            final(self).wf(),
            final(self)@ == recorded(old(self)@, sample@),
    {
        let i: usize = self.find(sample.cpu_id.as_slice());
        let ghost before = self@;
        let ghost s = sample@;
        let ghost old_cores = self.cores@;
        proof {
            lemma_index_of_found(before, s.cpu_id);
        }
        if i < self.cores.len() {
            assert(self.cores@[i as int].wf());
            let history = &mut self.cores[i];
            let ghost old_samples = history.samples@;
            let usage: u64 = sample.usage(&history.last, history.last_usage);
            history.prev_usage = history.last_usage;
            history.last_usage = usage;
            history.last = sample;
            if history.seen < u64::MAX {
                history.seen = history.seen + 1;
            }
            history.samples = Ghost(old_samples.push(s));
            proof {
                let now = self.cores@[i as int];
                assert(now.samples@ == old_samples.push(s));
                assert(now.samples@.drop_last() =~= old_samples);
                assert(now.samples@[0] == old_samples[0]);
                assert(before[i as int].core_id == s.cpu_id);
                assert forall|k: int| 0 <= k < now.samples@.len() implies (
                #[trigger] now.samples@[k]).cpu_id == now.samples@[0].cpu_id by {
                    if k < old_samples.len() {
                        assert(now.samples@[k] == old_samples[k]);
                    }
                }
                assert(now.wf());
            }
        } else {
            let samples: Ghost<Seq<SampleView>> = Ghost(Seq::empty().push(s));
            let history = CoreHistory { last: sample, seen: 1, prev_usage: 0, last_usage: 0, samples };
            proof {
                assert(history.samples@ =~= seq![s]);
                assert(history.samples@.drop_last().len() == 0);
                assert(history.wf());
            }
            self.cores.push(history);
        }
        proof {
            assert forall|j: int| 0 <= j < self.cores@.len() implies (
            #[trigger] self.cores@[j]).wf() by {
                if j != i {
                    assert(self.cores@[j] == old_cores[j]);
                }
            }
            assert(self@ =~= recorded(before, s)) by {
                assert forall|j: int| 0 <= j < self@.len() implies self@[j] == recorded(
                    before,
                    s,
                )[j] by {
                    if j != i {
                        assert(self.cores@[j] == old_cores[j]);
                    }
                }
            }
            assert forall|a: int, b: int|
                0 <= a < self@.len() && 0 <= b < self@.len() && a != b implies (
            #[trigger] self@[a]).core_id != (#[trigger] self@[b]).core_id by {
                if a < before.len() {
                    assert(self@[a].core_id == before[a].core_id);
                }
                if b < before.len() {
                    assert(self@[b].core_id == before[b].core_id);
                }
            }
        }
    }

    /// Reads the counter table `table`, taken at `captured_at`, line by
    /// line, and records the sample of every row that writes one. Rows
    /// that write none are passed over.
    pub fn sample(&mut self, table: &[u8], captured_at: u64)
        requires
            old(self).wf(),
        ensures
            final(self).wf(),
            final(self)@ == sampled(old(self)@, table@, captured_at),
    {
        let n: usize = table.len();
        let mut pos: usize = 0;
        assert(table@.subrange(0, n as int) =~= table@);
        while pos < n
            invariant
                self.wf(),
                pos <= n,
                n == table@.len(),
                sampled(old(self)@, table@, captured_at) == sampled(
                    self@,
                    table@.subrange(pos as int, n as int),
                    captured_at,
                ),
            decreases n - pos,
        {
            let ghost rest = table@.subrange(pos as int, n as int);
            let mut end: usize = pos;
            assert(rest.subrange(0, rest.len() as int) =~= rest);
            while end < n && table[end] != 10
                invariant
                    pos <= end <= n,
                    n == table@.len(),
                    rest == table@.subrange(pos as int, n as int),
                    line_len(rest) == (end - pos) + line_len(
                        rest.subrange(end - pos, rest.len() as int),
                    ),
                decreases n - end,
            {
                proof {
                    let tail = rest.subrange(end - pos, rest.len() as int);
                    assert(tail[0] == table@[end as int]);
                    assert(tail.drop_first() =~= rest.subrange(end - pos + 1, rest.len() as int));
                }
                end = end + 1;
            }
            proof {
                let tail = rest.subrange(end - pos, rest.len() as int);
                if end < n {
                    assert(tail[0] == table@[end as int]);
                }
                assert(line_len(tail) == 0);
                assert(rest.subrange(0, end - pos) =~= table@.subrange(pos as int, end as int));
                if end < n {
                    assert(rest.subrange(end - pos + 1, rest.len() as int) =~= table@.subrange(
                        end + 1,
                        n as int,
                    ));
                } else {
                    assert(table@.subrange(n as int, n as int).len() == 0);
                }
            }
            let row: &[u8] = vstd::slice::slice_subrange(table, pos, end);
            match parse_row(row, captured_at) {
                Some(s) => {
                    self.record(s);
                },
                None => {},
            }
            pos = if end < n {
                end + 1
            } else {
                end
            };
        }
        proof {
            assert(table@.subrange(n as int, n as int).len() == 0);
        }
    }

    /// The usage of each core with three or more samples, `progress`
    /// millionths of the way from its previous usage to its last one, in
    /// the order in which the cores were first seen. Cores with fewer
    /// samples are left out. A `progress` beyond `UNIT` counts as `UNIT`.
    pub fn interpolate_usage(&self, progress: u64) -> (r: Vec<u64>)
        requires
            self.wf(),
        ensures
            r@ == interpolated(self@, progress as int),
            r@.len() <= self@.len(),
            forall|k: int| 0 <= k < r@.len() ==> #[trigger] r@[k] <= UNIT,
    {
        let mut out: Vec<u64> = Vec::new();
        let mut i: usize = 0;
        assert(self@.subrange(0, 0) =~= Seq::<HistoryView>::empty());
        while i < self.cores.len()
            invariant
                self.wf(),
                i <= self.cores@.len(),
                self@.len() == self.cores@.len(),
                out@ == interpolated(self@.subrange(0, i as int), progress as int),
                out@.len() <= i,
                forall|k: int| 0 <= k < out@.len() ==> #[trigger] out@[k] <= UNIT,
            decreases self.cores@.len() - i,
        {
            let history = &self.cores[i];
            proof {
                assert(history.wf());
                let upto = self@.subrange(0, i + 1);
                assert(upto.drop_last() =~= self@.subrange(0, i as int));
                assert(upto.last() == history@);
                lemma_usage_after_in_range(history@.samples);
                lemma_usage_after_in_range(history@.samples.drop_last());
                lemma_blend_between(
                    history@.prev_usage(),
                    history@.last_usage(),
                    progress as int,
                );
            }
            if history.seen >= 3 {
                let value: u64 = interpolate(history.prev_usage, history.last_usage, progress);
                out.push(value);
            }
            i = i + 1;
        }
        assert(self@.subrange(0, i as int) =~= self@);
        out
    }
}

impl Default for CPUMetrics {
    fn default() -> (r: CPUMetrics)
        ensures
            r.wf(),
            r@ == Seq::<HistoryView>::empty(),
    {
        CPUMetrics::new()
    }
}

/// A core becomes eligible exactly with its third sample: recording a
/// sample makes its core eligible if and only if the core had two samples
/// or more before, and changes the eligibility of no other core.
pub proof fn lemma_eligible_on_third_sample(cores: Seq<HistoryView>, s: SampleView)
    ensures
        ({
            let i = index_of(cores, s.cpu_id);
            let after = recorded(cores, s);
            &&& 0 <= i <= cores.len()
            &&& after.len() == if i < cores.len() {
                cores.len()
            } else {
                cores.len() + 1
            }
            &&& after[i].core_id == s.cpu_id
            &&& i < cores.len() ==> (after[i].eligible() <==> cores[i].samples.len() >= 2)
            &&& i == cores.len() ==> !after[i].eligible()
            &&& forall|j: int| 0 <= j < cores.len() && j != i ==> #[trigger] after[j] == cores[j]
        }),
{
    lemma_index_of_found(cores, s.cpu_id);
}

} // verus!
