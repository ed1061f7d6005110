//! Pool statistics.

use vstd::prelude::*;
use vstd::string::StringExecFns;

use crate::routing::NUM_CLASSES;
use crate::size_class::SizeClass;
use crate::text::{decimal, push_decimal, push_right_aligned, right_aligned};

verus! {

/// The next value of a counter; after the largest number comes zero.
pub open spec fn next_count(n: u64) -> u64 {
    if n == u64::MAX {
        0
    } else {
        (n + 1) as u64
    }
}

/// Counters that track how requests were served.
#[derive(Debug)]
pub struct Counters {
    /// Requests for a buffer.
    pub gets: u64,
    /// Requests served from the thread's own cache.
    pub tls_hits: u64,
    /// Requests served from the shared pool by a batch refill.
    pub shared_hits: u64,
    /// Requests that needed a fresh allocation.
    pub allocations: u64,
    /// Buffers returned.
    pub puts: u64,
    /// Buffers discarded on return, too small or oversize.
    pub discards: u64,
    /// Requests too large for every class.
    pub oversize: u64,
}

impl Counters {
    /// All counters at zero.
    pub open spec fn zero() -> Counters {
        Counters {
            gets: 0,
            tls_hits: 0,
            shared_hits: 0,
            allocations: 0,
            puts: 0,
            discards: 0,
            oversize: 0,
        }
    }

    /// Starts all counters at zero.
    pub fn new() -> (counters: Counters)
        ensures
            counters == Counters::zero(),
    {
        Counters {
            gets: 0,
            tls_hits: 0,
            shared_hits: 0,
            allocations: 0,
            puts: 0,
            discards: 0,
            oversize: 0,
        }
    }

    /// Resets all counters to zero.
    pub fn reset(&mut self)
        ensures
            *final(self) == Counters::zero(),
    {
        self.gets = 0;
        self.tls_hits = 0;
        self.shared_hits = 0;
        self.allocations = 0;
        self.puts = 0;
        self.discards = 0;
        self.oversize = 0;
    }
}

/// Adds one to a counter.
pub fn bump(n: u64) -> (m: u64)
    ensures
        m == next_count(n),
{
    n.wrapping_add(1)
}

/// Snapshot of one size class.
#[derive(Debug, Clone, Copy)]
pub struct ClassInfo {
    /// Boundary of the class in bytes.
    pub boundary: usize,
    /// Buffers of the class in the shared pool.
    pub buffered: usize,
}

/// Snapshot of the statistics of a pool.
#[derive(Debug, Clone, Copy)]
pub struct PoolStats {
    /// Requests for a buffer.
    pub gets: u64,
    /// Requests served from a thread's own cache.
    pub tls_hits: u64,
    /// Requests served from the shared pool by a batch refill.
    pub shared_hits: u64,
    /// Requests that needed a fresh allocation.
    pub allocations: u64,
    /// Buffers returned.
    pub puts: u64,
    /// Buffers discarded on return, too small or oversize.
    pub discards: u64,
    /// Requests too large for every class.
    pub oversize: u64,
    /// The shared pool, class by class.
    pub classes: [ClassInfo; 8],
}

/// A size in bytes, in the largest unit of megabytes, kilobytes and bytes that it reaches,
/// rounded down.
pub open spec fn size_text(bytes: nat) -> Seq<char> {
    if bytes >= 1024 * 1024 {
        decimal(bytes / (1024 * 1024)) + "MB"@
    } else if bytes >= 1024 {
        decimal(bytes / 1024) + "KB"@
    } else {
        decimal(bytes) + "B"@
    }
}

/// The lines that describe the first `n` classes; an empty class has none.
pub open spec fn class_lines(classes: Seq<ClassInfo>, n: int) -> Seq<char>
    decreases n,
{
    if n <= 0 {
        Seq::empty()
    } else {
        let class = classes[n - 1];
        let before = class_lines(classes, n - 1);
        if class.buffered > 0 {
            before + "  ["@ + right_aligned(size_text(class.boundary as nat), 7) + "] "@ + decimal(
                class.buffered as nat,
            ) + " buffered\n"@
        } else {
            before
        }
    }
}

/// The whole description of a snapshot, with the two hit rates given as texts of percentages.
pub open spec fn stats_text(
    s: PoolStats,
    hit_rate: Seq<char>,
    tls_hit_rate: Seq<char>,
) -> Seq<char> {
    "gets: "@ + decimal(s.gets as nat) + " | puts: "@ + decimal(s.puts as nat) + " | hit_rate: "@
        + hit_rate + "%\n  tls_hits: "@ + decimal(s.tls_hits as nat) + " ("@ + tls_hit_rate
        + "%) | shared_hits: "@ + decimal(s.shared_hits as nat) + " | allocations: "@ + decimal(
        s.allocations as nat,
    ) + " | discards: "@ + decimal(s.discards as nat) + " | oversize: "@ + decimal(
        s.oversize as nat,
    ) + "\n"@ + class_lines(s.classes@, NUM_CLASSES as int)
}

impl PoolStats {
    /// The share of requests served from a thread's own cache, as hits out of requests; nothing
    /// when there was no request.
    pub fn tls_hit_ratio(&self) -> (ratio: Option<(u64, u64)>)
        ensures
            self.gets == 0 ==> ratio is None,
            self.gets != 0 ==> ratio == Some((self.tls_hits, self.gets)),
    {
        if self.gets == 0 {
            None
        } else {
            Some((self.tls_hits, self.gets))
        }
    }

    /// The share of requests served without a fresh allocation, as hits out of requests; nothing
    /// when there was no request.
    pub fn hit_ratio(&self) -> (ratio: Option<(u64, u64)>)
        requires
            self.tls_hits + self.shared_hits <= u64::MAX,
        ensures
            self.gets == 0 ==> ratio is None,
            self.gets != 0 ==> ratio == Some(
                ((self.tls_hits + self.shared_hits) as u64, self.gets),
            ),
    {
        if self.gets == 0 {
            None
        } else {
            Some((self.tls_hits + self.shared_hits, self.gets))
        }
    }

    /// Describes the snapshot. The hit rates are given as texts of percentages.
    pub fn render(&self, hit_rate: &str, tls_hit_rate: &str) -> (text: String)
        ensures
            text@ == stats_text(*self, hit_rate@, tls_hit_rate@),
    {
        let mut text = String::new();
        text.append("gets: ");
        push_decimal(&mut text, self.gets);
        text.append(" | puts: ");
        push_decimal(&mut text, self.puts);
        text.append(" | hit_rate: ");
        text.append(hit_rate);
        text.append("%\n  tls_hits: ");
        push_decimal(&mut text, self.tls_hits);
        text.append(" (");
        text.append(tls_hit_rate);
        text.append("%) | shared_hits: ");
        push_decimal(&mut text, self.shared_hits);
        text.append(" | allocations: ");
        push_decimal(&mut text, self.allocations);
        text.append(" | discards: ");
        push_decimal(&mut text, self.discards);
        text.append(" | oversize: ");
        push_decimal(&mut text, self.oversize);
        text.append("\n");
        let ghost head = text@;
        assert(head + class_lines(self.classes@, NUM_CLASSES as int) =~= stats_text(
            *self,
            hit_rate@,
            tls_hit_rate@,
        ));
        assert(text@ =~= head + class_lines(self.classes@, 0));
        let mut i: usize = 0;
        while i < NUM_CLASSES
            invariant
                i <= NUM_CLASSES,
                text@ == head + class_lines(self.classes@, i as int),
            decreases NUM_CLASSES - i,
        {
            if self.classes[i].buffered > 0 {
                text.append("  [");
                let size = format_size(self.classes[i].boundary);
                push_right_aligned(&mut text, size.as_str(), 7);
                text.append("] ");
                push_decimal(&mut text, self.classes[i].buffered as u64);
                text.append(" buffered\n");
            }
            i = i + 1;
            assert(text@ =~= head + class_lines(self.classes@, i as int));
        }
        text
    }
}

/// Describes a size in bytes.
pub fn format_size(bytes: usize) -> (text: String)
    ensures
        text@ == size_text(bytes as nat),
{
    let mut text = String::new();
    if bytes >= 1024 * 1024 {
        push_decimal(&mut text, (bytes / (1024 * 1024)) as u64);
        text.append("MB");
    } else if bytes >= 1024 {
        push_decimal(&mut text, (bytes / 1024) as u64);
        text.append("KB");
    } else {
        push_decimal(&mut text, bytes as u64);
        text.append("B");
    }
    assert(text@ =~= size_text(bytes as nat));
    text
}

/// Takes a snapshot of the counters and of up to eight classes; the entries of classes that are
/// not there are zero.
pub fn snapshot(counters: &Counters, classes: &[SizeClass]) -> (stats: PoolStats)
    requires
        classes@.len() <= NUM_CLASSES,
        forall|i: int| 0 <= i < classes@.len() ==> (#[trigger] classes@[i]).wf(),
    ensures
        stats.gets == counters.gets,
        stats.tls_hits == counters.tls_hits,
        stats.shared_hits == counters.shared_hits,
        stats.allocations == counters.allocations,
        stats.puts == counters.puts,
        stats.discards == counters.discards,
        stats.oversize == counters.oversize,
        forall|i: int|
            0 <= i < classes@.len() ==> {
                &&& (#[trigger] stats.classes[i]).boundary == classes@[i].boundary()
                &&& stats.classes[i].buffered == classes@[i].blocks().len()
            },
        forall|i: int|
            classes@.len() <= i < NUM_CLASSES ==> {
                &&& (#[trigger] stats.classes[i]).boundary == 0
                &&& stats.classes[i].buffered == 0
            },
{
    let mut class_info: [ClassInfo; 8] = [ClassInfo { boundary: 0, buffered: 0 };8];
    let mut i: usize = 0;
    while i < classes.len()
        invariant
            i <= classes@.len() <= NUM_CLASSES,
            forall|k: int| 0 <= k < classes@.len() ==> (#[trigger] classes@[k]).wf(),
            forall|k: int|
                i <= k < NUM_CLASSES ==> {
                    &&& (#[trigger] class_info[k]).boundary == 0
                    &&& class_info[k].buffered == 0
                },
            forall|k: int|
                0 <= k < i ==> {
                    &&& (#[trigger] class_info[k]).boundary == classes@[k].boundary()
                    &&& class_info[k].buffered == classes@[k].blocks().len()
                },
        decreases classes@.len() - i,
    {
        class_info[i] = ClassInfo { boundary: classes[i].class_size(), buffered: classes[i].len() };
        i = i + 1;
    }
    PoolStats {
        gets: counters.gets,
        tls_hits: counters.tls_hits,
        shared_hits: counters.shared_hits,
        allocations: counters.allocations,
        puts: counters.puts,
        discards: counters.discards,
        oversize: counters.oversize,
        classes: class_info,
    }
}

/// A counter goes up by one; after the largest number comes zero.
pub proof fn law_counters_go_up_by_one(n: u64)
    ensures
        n < u64::MAX ==> next_count(n) == n + 1,
        next_count(u64::MAX) == 0,
        next_count(n) != n,
{
}

/// A size is given as a whole number of megabytes, kilobytes or bytes, rounded down, in the largest
/// unit of which there is at least one.
pub proof fn law_sizes_are_rounded_down(bytes: nat)
    ensures
        bytes < 1024 ==> size_text(bytes) == decimal(bytes) + "B"@,
        1024 <= bytes < 1048576 ==> exists|n: nat|
            size_text(bytes) == #[trigger] decimal(n) + "KB"@ && 1024 * n <= bytes < 1024 * n
                + 1024,
        1048576 <= bytes ==> exists|n: nat|
            size_text(bytes) == #[trigger] decimal(n) + "MB"@ && 1048576 * n <= bytes < 1048576 * n
                + 1048576,
{
    if bytes >= 1048576 {
        let n = bytes / 1048576;
        assert(size_text(bytes) == decimal(n) + "MB"@);
    } else if bytes >= 1024 {
        let n = bytes / 1024;
        assert(size_text(bytes) == decimal(n) + "KB"@);
    }
}

/// A class with shared buffers has one line, with its size aligned in seven places and the number
/// of its buffers; an empty class has none. The lines stand in the order of the classes.
pub proof fn law_every_buffered_class_has_a_line(classes: Seq<ClassInfo>, n: int)
    requires
        0 <= n < classes.len(),
    ensures
        class_lines(classes, 0) == Seq::<char>::empty(),
        classes[n].buffered == 0 ==> class_lines(classes, n + 1) == class_lines(classes, n),
        classes[n].buffered > 0 ==> class_lines(classes, n + 1) == class_lines(classes, n) + ("  ["@
            + right_aligned(size_text(classes[n].boundary as nat), 7) + "] "@ + decimal(
            classes[n].buffered as nat,
        ) + " buffered\n"@),
{
    if classes[n].buffered > 0 {
        assert(class_lines(classes, n + 1) =~= class_lines(classes, n) + ("  ["@ + right_aligned(
            size_text(classes[n].boundary as nat),
            7,
        ) + "] "@ + decimal(classes[n].buffered as nat) + " buffered\n"@));
    }
}

/// The description of a snapshot gives every counter under its name, the two hit rates as
/// percentages, and then the lines of the eight classes.
pub proof fn law_description_names_every_counter(
    s: PoolStats,
    hit_rate: Seq<char>,
    tls_hit_rate: Seq<char>,
)
    ensures
        ({
            let first = "gets: "@ + decimal(s.gets as nat) + " | puts: "@ + decimal(s.puts as nat)
                + " | hit_rate: "@ + hit_rate + "%\n"@;
            let second = "  tls_hits: "@ + decimal(s.tls_hits as nat) + " ("@ + tls_hit_rate
                + "%) | shared_hits: "@ + decimal(s.shared_hits as nat) + " | allocations: "@
                + decimal(s.allocations as nat) + " | discards: "@ + decimal(s.discards as nat)
                + " | oversize: "@ + decimal(s.oversize as nat) + "\n"@;
            stats_text(s, hit_rate, tls_hit_rate) == first + second + class_lines(s.classes@, 8)
        }),
{
    let first = "gets: "@ + decimal(s.gets as nat) + " | puts: "@ + decimal(s.puts as nat)
        + " | hit_rate: "@ + hit_rate + "%\n"@;
    let second = "  tls_hits: "@ + decimal(s.tls_hits as nat) + " ("@ + tls_hit_rate
        + "%) | shared_hits: "@ + decimal(s.shared_hits as nat) + " | allocations: "@ + decimal(
        s.allocations as nat,
    ) + " | discards: "@ + decimal(s.discards as nat) + " | oversize: "@ + decimal(
        s.oversize as nat,
    ) + "\n"@;
    reveal_strlit("%\n  tls_hits: ");
    reveal_strlit("%\n");
    reveal_strlit("  tls_hits: ");
    assert("%\n  tls_hits: "@ =~= "%\n"@ + "  tls_hits: "@);
    assert(stats_text(s, hit_rate, tls_hit_rate) =~= first + second + class_lines(s.classes@, 8));
}

} // verus!
