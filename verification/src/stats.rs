//! What is told of a query once it ran, and while it runs.

use vstd::prelude::*;

use crate::text::{decimal, opt_text, push_decimal};

verus! {

/// What a query has read so far: arrays of coordinates and of data, and the bytes
/// from disk and into memory as they are shown. Where nobody counted what came from
/// disk, that is `None`.
#[derive(Debug)]
pub struct IoSummary {
    pub coord_arrays: u64,
    pub data_arrays: u64,
    pub disk: Option<String>,
    pub mem: String,
}

/// [`IoSummary`], over texts.
pub ghost struct IoView {
    pub arrays: nat,
    pub disk: Option<Seq<char>>,
    pub mem: Seq<char>,
}

impl View for IoSummary {
    type V = IoView;

    open spec fn view(&self) -> IoView {
        IoView {
            arrays: self.coord_arrays as nat + self.data_arrays as nat,
            disk: opt_text(self.disk),
            mem: self.mem@,
        }
    }
}

impl IoSummary {
    /// The number of arrays is one that can be counted.
    pub open spec fn countable(self) -> bool {
        self@.arrays <= u64::MAX
    }
}

/// `n` and what is counted, in the plural where `n` is not one.
pub open spec fn counted(n: nat, noun: Seq<char>) -> Seq<char> {
    if n == 1 {
        decimal(n) + noun
    } else {
        decimal(n) + noun + "s"@
    }
}

/// How bytes from disk are shown: as not available where they were not counted,
/// never as none.
pub open spec fn disk_text(disk: Option<Seq<char>>) -> Seq<char> {
    match disk {
        Some(bytes) => bytes,
        None => "n/a"@,
    }
}

/// What is told of a query that gave `rows` rows within `elapsed` seconds.
pub open spec fn stats_text(rows: nat, elapsed: Seq<char>, io: Option<IoView>) -> Seq<char> {
    let read = match io {
        Some(io) => " · "@ + counted(io.arrays, " array"@) + " · "@ + disk_text(io.disk)
            + " disk"@ + " · "@ + io.mem + " mem"@,
        None => seq![],
    };
    counted(rows, " row"@) + read + " · "@ + elapsed + "s"@
}

/// What is told of a query that is running: it overwrites the line that it is on.
pub open spec fn live_text(arrays: nat, disk: Option<Seq<char>>) -> Seq<char> {
    "\r"@ + counted(arrays, " array"@) + " · "@ + disk_text(disk) + " disk...\x1b[K"@
}

/// The view of what may be missing.
pub open spec fn opt_io(io: Option<IoSummary>) -> Option<IoView> {
    match io {
        Some(i) => Some(i@),
        None => None,
    }
}

/// Appends `n` and what is counted.
fn push_counted(s: &mut String, n: u64, noun: &str)
    ensures
        final(s)@ == old(s)@ + counted(n as nat, noun@),
{
    push_decimal(s, n);
    s.append(noun);
    if n != 1 {
        s.append("s");
    }
    assert(s@ =~= old(s)@ + counted(n as nat, noun@));
}

/// Appends how bytes from disk are shown.
fn push_disk(s: &mut String, disk: &Option<String>)
    ensures
        final(s)@ == old(s)@ + disk_text(opt_text(*disk)),
{
    match disk {
        Some(bytes) => s.append(bytes.as_str()),
        None => s.append("n/a"),
    }
}

/// The line of numbers under a result, such as
/// `5 rows · 3 arrays · 6.70 KB disk · 13.92 KB mem · 0.013s`.
pub fn stats_line(row_count: usize, elapsed: &str, io: &Option<IoSummary>) -> (s: String)
    requires
        io matches Some(i) ==> i.countable(),
    ensures
        s@ == stats_text(row_count as nat, elapsed@, opt_io(*io)),
{
    let mut s = String::new();
    push_counted(&mut s, row_count as u64, " row");
    if let Some(i) = io {
        s.append(" · ");
        push_counted(&mut s, i.coord_arrays + i.data_arrays, " array");
        s.append(" · ");
        push_disk(&mut s, &i.disk);
        s.append(" disk");
        s.append(" · ");
        s.append(i.mem.as_str());
        s.append(" mem");
    }
    s.append(" · ");
    s.append(elapsed);
    s.append("s");
    assert(s@ =~= stats_text(row_count as nat, elapsed@, opt_io(*io)));
    s
}

/// The line that a running query shows.
pub fn live_line(coord_arrays: u64, data_arrays: u64, disk: &Option<String>) -> (s: String)
    requires
        coord_arrays + data_arrays <= u64::MAX,
    ensures
        s@ == live_text(coord_arrays as nat + data_arrays as nat, opt_text(*disk)),
{
    let mut s = "\r".to_owned();
    push_counted(&mut s, coord_arrays + data_arrays, " array");
    s.append(" · ");
    push_disk(&mut s, disk);
    s.append(" disk...\x1b[K");
    s
}

/// The sum of `counts`.
pub open spec fn total(counts: Seq<usize>) -> nat
    decreases counts.len(),
{
    if counts.len() == 0 {
        0
    } else {
        total(counts.drop_last()) + counts.last() as nat
    }
}

proof fn lemma_total_prefix(counts: Seq<usize>, k: int)
    requires
        0 <= k <= counts.len(),
    ensures
        total(counts.take(k)) <= total(counts),
    decreases counts.len() - k,
{
    if k == counts.len() {
        assert(counts.take(k) =~= counts);
    } else {
        lemma_total_prefix(counts, k + 1);
        assert(counts.take(k + 1).drop_last() =~= counts.take(k));
    }
}

/// The rows of all batches together, where they can be counted.
pub fn total_rows(counts: &Vec<usize>) -> (r: Option<usize>)
    ensures
        match r {
            Some(n) => n == total(counts@),
            None => total(counts@) > usize::MAX,
        },
{
    let mut sum: usize = 0;
    let mut i: usize = 0;
    while i < counts.len()
        invariant
            i <= counts@.len(),
            sum == total(counts@.take(i as int)),
        decreases counts@.len() - i,
    {
        proof {
            assert(counts@.take(i + 1).drop_last() =~= counts@.take(i as int));
            lemma_total_prefix(counts@, i + 1);
        }
        match sum.checked_add(counts[i]) {
            Some(n) => {
                sum = n;
            },
            None => {
                return None;
            },
        }
        i = i + 1;
    }
    assert(counts@.take(i as int) =~= counts@);
    Some(sum)
}

/// A plan: what its root has read, where the root is one that counts that, and the
/// plans below it.
pub struct PlanNode<T> {
    pub stats: Option<T>,
    pub children: Vec<PlanNode<T>>,
}

/// The first of the counts in a plan, the root's before those below it and those of
/// a child before those of the next.
pub open spec fn first_stats<T>(node: PlanNode<T>) -> Option<T>
    decreases node, node.children@.len() + 2,
{
    match node.stats {
        Some(s) => Some(s),
        None => first_stats_from(node, 0),
    }
}

/// The first of the counts in the children from `i` on.
pub open spec fn first_stats_from<T>(node: PlanNode<T>, i: nat) -> Option<T>
    decreases node, node.children@.len() - i + 1,
    when i <= node.children@.len()
{
    if i == node.children@.len() {
        None
    } else {
        match first_stats(node.children@[i as int]) {
            Some(s) => Some(s),
            None => first_stats_from(node, i + 1),
        }
    }
}

/// Searches a plan for the first counts in it.
pub fn find_zarr_exec_stats<T>(node: &PlanNode<T>) -> (r: Option<&T>)
    ensures
        match r {
            Some(s) => first_stats(*node) == Some(*s),
            None => first_stats(*node) is None,
        },
    decreases *node,
{
    if let Some(s) = &node.stats {
        return Some(s);
    }
    let mut i: usize = 0;
    while i < node.children.len()
        invariant
            i <= node.children@.len(),
            node.stats is None,
            first_stats(*node) == first_stats_from(*node, i as nat),
        decreases node.children@.len() - i,
    {
        assert(decreases_to!(*node => node.children@[i as int]));
        match find_zarr_exec_stats(&node.children[i]) {
            Some(s) => {
                return Some(s);
            },
            None => {},
        }
        i = i + 1;
    }
    None
}

/// The counts of the node that `path` leads to: each number says which child to go
/// down to.
pub open spec fn stats_at<T>(node: PlanNode<T>, path: Seq<nat>) -> Option<T>
    decreases path.len(),
{
    if path.len() == 0 {
        node.stats
    } else if path[0] < node.children@.len() {
        stats_at(node.children@[path[0] as int], path.skip(1))
    } else {
        None
    }
}

/// Where any node of a plan has counts, the search finds some.
pub proof fn search_misses_nothing<T>(node: PlanNode<T>, path: Seq<nat>)
    requires
        stats_at(node, path) is Some,
    ensures
        first_stats(node) is Some,
    decreases path.len(),
{
    if path.len() > 0 && node.stats is None {
        search_misses_nothing(node.children@[path[0] as int], path.skip(1));
        lemma_found_from(node, 0, path[0]);
    }
}

proof fn lemma_found_from<T>(node: PlanNode<T>, i: nat, j: nat)
    requires
        i <= j < node.children@.len(),
        first_stats(node.children@[j as int]) is Some,
    ensures
        first_stats_from(node, i) is Some,
    decreases j - i,
{
    if i < j {
        lemma_found_from(node, i + 1, j);
    }
}

/// What the search finds are the counts of some node of the plan.
pub proof fn search_finds_a_node<T>(node: PlanNode<T>) -> (path: Seq<nat>)
    requires
        first_stats(node) is Some,
    ensures
        stats_at(node, path) == first_stats(node),
    decreases node, node.children@.len() + 2,
{
    if node.stats is Some {
        seq![]
    } else {
        lemma_path_from(node, 0)
    }
}

proof fn lemma_path_from<T>(node: PlanNode<T>, i: nat) -> (path: Seq<nat>)
    requires
        i <= node.children@.len(),
        first_stats_from(node, i) is Some,
    ensures
        stats_at(node, path) == first_stats_from(node, i),
    decreases node, node.children@.len() - i + 1,
{
    if first_stats(node.children@[i as int]) is Some {
        let below = search_finds_a_node(node.children@[i as int]);
        let path = seq![i] + below;
        assert(path.skip(1) =~= below);
        path
    } else {
        lemma_path_from(node, i + 1)
    }
}

/// The texts of `parts`, with a dot in the middle of the line between each and the next.
pub open spec fn dotted(parts: Seq<Seq<char>>) -> Seq<char>
    decreases parts.len(),
{
    if parts.len() == 0 {
        seq![]
    } else if parts.len() == 1 {
        parts[0]
    } else {
        dotted(parts.drop_last()) + " · "@ + parts.last()
    }
}

proof fn lemma_dotted_two(a: Seq<char>, b: Seq<char>)
    ensures
        dotted(seq![a, b]) == a + " · "@ + b,
{
    assert(seq![a, b].drop_last() =~= seq![a]);
    assert(dotted(seq![a]) == a);
}

/// A thing that is counted stands in the singular exactly where there is one of it, behind
/// its number.
pub proof fn one_is_the_singular(n: nat, noun: Seq<char>)
    ensures
        n == 1 ==> counted(n, noun) == decimal(1) + noun,
        n != 1 ==> counted(n, noun) == decimal(n) + noun + seq!['s'],
{
    reveal_strlit("s");
    assert("s"@ =~= seq!['s']);
}

/// The line under a result gives the rows first and the time last, and in between, exactly
/// where reads were counted, the arrays, the bytes from disk and the bytes in memory. Bytes
/// from disk that nobody counted are not available; they are never shown as none.
pub proof fn the_line_gives_rows_reads_and_time(
    rows: nat,
    elapsed: Seq<char>,
    arrays: nat,
    bytes: Seq<char>,
    mem: Seq<char>,
)
    ensures
        stats_text(rows, elapsed, None) == dotted(
            seq![counted(rows, " row"@), elapsed + "s"@],
        ),
        stats_text(rows, elapsed, Some(IoView { arrays, disk: Some(bytes), mem })) == dotted(
            seq![
                counted(rows, " row"@),
                counted(arrays, " array"@),
                bytes + " disk"@,
                mem + " mem"@,
                elapsed + "s"@,
            ],
        ),
        stats_text(rows, elapsed, Some(IoView { arrays, disk: None, mem })) == dotted(
            seq![
                counted(rows, " row"@),
                counted(arrays, " array"@),
                "n/a"@ + " disk"@,
                mem + " mem"@,
                elapsed + "s"@,
            ],
        ),
{
    let r = counted(rows, " row"@);
    let e = elapsed + "s"@;
    lemma_dotted_two(r, e);
    assert(stats_text(rows, elapsed, None) =~= r + " · "@ + e);
    lemma_dotted_reads(rows, elapsed, IoView { arrays, disk: Some(bytes), mem });
    lemma_dotted_reads(rows, elapsed, IoView { arrays, disk: None, mem });
}

proof fn lemma_dotted_reads(rows: nat, elapsed: Seq<char>, io: IoView)
    ensures
        stats_text(rows, elapsed, Some(io)) == dotted(
            seq![
                counted(rows, " row"@),
                counted(io.arrays, " array"@),
                disk_text(io.disk) + " disk"@,
                io.mem + " mem"@,
                elapsed + "s"@,
            ],
        ),
{
    let r = counted(rows, " row"@);
    let a = counted(io.arrays, " array"@);
    let d = disk_text(io.disk) + " disk"@;
    let m = io.mem + " mem"@;
    let e = elapsed + "s"@;
    assert(seq![r, a, d, m, e].drop_last() =~= seq![r, a, d, m]);
    assert(seq![r, a, d, m].drop_last() =~= seq![r, a, d]);
    assert(seq![r, a, d].drop_last() =~= seq![r, a]);
    assert(seq![r, a].drop_last() =~= seq![r]);
    let dot = " · "@;
    assert(dotted(seq![r]) == r);
    assert(dotted(seq![r, a]) == r + dot + a);
    assert(dotted(seq![r, a, d]) == r + dot + a + dot + d);
    assert(dotted(seq![r, a, d, m]) == r + dot + a + dot + d + dot + m);
    assert(stats_text(rows, elapsed, Some(io)) =~= r + dot + a + dot + d + dot + m + dot + e);
}

/// The line of a running query goes back to the line's start, gives arrays and bytes from
/// disk, and wipes what stood behind.
pub proof fn progress_gives_arrays_and_disk(arrays: nat, bytes: Seq<char>)
    ensures
        live_text(arrays, Some(bytes)) == seq!['\r'] + dotted(
            seq![counted(arrays, " array"@), bytes + " disk...\x1b[K"@],
        ),
        live_text(arrays, None) == seq!['\r'] + dotted(
            seq![counted(arrays, " array"@), "n/a"@ + " disk...\x1b[K"@],
        ),
{
    reveal_strlit("\r");
    assert("\r"@ =~= seq!['\r']);
    let a = counted(arrays, " array"@);
    let tail = " disk...\x1b[K"@;
    lemma_dotted_two(a, bytes + tail);
    lemma_dotted_two(a, "n/a"@ + tail);
    assert(live_text(arrays, Some(bytes)) =~= seq!['\r'] + (a + " · "@ + (bytes + tail)));
    assert(live_text(arrays, None) =~= seq!['\r'] + (a + " · "@ + ("n/a"@ + tail)));
}

/// Rows add up over batches: every batch counts, by all its rows.
pub proof fn rows_add_up(a: Seq<usize>, b: Seq<usize>, n: usize)
    ensures
        total(seq![]) == 0,
        total(seq![n]) == n,
        total(a + b) == total(a) + total(b),
    decreases b.len(),
{
    assert(seq![n].drop_last() =~= seq![]);
    assert(total(seq![n].drop_last()) == 0);
    if b.len() == 0 {
        assert(a + b =~= a);
    } else {
        assert((a + b).drop_last() =~= a + b.drop_last());
        assert((a + b).last() == b.last());
        rows_add_up(a, b.drop_last(), n);
    }
}

/// The search takes a plan's own counts before any below it, and else those of the first
/// child that has any, at whatever depth; without such a child it finds none.
pub proof fn search_goes_in_order<T>(node: PlanNode<T>, i: int)
    ensures
        node.stats is Some ==> first_stats(node) == node.stats,
        node.stats is None && 0 <= i < node.children@.len() && first_stats(
            node.children@[i],
        ) is Some && (forall|j: int|
            0 <= j < i ==> first_stats(#[trigger] node.children@[j]) is None) ==> first_stats(node)
            == first_stats(node.children@[i]),
        node.stats is None && (forall|j: int|
            0 <= j < node.children@.len() ==> first_stats(#[trigger] node.children@[j]) is None)
            ==> first_stats(node) is None,
{
    if node.stats is None {
        if 0 <= i < node.children@.len() && (forall|j: int|
            0 <= j < i ==> first_stats(#[trigger] node.children@[j]) is None) {
            lemma_skip_children(node, 0, i as nat);
        }
        if forall|j: int|
            0 <= j < node.children@.len() ==> first_stats(#[trigger] node.children@[j]) is None {
            lemma_skip_children(node, 0, node.children@.len());
        }
    }
}

proof fn lemma_skip_children<T>(node: PlanNode<T>, i: nat, k: nat)
    requires
        i <= k <= node.children@.len(),
        forall|j: int| i <= j < k ==> first_stats(#[trigger] node.children@[j]) is None,
    ensures
        first_stats_from(node, i) == first_stats_from(node, k),
    decreases k - i,
{
    if i < k {
        assert(first_stats(node.children@[i as int]) is None);
        lemma_skip_children(node, i + 1, k);
    }
}

/// The view of what was read counts both kinds of arrays and shows the bytes as they are.
pub proof fn reads_are_shown_whole(io: IoSummary)
    ensures
        io@.arrays == io.coord_arrays + io.data_arrays,
        io@.mem == io.mem@,
        io@.disk is None <==> io.disk is None,
        io.disk matches Some(b) ==> io@.disk == Some(b@),
        io.countable() <==> io.coord_arrays + io.data_arrays <= u64::MAX,
        opt_io(Some(io)) == Some(io@),
        opt_io(None) is None,
{
}

} // verus!
