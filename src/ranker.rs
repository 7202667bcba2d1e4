//! Selection of the processes that use the most CPU time.
//!
//! Processes are ordered by CPU usage, highest first; processes with equal
//! usage are ordered by name, in ascending order of the names' characters.
use vstd::prelude::*;

verus! {

/// One row of the process table: the process name and its CPU usage in
/// tenths of a percent.
pub struct Process {
    pub name: String,
    pub cpu_usage: u32,
}

impl View for Process {
    type V = (Seq<char>, u32);

    open spec fn view(&self) -> (Seq<char>, u32) {
        (self.name@, self.cpu_usage)
    }
}

/// The rows of a process table as plain values.
pub open spec fn entries(v: Seq<Process>) -> Seq<(Seq<char>, u32)> {
    v.map_values(|p: Process| p@)
}

/// Lexicographic order of names by the characters' code points; a proper
/// prefix comes first.
pub open spec fn name_lt(a: Seq<char>, b: Seq<char>) -> bool
    decreases a.len(),
{
    if a.len() == 0 {
        b.len() > 0
    } else if b.len() == 0 {
        false
    } else if (a[0] as u32) < (b[0] as u32) {
        true
    } else if a[0] == b[0] {
        name_lt(a.drop_first(), b.drop_first())
    } else {
        false
    }
}

/// Whether row `a` ranks strictly before row `b`.
pub open spec fn ranks_before(a: (Seq<char>, u32), b: (Seq<char>, u32)) -> bool {
    a.1 > b.1 || (a.1 == b.1 && name_lt(a.0, b.0))
}

/// No row of `s` ranks before a row that precedes it.
pub open spec fn is_ranked(s: Seq<(Seq<char>, u32)>) -> bool {
    forall|i: int, j: int| 0 <= i < j < s.len() ==> !ranks_before(#[trigger] s[j], #[trigger] s[i])
}

/// CPU usage never increases along `s`.
pub open spec fn cpu_descending(s: Seq<(Seq<char>, u32)>) -> bool {
    forall|i: int, j: int| 0 <= i < j < s.len() ==> #[trigger] s[i].1 >= #[trigger] s[j].1
}

/// `x` placed into the ranked rows `s`, after every row that it does not rank before.
pub open spec fn insert_ranked(s: Seq<(Seq<char>, u32)>, x: (Seq<char>, u32)) -> Seq<(Seq<char>, u32)>
    decreases s.len(),
{
    if s.len() == 0 {
        seq![x]
    } else if ranks_before(x, s[0]) {
        seq![x] + s
    } else {
        seq![s[0]] + insert_ranked(s.drop_first(), x)
    }
}

/// The rows of `s` in rank order; rows that rank equal keep their order.
pub open spec fn rank_all(s: Seq<(Seq<char>, u32)>) -> Seq<(Seq<char>, u32)>
    decreases s.len(),
{
    if s.len() == 0 {
        s
    } else {
        insert_ranked(rank_all(s.drop_last()), s.last())
    }
}

/// The first `n` rows of `s` in rank order, or all of them where there are fewer.
pub open spec fn top(s: Seq<(Seq<char>, u32)>, n: nat) -> Seq<(Seq<char>, u32)> {
    if n < s.len() {
        rank_all(s).take(n as int)
    } else {
        rank_all(s)
    }
}

proof fn lemma_name_lt_irreflexive(a: Seq<char>)
    ensures
        !name_lt(a, a),
    decreases a.len(),
{
    if a.len() > 0 {
        lemma_name_lt_irreflexive(a.drop_first());
    }
}

proof fn lemma_name_lt_transitive(a: Seq<char>, b: Seq<char>, c: Seq<char>)
    requires
        name_lt(a, b),
        name_lt(b, c),
    ensures
        name_lt(a, c),
    decreases a.len(),
{
    if a.len() > 0 && b.len() > 0 && c.len() > 0 && a[0] == b[0] && b[0] == c[0] {
        lemma_name_lt_transitive(a.drop_first(), b.drop_first(), c.drop_first());
    }
}

proof fn lemma_name_lt_asymmetric(a: Seq<char>, b: Seq<char>)
    requires
        name_lt(a, b),
    ensures
        !name_lt(b, a),
    decreases a.len(),
{
    if a.len() > 0 && b.len() > 0 && a[0] == b[0] {
        lemma_name_lt_asymmetric(a.drop_first(), b.drop_first());
    }
}

proof fn lemma_ranks_before_transitive(a: (Seq<char>, u32), b: (Seq<char>, u32), c: (Seq<char>, u32))
    requires
        ranks_before(a, b),
        ranks_before(b, c),
    ensures
        ranks_before(a, c),
{
    if a.1 == b.1 && b.1 == c.1 {
        lemma_name_lt_transitive(a.0, b.0, c.0);
    }
}

proof fn lemma_ranks_before_asymmetric(a: (Seq<char>, u32), b: (Seq<char>, u32))
    requires
        ranks_before(a, b),
    ensures
        !ranks_before(b, a),
{
    if a.1 == b.1 {
        lemma_name_lt_asymmetric(a.0, b.0);
    }
}

/// `insert_ranked` puts `x` at the first position whose row `x` ranks before.
proof fn lemma_insert_at(s: Seq<(Seq<char>, u32)>, x: (Seq<char>, u32), j: int)
    requires
        0 <= j <= s.len(),
        forall|k: int| 0 <= k < j ==> !ranks_before(x, #[trigger] s[k]),
        j < s.len() ==> ranks_before(x, s[j]),
    ensures
        insert_ranked(s, x) == s.insert(j, x),
    decreases s.len(),
{
    if s.len() == 0 {
        assert(s.insert(j, x) =~= seq![x]);
    } else if j == 0 {
        assert(s.insert(j, x) =~= seq![x] + s);
    } else {
        let t = s.drop_first();
        assert forall|k: int| 0 <= k < j - 1 implies !ranks_before(x, #[trigger] t[k]) by {
            assert(t[k] == s[k + 1]);
        }
        lemma_insert_at(t, x, j - 1);
        assert(s.insert(j, x) =~= seq![s[0]] + t.insert(j - 1, x));
    }
}

/// The position at which `insert_ranked` places `x`.
spec fn insert_pos(s: Seq<(Seq<char>, u32)>, x: (Seq<char>, u32)) -> int
    decreases s.len(),
{
    if s.len() == 0 || ranks_before(x, s[0]) {
        0
    } else {
        1 + insert_pos(s.drop_first(), x)
    }
}

proof fn lemma_insert_pos(s: Seq<(Seq<char>, u32)>, x: (Seq<char>, u32))
    ensures
        0 <= insert_pos(s, x) <= s.len(),
        forall|k: int| 0 <= k < insert_pos(s, x) ==> !ranks_before(x, #[trigger] s[k]),
        insert_pos(s, x) < s.len() ==> ranks_before(x, s[insert_pos(s, x)]),
        insert_ranked(s, x) == s.insert(insert_pos(s, x), x),
    decreases s.len(),
{
    if s.len() > 0 && !ranks_before(x, s[0]) {
        let t = s.drop_first();
        lemma_insert_pos(t, x);
        assert forall|k: int| 0 <= k < insert_pos(s, x) implies !ranks_before(x, #[trigger] s[k]) by {
            if k > 0 {
                assert(s[k] == t[k - 1]);
            }
        }
    }
    lemma_insert_at(s, x, insert_pos(s, x));
}

proof fn lemma_insert_keeps_ranked(s: Seq<(Seq<char>, u32)>, x: (Seq<char>, u32))
    requires
        is_ranked(s),
    ensures
        is_ranked(insert_ranked(s, x)),
        insert_ranked(s, x).len() == s.len() + 1,
{
    lemma_insert_pos(s, x);
    let j = insert_pos(s, x);
    let r = s.insert(j, x);
    assert forall|a: int, b: int| 0 <= a < b < r.len() implies !ranks_before(#[trigger] r[b], #[trigger] r[a]) by {
        if a < j && b == j {
        } else if a == j && b > j {
            // r[a] is x, r[b] is s[b - 1], and x ranks before s[j]
            if ranks_before(s[b - 1], x) {
                if b - 1 > j {
                    lemma_ranks_before_transitive(s[b - 1], x, s[j]);
                } else {
                    lemma_ranks_before_asymmetric(x, s[j]);
                }
            }
        } else if a < j && b > j {
            assert(r[a] == s[a] && r[b] == s[b - 1]);
        } else if b < j {
            assert(r[a] == s[a] && r[b] == s[b]);
        } else {
            assert(r[a] == s[a - 1] && r[b] == s[b - 1]);
        }
    }
}

/// `rank_all` keeps the number of rows and leaves them ranked.
pub proof fn lemma_rank_all(s: Seq<(Seq<char>, u32)>)
    ensures
        rank_all(s).len() == s.len(),
        is_ranked(rank_all(s)),
    decreases s.len(),
{
    if s.len() > 0 {
        lemma_rank_all(s.drop_last());
        lemma_insert_keeps_ranked(rank_all(s.drop_last()), s.last());
    }
}

/// Rows that are already ranked are left as they are.
pub proof fn lemma_rank_all_ranked(s: Seq<(Seq<char>, u32)>)
    requires
        is_ranked(s),
    ensures
        rank_all(s) == s,
    decreases s.len(),
{
    if s.len() > 0 {
        let t = s.drop_last();
        assert(is_ranked(t)) by {
            assert forall|i: int, j: int| 0 <= i < j < t.len() implies !ranks_before(#[trigger] t[j], #[trigger] t[i]) by {
                assert(t[i] == s[i] && t[j] == s[j]);
            }
        }
        lemma_rank_all_ranked(t);
        assert forall|k: int| 0 <= k < t.len() implies !ranks_before(s.last(), #[trigger] t[k]) by {
            assert(t[k] == s[k]);
        }
        lemma_insert_at(t, s.last(), t.len() as int);
        assert(t.insert(t.len() as int, s.last()) =~= s);
    }
}

/// A ranked sequence has CPU usage descending.
proof fn lemma_ranked_cpu_descending(s: Seq<(Seq<char>, u32)>)
    requires
        is_ranked(s),
    ensures
        cpu_descending(s),
{
    assert forall|i: int, j: int| 0 <= i < j < s.len() implies #[trigger] s[i].1 >= #[trigger] s[j].1 by {
        assert(!ranks_before(s[j], s[i]));
    }
}

/// The top rows: `min(n, s.len())` of them, ranked, with CPU usage descending.
pub proof fn lemma_top(s: Seq<(Seq<char>, u32)>, n: nat)
    ensures
        top(s, n).len() == if n < s.len() { n } else { s.len() },
        is_ranked(top(s, n)),
        cpu_descending(top(s, n)),
{
    lemma_rank_all(s);
    let r = top(s, n);
    assert forall|i: int, j: int| 0 <= i < j < r.len() implies !ranks_before(#[trigger] r[j], #[trigger] r[i]) by {
        assert(r[i] == rank_all(s)[i] && r[j] == rank_all(s)[j]);
    }
    lemma_ranked_cpu_descending(r);
}

/// Ranking the result of a ranking again, with the same count, changes nothing.
pub proof fn lemma_top_idempotent(s: Seq<(Seq<char>, u32)>, n: nat)
    ensures
        top(top(s, n), n) == top(s, n),
{
    lemma_top(s, n);
    lemma_rank_all_ranked(top(s, n));
}

/// Ranking reorders the rows; it neither drops nor adds any.
pub proof fn lemma_rank_all_permutes(s: Seq<(Seq<char>, u32)>)
    ensures
        rank_all(s).to_multiset() == s.to_multiset(),
    decreases s.len(),
{
    if s.len() > 0 {
        let t = s.drop_last();
        lemma_rank_all_permutes(t);
        lemma_rank_all(t);
        lemma_insert_pos(rank_all(t), s.last());
        vstd::seq_lib::to_multiset_insert(rank_all(t), insert_pos(rank_all(t), s.last()), s.last());
        vstd::seq_lib::to_multiset_build(t, s.last());
        assert(t.push(s.last()) =~= s);
    }
}

/// The top rows are rows of the table: each row is kept at most as often as
/// it occurs.
pub proof fn lemma_top_from_table(s: Seq<(Seq<char>, u32)>, n: nat)
    ensures
        top(s, n).to_multiset().subset_of(s.to_multiset()),
{
    broadcast use vstd::multiset::group_multiset_axioms;

    lemma_rank_all(s);
    lemma_rank_all_permutes(s);
    let r = rank_all(s);
    let k: int = if n < s.len() { n as int } else { s.len() as int };
    assert(r =~= r.take(k) + r.skip(k));
    vstd::seq_lib::lemma_multiset_commutative(r.take(k), r.skip(k));
    assert(top(s, n) =~= r.take(k));
}

/// Whether row `a` ranks strictly before row `b`.
fn ranks_before_exec(a: &Process, b: &Process) -> (r: bool)
    ensures
        r == ranks_before(a@, b@),
{
    a.cpu_usage > b.cpu_usage || (a.cpu_usage == b.cpu_usage && name_less(a.name.as_str(), b.name.as_str()))
}

/// Relies on `Ord for str`: strings are compared lexicographically, character
/// by character by code point, and a proper prefix is the lesser.
#[verifier::external_body]
fn name_less(a: &str, b: &str) -> (r: bool)
    ensures
        r == name_lt(a@, b@),
{
    a < b
}

/// The `max_processes` processes that use the most CPU time, highest first;
/// equal usage is ordered by name. Returns every process where there are fewer.
pub fn get_top_processes(processes: &Vec<Process>, max_processes: usize) -> (r: Vec<Process>)
    ensures
        entries(r@) == top(entries(processes@), max_processes as nat),
        r.len() == if max_processes < processes.len() { max_processes as int } else { processes.len() as int },
        cpu_descending(entries(r@)),
        entries(r@).to_multiset().subset_of(entries(processes@).to_multiset()),
        max_processes == 0 ==> r.len() == 0,
{
    proof {
        lemma_top_from_table(entries(processes@), max_processes as nat);
    }
    let mut ranked: Vec<Process> = Vec::new();
    if max_processes == 0 {
        proof {
            lemma_top(entries(processes@), 0);
            assert(entries(ranked@) =~= top(entries(processes@), 0));
        }
        return ranked;
    }
    let mut i: usize = 0;
    while i < processes.len()
        invariant
            0 <= i <= processes.len(),
            entries(ranked@) == rank_all(entries(processes@).take(i as int)),
        decreases processes.len() - i,
    {
        let p = Process { name: processes[i].name.clone(), cpu_usage: processes[i].cpu_usage };
        let ghost done = entries(ranked@);
        let mut j: usize = 0;
        while j < ranked.len() && !ranks_before_exec(&p, &ranked[j])
            invariant
                0 <= j <= ranked.len(),
                entries(ranked@) == done,
                forall|k: int| 0 <= k < j ==> !ranks_before(p@, #[trigger] done[k]),
            decreases ranked.len() - j,
        {
            j = j + 1;
        }
        proof {
            lemma_insert_at(done, p@, j as int);
            let s = entries(processes@).take(i as int + 1);
            assert(s.drop_last() =~= entries(processes@).take(i as int));
            assert(s.last() == p@);
        }
        ranked.insert(j, p);
        proof {
            assert(entries(ranked@) =~= done.insert(j as int, p@));
        }
        i = i + 1;
    }
    proof {
        assert(entries(processes@).take(processes.len() as int) =~= entries(processes@));
        lemma_rank_all(entries(processes@));
    }
    ranked.truncate(max_processes);
    proof {
        lemma_top(entries(processes@), max_processes as nat);
        assert(entries(ranked@) =~= top(entries(processes@), max_processes as nat));
    }
    ranked
}

} // verus!
