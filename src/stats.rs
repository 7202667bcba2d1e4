//! The snapshot of host metrics and its two renderings.
use vstd::prelude::*;
use vstd::string::StringExecFns;
use crate::ranker::{entries, get_top_processes, top, Process};
use crate::redact::{redact_username, shown_username};
use crate::text::{
    decimal, push_decimal, push_rounded, push_signed_rounded, push_signed_tenths, push_tenths,
    round_tenths, signed_tenths_text, signed_whole_text, tenths_text,
};

verus! {

/// The metrics read from the host on one tick. Percentages and temperatures
/// are in tenths of a unit.
pub struct Reading {
    pub cpu_temp: Option<i32>,
    pub cpu_usage: Option<u32>,
    pub mem_usage: u32,
    pub processes: Vec<Process>,
    pub timestamp: String,
}

/// The metrics of the latest tick and the identity of the host.
///
/// Percentages are in tenths of a percent, the CPU temperature in tenths of a
/// degree Celsius. An absent metric is `None`, never zero.
pub struct Stats {
    pub cpu_temp: Option<i32>,
    pub cpu_usage: Option<u32>,
    pub mem_usage: u32,
    pub timestamp: String,
    pub hostname: String,
    pub username: String,
    pub os: String,
    pub platform: String,
    pub top_processes: Vec<Process>,
}

/// The JSON string literal that serde_json writes for a text.
pub uninterp spec fn json_string(s: Seq<char>) -> Seq<char>;

/// Relies on serde_json's `to_string` on a `str`: the text as a JSON string
/// literal. It writes into memory, which does not fail.
#[verifier::external_body]
fn json_quote(s: &str) -> (r: String)
    ensures
        r@ == json_string(s@),
{
    serde_json::to_string(s).unwrap_or_default()
}

/// A percentage rounded to a whole number, or `N/A`.
pub open spec fn cpu_text(c: Option<u32>) -> Seq<char> {
    match c {
        Some(t) => decimal(round_tenths(t as nat)) + "%"@,
        None => "N/A"@,
    }
}

/// A temperature rounded to whole degrees with a `C`, or `N/A`.
pub open spec fn temp_text(c: Option<i32>) -> Seq<char> {
    match c {
        Some(t) => signed_whole_text(t as int) + "C"@,
        None => "N/A"@,
    }
}

/// One process as `name (P.P%)`.
pub open spec fn process_text(p: (Seq<char>, u32)) -> Seq<char> {
    p.0 + " ("@ + tenths_text(p.1 as nat) + "%)"@
}

/// The processes, each as `name (P.P%)`, separated by commas.
pub open spec fn processes_text(ps: Seq<(Seq<char>, u32)>) -> Seq<char>
    decreases ps.len(),
{
    if ps.len() == 0 {
        Seq::empty()
    } else if ps.len() == 1 {
        process_text(ps[0])
    } else {
        processes_text(ps.drop_last()) + ","@ + process_text(ps.last())
    }
}

/// The plain rendering: the fields in a fixed order, separated by `, `.
pub open spec fn plain_text(s: Stats) -> Seq<char> {
    s.hostname@ + ", "@ + s.username@ + ", "@ + s.timestamp@ + ", "@ + s.platform@ + ", "@ + s.os@
        + ", "@ + cpu_text(s.cpu_usage) + ", "@ + temp_text(s.cpu_temp) + ", "@ + decimal(
        round_tenths(s.mem_usage as nat),
    ) + "%"@ + ", "@ + processes_text(entries(s.top_processes@))
}

/// A JSON number of tenths with one decimal place, or `null`.
pub open spec fn json_signed(c: Option<i32>) -> Seq<char> {
    match c {
        Some(t) => signed_tenths_text(t as int),
        None => "null"@,
    }
}

/// A JSON number of tenths with one decimal place, or `null`.
pub open spec fn json_unsigned(c: Option<u32>) -> Seq<char> {
    match c {
        Some(t) => tenths_text(t as nat),
        None => "null"@,
    }
}

/// One process as a JSON object.
pub open spec fn json_process(p: (Seq<char>, u32)) -> Seq<char> {
    "{\"name\":"@ + json_string(p.0) + ",\"cpu_usage\":"@ + tenths_text(p.1 as nat) + "}"@
}

/// The processes as the members of a JSON array.
pub open spec fn json_processes(ps: Seq<(Seq<char>, u32)>) -> Seq<char>
    decreases ps.len(),
{
    if ps.len() == 0 {
        Seq::empty()
    } else if ps.len() == 1 {
        json_process(ps[0])
    } else {
        json_processes(ps.drop_last()) + ","@ + json_process(ps.last())
    }
}

/// The JSON rendering: one object on one line, absent metrics as `null`.
pub open spec fn json_text(s: Stats) -> Seq<char> {
    "{\"cpu_temp\":"@ + json_signed(s.cpu_temp) + ",\"cpu_usage\":"@ + json_unsigned(s.cpu_usage)
        + ",\"mem_usage\":"@ + tenths_text(s.mem_usage as nat) + ",\"timestamp\":"@ + json_string(
        s.timestamp@,
    ) + ",\"hostname\":"@ + json_string(s.hostname@) + ",\"username\":"@ + json_string(
        s.username@,
    ) + ",\"os\":"@ + json_string(s.os@) + ",\"platform\":"@ + json_string(s.platform@)
        + ",\"top_processes\":["@ + json_processes(entries(s.top_processes@)) + "]}"@
}

/// `new` is `old` after a tick that took in `reading`, keeping at most
/// `max_processes` processes.
pub open spec fn ticked(old: Stats, new: Stats, max_processes: usize, reading: Reading) -> bool {
    &&& new.cpu_temp == reading.cpu_temp
    &&& new.cpu_usage == reading.cpu_usage
    &&& new.mem_usage == reading.mem_usage
    &&& new.timestamp@ == reading.timestamp@
    &&& entries(new.top_processes@) == top(entries(reading.processes@), max_processes as nat)
    &&& new.hostname == old.hostname
    &&& new.username == old.username
    &&& new.os == old.os
    &&& new.platform == old.platform
}

/// The number of times `c` occurs in `s`.
pub open spec fn count_char(s: Seq<char>, c: char) -> nat
    decreases s.len(),
{
    if s.len() == 0 {
        0
    } else {
        count_char(s.drop_last(), c) + if s.last() == c { 1nat } else { 0nat }
    }
}

proof fn lemma_count_concat(a: Seq<char>, b: Seq<char>, c: char)
    ensures
        count_char(a + b, c) == count_char(a, c) + count_char(b, c),
    decreases b.len(),
{
    if b.len() > 0 {
        lemma_count_concat(a, b.drop_last(), c);
        assert((a + b).drop_last() =~= a + b.drop_last());
    } else {
        assert(a + b =~= a);
    }
}

proof fn lemma_count_absent(s: Seq<char>, c: char)
    requires
        forall|i: int| 0 <= i < s.len() ==> s[i] != c,
    ensures
        count_char(s, c) == 0,
    decreases s.len(),
{
    if s.len() > 0 {
        lemma_count_absent(s.drop_last(), c);
    }
}

proof fn lemma_decimal_no_comma(n: nat)
    ensures
        count_char(decimal(n), ',') == 0,
    decreases n,
{
    if n >= 10 {
        lemma_decimal_no_comma(n / 10);
        lemma_count_concat(decimal(n / 10), seq![crate::text::digit_char(n % 10)], ',');
        lemma_count_absent(seq![crate::text::digit_char(n % 10)], ',');
        assert(decimal(n / 10).push(crate::text::digit_char(n % 10)) =~= decimal(n / 10) + seq![
            crate::text::digit_char(n % 10),
        ]);
    } else {
        lemma_count_absent(decimal(n), ',');
    }
}

/// The plain rendering has exactly eight top-level separators, so nine
/// fields, whichever metrics are absent: the commas in it are the eight
/// separators and those inside the process list, as long as the identity
/// fields and the timestamp hold no comma.
pub proof fn lemma_plain_fields(s: Stats)
    requires
        count_char(s.hostname@, ',') == 0,
        count_char(s.username@, ',') == 0,
        count_char(s.timestamp@, ',') == 0,
        count_char(s.platform@, ',') == 0,
        count_char(s.os@, ',') == 0,
    ensures
        count_char(plain_text(s), ',') == 8 + count_char(processes_text(entries(s.top_processes@)), ','),
{
    reveal_strlit(", ");
    reveal_strlit("%");
    reveal_strlit("N/A");
    reveal_strlit("C");
    let sep = ", "@;
    assert(count_char(sep, ',') == 1) by {
        let t = seq![','];
        assert(sep =~= seq![',', ' ']);
        assert(seq![',', ' '].drop_last() =~= t);
        assert(t.drop_last() =~= Seq::<char>::empty());
        assert(count_char(Seq::<char>::empty(), ',') == 0);
        assert(count_char(t, ',') == 1);
    }
    lemma_count_absent("%"@, ',');
    lemma_count_absent("N/A"@, ',');
    lemma_count_absent("C"@, ',');
    lemma_count_absent(seq!['-'], ',');
    let cpu = cpu_text(s.cpu_usage);
    let temp = temp_text(s.cpu_temp);
    let mem = decimal(round_tenths(s.mem_usage as nat)) + "%"@;
    lemma_decimal_no_comma(round_tenths(s.mem_usage as nat));
    lemma_count_concat(decimal(round_tenths(s.mem_usage as nat)), "%"@, ',');
    assert(count_char(cpu, ',') == 0) by {
        if let Some(t) = s.cpu_usage {
            lemma_decimal_no_comma(round_tenths(t as nat));
            lemma_count_concat(decimal(round_tenths(t as nat)), "%"@, ',');
        }
    }
    assert(count_char(temp, ',') == 0) by {
        if let Some(t) = s.cpu_temp {
            let m = if t < 0 { round_tenths((-t) as nat) } else { round_tenths(t as nat) };
            lemma_decimal_no_comma(m);
            if t < 0 {
                lemma_count_concat(seq!['-'], decimal(m), ',');
            }
            lemma_count_concat(signed_whole_text(t as int), "C"@, ',');
        }
    }
    let procs = processes_text(entries(s.top_processes@));
    let a0 = s.hostname@;
    lemma_count_concat(a0, sep, ',');
    let a1 = a0 + sep;
    lemma_count_concat(a1, s.username@, ',');
    let a2 = a1 + s.username@;
    lemma_count_concat(a2, sep, ',');
    let a3 = a2 + sep;
    lemma_count_concat(a3, s.timestamp@, ',');
    let a4 = a3 + s.timestamp@;
    lemma_count_concat(a4, sep, ',');
    let a5 = a4 + sep;
    lemma_count_concat(a5, s.platform@, ',');
    let a6 = a5 + s.platform@;
    lemma_count_concat(a6, sep, ',');
    let a7 = a6 + sep;
    lemma_count_concat(a7, s.os@, ',');
    let a8 = a7 + s.os@;
    lemma_count_concat(a8, sep, ',');
    let a9 = a8 + sep;
    lemma_count_concat(a9, cpu, ',');
    let a10 = a9 + cpu;
    lemma_count_concat(a10, sep, ',');
    let a11 = a10 + sep;
    lemma_count_concat(a11, temp, ',');
    let a12 = a11 + temp;
    lemma_count_concat(a12, sep, ',');
    let a13 = a12 + sep;
    lemma_count_concat(a13, mem, ',');
    let a14 = a13 + mem;
    lemma_count_concat(a14, sep, ',');
    let a15 = a14 + sep;
    lemma_count_concat(a15, procs, ',');
    let a16 = a15 + procs;
    assert(a16 =~= plain_text(s));
}

/// In the process list the commas are exactly the separators between
/// entries, as long as no process name holds a comma.
pub proof fn lemma_process_list_commas(ps: Seq<(Seq<char>, u32)>)
    requires
        forall|i: int| 0 <= i < ps.len() ==> count_char(#[trigger] ps[i].0, ',') == 0,
    ensures
        count_char(processes_text(ps), ',') == if ps.len() == 0 { 0 } else { (ps.len() - 1) as nat },
    decreases ps.len(),
{
    reveal_strlit(",");
    if ps.len() == 0 {
        assert(count_char(Seq::<char>::empty(), ',') == 0);
    } else {
        let last = ps.last();
        assert(count_char(process_text(last), ',') == 0) by {
            reveal_strlit(" (");
            reveal_strlit("%)");
            lemma_count_absent(" ("@, ',');
            lemma_count_absent("%)"@, ',');
            lemma_count_absent(seq!['.'], ',');
            lemma_count_absent(seq![crate::text::digit_char(last.1 as nat % 10)], ',');
            lemma_decimal_no_comma(last.1 as nat / 10);
            let d = decimal(last.1 as nat / 10);
            lemma_count_concat(d, seq!['.'], ',');
            lemma_count_concat(d + seq!['.'], seq![crate::text::digit_char(last.1 as nat % 10)], ',');
            let t = tenths_text(last.1 as nat);
            lemma_count_concat(last.0, " ("@, ',');
            lemma_count_concat(last.0 + " ("@, t, ',');
            lemma_count_concat(last.0 + " ("@ + t, "%)"@, ',');
        }
        if ps.len() > 1 {
            let init = ps.drop_last();
            assert forall|i: int| 0 <= i < init.len() implies count_char(#[trigger] init[i].0, ',') == 0 by {
                assert(init[i] == ps[i]);
            }
            lemma_process_list_commas(init);
            assert(count_char(","@, ',') == 1) by {
                assert(","@.drop_last() =~= Seq::<char>::empty());
                assert(count_char(Seq::<char>::empty(), ',') == 0);
            }
            lemma_count_concat(processes_text(init), ","@, ',');
            lemma_count_concat(processes_text(init) + ","@, process_text(last), ',');
        }
    }
}

impl Stats {
    /// A sampler's state before its first tick: the host's identity, with the
    /// user name redacted when `hash_pii` is set, and no metrics yet.
    pub fn create(hash_pii: bool, username: String, hostname: String, platform: String, os: String) -> (r: Stats)
        ensures
            r.username@ == shown_username(username@, hash_pii),
            r.hostname@ == hostname@,
            r.platform@ == platform@,
            r.os@ == os@,
            r.cpu_temp is None,
            r.cpu_usage is None,
            r.mem_usage == 0,
            r.timestamp@.len() == 0,
            r.top_processes.len() == 0,
    {
        let username = redact_username(username, hash_pii);
        Stats {
            cpu_temp: None,
            cpu_usage: None,
            mem_usage: 0,
            timestamp: String::new(),
            hostname,
            username,
            os,
            platform,
            top_processes: Vec::new(),
        }
    }

    /// Takes in the metrics of a new tick, keeping the `max_processes`
    /// processes that use the most CPU time. The identity is left as it was.
    pub fn tick(&mut self, max_processes: usize, reading: Reading)
        ensures
            ticked(*old(self), *final(self), max_processes, reading),
    {
        self.top_processes = get_top_processes(&reading.processes, max_processes);
        self.cpu_temp = reading.cpu_temp;
        self.cpu_usage = reading.cpu_usage;
        self.mem_usage = reading.mem_usage;
        self.timestamp = reading.timestamp;
    }

    /// The plain rendering of the snapshot.
    pub fn to_string(&self) -> (r: String)
        ensures
            r@ == plain_text(*self),
    {
        let mut out = String::new();
        out.append(self.hostname.as_str());
        out.append(", ");
        out.append(self.username.as_str());
        out.append(", ");
        out.append(self.timestamp.as_str());
        out.append(", ");
        out.append(self.platform.as_str());
        out.append(", ");
        out.append(self.os.as_str());
        out.append(", ");
        match self.cpu_usage {
            Some(c) => {
                push_rounded(&mut out, c);
                out.append("%");
            },
            None => out.append("N/A"),
        }
        out.append(", ");
        match self.cpu_temp {
            Some(t) => {
                push_signed_rounded(&mut out, t);
                out.append("C");
            },
            None => out.append("N/A"),
        }
        out.append(", ");
        push_rounded(&mut out, self.mem_usage);
        out.append("%");
        out.append(", ");
        let ghost head = out@;
        let ghost ps = entries(self.top_processes@);
        let mut i: usize = 0;
        while i < self.top_processes.len()
            invariant
                0 <= i <= self.top_processes.len(),
                ps == entries(self.top_processes@),
                out@ == head + processes_text(ps.take(i as int)),
            decreases self.top_processes.len() - i,
        {
            let p = &self.top_processes[i];
            if i > 0 {
                out.append(",");
            }
            out.append(p.name.as_str());
            out.append(" (");
            push_tenths(&mut out, p.cpu_usage as u64);
            out.append("%)");
            proof {
                let t = ps.take(i as int + 1);
                assert(t.drop_last() =~= ps.take(i as int));
                assert(t.last() == p@);
                if i == 0 {
                    assert(ps.take(0) =~= Seq::<(Seq<char>, u32)>::empty());
                }
            }
            i = i + 1;
        }
        proof {
            assert(ps.take(ps.len() as int) =~= ps);
        }
        out
    }

    /// The JSON rendering of the snapshot.
    pub fn to_json(&self) -> (r: String)
        ensures
            r@ == json_text(*self),
    {
        let mut out = String::new();
        out.append("{\"cpu_temp\":");
        match self.cpu_temp {
            Some(t) => push_signed_tenths(&mut out, t),
            None => out.append("null"),
        }
        out.append(",\"cpu_usage\":");
        match self.cpu_usage {
            Some(c) => push_tenths(&mut out, c as u64),
            None => out.append("null"),
        }
        out.append(",\"mem_usage\":");
        push_tenths(&mut out, self.mem_usage as u64);
        out.append(",\"timestamp\":");
        out.append(json_quote(self.timestamp.as_str()).as_str());
        out.append(",\"hostname\":");
        out.append(json_quote(self.hostname.as_str()).as_str());
        out.append(",\"username\":");
        out.append(json_quote(self.username.as_str()).as_str());
        out.append(",\"os\":");
        out.append(json_quote(self.os.as_str()).as_str());
        out.append(",\"platform\":");
        out.append(json_quote(self.platform.as_str()).as_str());
        out.append(",\"top_processes\":[");
        let ghost head = out@;
        let ghost ps = entries(self.top_processes@);
        let mut i: usize = 0;
        while i < self.top_processes.len()
            invariant
                0 <= i <= self.top_processes.len(),
                ps == entries(self.top_processes@),
                out@ == head + json_processes(ps.take(i as int)),
            decreases self.top_processes.len() - i,
        {
            let p = &self.top_processes[i];
            if i > 0 {
                out.append(",");
            }
            out.append("{\"name\":");
            out.append(json_quote(p.name.as_str()).as_str());
            out.append(",\"cpu_usage\":");
            push_tenths(&mut out, p.cpu_usage as u64);
            out.append("}");
            proof {
                let t = ps.take(i as int + 1);
                assert(t.drop_last() =~= ps.take(i as int));
                assert(t.last() == p@);
                if i == 0 {
                    assert(ps.take(0) =~= Seq::<(Seq<char>, u32)>::empty());
                }
            }
            i = i + 1;
        }
        proof {
            assert(ps.take(ps.len() as int) =~= ps);
        }
        out.append("]}");
        out
    }
}

} // verus!
