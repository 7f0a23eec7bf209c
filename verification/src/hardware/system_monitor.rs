//! System monitoring: the CPU counters between two samples, and the reading
//! of the kernel's and the tools' text reports.
use vstd::prelude::*;
use crate::text;

verus! {

/// The CPU time counters of `/proc/stat` that the usage is computed from.
#[derive(Debug, Clone, Copy, PartialEq, Eq)]
pub struct CpuStats {
    pub user: u64,
    pub nice: u64,
    pub system: u64,
    pub idle: u64,
    pub iowait: u64,
}

pub open spec fn stats_total(s: CpuStats) -> int {
    s.user + s.nice + s.system + s.idle + s.iowait
}

/// Keeps the previous CPU sample to measure usage between samples.
pub struct SystemMonitor {
    last_cpu_stats: Option<CpuStats>,
}

/// What a CPU sample gives.
#[derive(Debug, Clone, Copy, PartialEq, Eq)]
pub enum CpuSample {
    /// Fewer than five counters: usage 0, and the sample is not kept.
    TooFewValues,
    /// No usage to report (the first sample, or no time passed): usage 0.
    NoUsage,
    /// `busy` of `total` time units were not idle since the last sample.
    Usage { busy: u64, total: u64 },
}

impl SystemMonitor {
    pub closed spec fn last(&self) -> Option<CpuStats> {
        self.last_cpu_stats
    }

    /// A monitor with no sample yet.
    pub fn new() -> (r: SystemMonitor)
        ensures
            r.last() is None,
    {
        SystemMonitor { last_cpu_stats: None }
    }

    /// Whether a sample's arithmetic stays in range. Only a sample that
    /// follows another is computed with: then the counter sums fit, the total
    /// does not go backwards, and the idle time grows no more than the total
    /// when the total grows.
    pub open spec fn sample_in_range(&self, values: Seq<u64>) -> bool {
        values.len() >= 5 ==> {
            let cur = CpuStats { user: values[0], nice: values[1], system: values[2], idle: values[3], iowait: values[4] };
            match self.last() {
                Some(last) => {
                    &&& stats_total(cur) <= u64::MAX
                    &&& stats_total(last) <= u64::MAX
                    &&& stats_total(last) <= stats_total(cur)
                    &&& cur.idle >= last.idle
                    &&& stats_total(cur) - stats_total(last) > 0 ==> cur.idle - last.idle <= stats_total(cur) - stats_total(last)
                },
                None => true,
            }
        }
    }

    /// Checks `sample_in_range`.
    pub fn sample_fits(&self, values: &[u64]) -> (r: bool)
        ensures
            r == self.sample_in_range(values@),
    {
        if values.len() < 5 {
            return true;
        }
        let cur = CpuStats { user: values[0], nice: values[1], system: values[2], idle: values[3], iowait: values[4] };
        match &self.last_cpu_stats {
            None => true,
            Some(last) => {
                let cur_total = match total_checked(&cur) {
                    Some(t) => t,
                    None => {
                        return false;
                    },
                };
                let last_total = match total_checked(last) {
                    Some(t) => t,
                    None => {
                        return false;
                    },
                };
                if last_total > cur_total || cur.idle < last.idle {
                    return false;
                }
                let total_delta = cur_total - last_total;
                let idle_delta = cur.idle - last.idle;
                !(total_delta > 0 && idle_delta > total_delta)
            },
        }
    }

    /// Takes a sample of the counters `user nice system idle iowait ...`:
    /// fewer than five counters are ignored; otherwise the sample is kept and
    /// the time not idle since the previous sample is reported.
    pub fn record_cpu_sample(&mut self, values: &[u64]) -> (r: CpuSample)
        requires
            old(self).sample_in_range(values@),
        ensures
            values@.len() < 5 ==> r == CpuSample::TooFewValues && final(self).last() == old(self).last(),
            values@.len() >= 5 ==> {
                let cur = CpuStats { user: values@[0], nice: values@[1], system: values@[2], idle: values@[3], iowait: values@[4] };
                &&& final(self).last() == Some(cur)
                &&& match old(self).last() {
                    None => r == CpuSample::NoUsage,
                    Some(last) => {
                        let total = stats_total(cur) - stats_total(last);
                        let idle = cur.idle - last.idle;
                        if total > 0 {
                            r == (CpuSample::Usage { busy: (total - idle) as u64, total: total as u64 })
                        } else {
                            r == CpuSample::NoUsage
                        }
                    },
                }
            },
    {
        if values.len() < 5 {
            return CpuSample::TooFewValues;
        }
        let cur = CpuStats { user: values[0], nice: values[1], system: values[2], idle: values[3], iowait: values[4] };
        let r = match &self.last_cpu_stats {
            None => CpuSample::NoUsage,
            Some(last) => {
                let total_delta = (cur.user + cur.nice + cur.system + cur.idle + cur.iowait)
                    - (last.user + last.nice + last.system + last.idle + last.iowait);
                let idle_delta = cur.idle - last.idle;
                if total_delta > 0 {
                    CpuSample::Usage { busy: total_delta - idle_delta, total: total_delta }
                } else {
                    CpuSample::NoUsage
                }
            },
        };
        self.last_cpu_stats = Some(cur);
        r
    }
}

fn total_checked(s: &CpuStats) -> (r: Option<u64>)
    ensures
        match r {
            Some(t) => t == stats_total(*s),
            None => stats_total(*s) > u64::MAX,
        },
{
    let a = s.user.checked_add(s.nice);
    let a = match a { Some(x) => x.checked_add(s.system), None => None };
    let a = match a { Some(x) => x.checked_add(s.idle), None => None };
    match a { Some(x) => x.checked_add(s.iowait), None => None }
}

/// A word read as an unsigned 64-bit number, if it is one.
pub open spec fn u64_of(w: Seq<char>) -> Option<u64> {
    match text::unsigned_decimal(w) {
        Some(n) => if n <= u64::MAX { Some(n as u64) } else { None },
        None => None,
    }
}

/// The words that read as numbers, in order (others are skipped).
pub open spec fn numbers_of(ws: Seq<Seq<char>>) -> Seq<u64>
    decreases ws.len(),
{
    if ws.len() == 0 {
        Seq::empty()
    } else {
        let p = numbers_of(ws.drop_last());
        match u64_of(ws.last()) {
            Some(n) => p.push(n),
            None => p,
        }
    }
}

/// Whether `l` starts with `p`.
pub open spec fn has_prefix(l: Seq<char>, p: Seq<char>) -> bool {
    p.len() <= l.len() && l.take(p.len() as int) == p
}

/// Index of the first line that starts with `p`, or -1.
pub open spec fn first_prefixed(ls: Seq<Seq<char>>, p: Seq<char>) -> int
    decreases ls.len(),
{
    if ls.len() == 0 {
        -1
    } else if has_prefix(ls[0], p) {
        0
    } else {
        let r = first_prefixed(ls.drop_first(), p);
        if r < 0 { -1 } else { r + 1 }
    }
}

proof fn lemma_first_prefixed(ls: Seq<Seq<char>>, p: Seq<char>, k: int)
    requires
        0 <= k <= ls.len(),
        forall|j: int| 0 <= j < k ==> !has_prefix(#[trigger] ls[j], p),
        k < ls.len() ==> has_prefix(ls[k], p),
    ensures
        first_prefixed(ls, p) == (if k < ls.len() { k } else { -1 }),
    decreases k,
{
    if k > 0 {
        assert forall|j: int| 0 <= j < k - 1 implies !has_prefix(#[trigger] ls.drop_first()[j], p) by {
            assert(ls.drop_first()[j] == ls[j + 1]);
        }
        if k < ls.len() {
            assert(ls.drop_first()[k - 1] == ls[k]);
        }
        lemma_first_prefixed(ls.drop_first(), p, k - 1);
    }
}

/// The words after the first (none when there is none).
pub open spec fn after_first(ws: Seq<Seq<char>>) -> Seq<Seq<char>> {
    if ws.len() > 0 { ws.drop_first() } else { ws }
}

/// The counters of `/proc/stat`: the numbers after the label on the first
/// line that starts with `cpu `; `None` when there is no such line.
pub open spec fn cpu_values_of(stat: Seq<char>) -> Option<Seq<u64>> {
    let ls = text::lines_of(stat);
    let i = first_prefixed(ls, "cpu "@);
    if i < 0 {
        None
    } else {
        Some(numbers_of(after_first(text::words_of(ls[i]))))
    }
}

fn numbers(ws: &Vec<String>, from: usize) -> (r: Vec<u64>)
    requires
        from <= ws@.len(),
    ensures
        r@ == numbers_of(ws@.map_values(|w: String| w@).skip(from as int)),
{
    let ghost all = ws@.map_values(|w: String| w@);
    let ghost t = all.skip(from as int);
    let mut out: Vec<u64> = Vec::new();
    let mut i = from;
    proof {
        assert(t.take(0) =~= Seq::<Seq<char>>::empty());
    }
    while i < ws.len()
        invariant
            from <= i <= ws@.len(),
            all == ws@.map_values(|w: String| w@),
            t == all.skip(from as int),
            out@ == numbers_of(t.take(i - from)),
        decreases ws@.len() - i,
    {
        proof {
            assert(t.take(i - from + 1).drop_last() =~= t.take(i - from));
            assert(t.take(i - from + 1).last() == ws@[i as int]@);
        }
        match text::parse_u64(ws[i].as_str()) {
            Some(n) => {
                out.push(n);
            },
            None => {},
        }
        i = i + 1;
    }
    proof {
        assert(t.take(ws@.len() - from) =~= t);
    }
    out
}

/// Reads the CPU counters from the text of `/proc/stat`.
pub fn cpu_values(stat: &str) -> (r: Option<Vec<u64>>)
    ensures
        match r {
            Some(v) => cpu_values_of(stat@) == Some(v@),
            None => cpu_values_of(stat@) is None,
        },
{
    let ls = text::lines(stat);
    let ghost lv = ls@.map_values(|l: String| l@);
    let mut i: usize = 0;
    while i < ls.len()
        invariant
            i <= ls@.len(),
            lv == ls@.map_values(|l: String| l@),
            lv == text::lines_of(stat@),
            forall|j: int| 0 <= j < i ==> !has_prefix(#[trigger] lv[j], "cpu "@),
        decreases ls@.len() - i,
    {
        if text::starts_with(ls[i].as_str(), "cpu ") {
            proof {
                lemma_first_prefixed(lv, "cpu "@, i as int);
            }
            let ws = text::words(ls[i].as_str());
            proof {
                let wv = ws@.map_values(|w: String| w@);
                if wv.len() > 0 {
                    assert(wv.skip(1) =~= wv.drop_first());
                } else {
                    assert(wv.skip(0) =~= wv);
                }
            }
            if ws.len() > 0 {
                return Some(numbers(&ws, 1));
            } else {
                return Some(numbers(&ws, 0));
            }
        }
        i = i + 1;
    }
    proof {
        lemma_first_prefixed(lv, "cpu "@, ls@.len() as int);
    }
    None
}

/// The second word of a line read as a number, or 0.
pub open spec fn second_number(line: Seq<char>) -> u64 {
    let ws = text::words_of(line);
    if ws.len() > 1 {
        match u64_of(ws[1]) {
            Some(n) => n,
            None => 0,
        }
    } else {
        0
    }
}

/// The total and available memory in `/proc/meminfo`: the number on the
/// last `MemTotal:` line and on the last `MemAvailable:` line, 0 when missing.
pub open spec fn meminfo_of(ls: Seq<Seq<char>>) -> (u64, u64)
    decreases ls.len(),
{
    if ls.len() == 0 {
        (0, 0)
    } else {
        let (t, a) = meminfo_of(ls.drop_last());
        let line = ls.last();
        if has_prefix(line, "MemTotal:"@) {
            (second_number(line), a)
        } else if has_prefix(line, "MemAvailable:"@) {
            (t, second_number(line))
        } else {
            (t, a)
        }
    }
}

fn second_number_of(line: &str) -> (r: u64)
    ensures
        r == second_number(line@),
{
    let ws = text::words(line);
    proof {
        let wv = ws@.map_values(|w: String| w@);
        assert(wv.len() == ws@.len());
        if ws@.len() > 1 {
            assert(wv[1] == ws@[1]@);
        }
    }
    if ws.len() > 1 {
        match text::parse_u64(ws[1].as_str()) {
            Some(n) => n,
            None => 0,
        }
    } else {
        0
    }
}

/// Reads total and available memory from the text of `/proc/meminfo`.
pub fn memory_values(meminfo: &str) -> (r: (u64, u64))
    ensures
        r == meminfo_of(text::lines_of(meminfo@)),
{
    let ls = text::lines(meminfo);
    let ghost lv = ls@.map_values(|l: String| l@);
    let mut total: u64 = 0;
    let mut available: u64 = 0;
    let mut i: usize = 0;
    proof {
        assert(lv.take(0) =~= Seq::<Seq<char>>::empty());
    }
    while i < ls.len()
        invariant
            i <= ls@.len(),
            lv == ls@.map_values(|l: String| l@),
            (total, available) == meminfo_of(lv.take(i as int)),
        decreases ls@.len() - i,
    {
        proof {
            assert(lv.take(i + 1).drop_last() =~= lv.take(i as int));
            assert(lv.take(i + 1).last() == ls@[i as int]@);
        }
        if text::starts_with(ls[i].as_str(), "MemTotal:") {
            total = second_number_of(ls[i].as_str());
        } else if text::starts_with(ls[i].as_str(), "MemAvailable:") {
            available = second_number_of(ls[i].as_str());
        }
        i = i + 1;
    }
    proof {
        assert(lv.take(ls@.len() as int) =~= lv);
    }
    (total, available)
}

/// The usage figure in the output of `df -h /`: the fifth word of the second
/// line without its `%`.
pub open spec fn disk_usage_text_of(output: Seq<char>) -> Option<Seq<char>> {
    let ls = text::lines_of(output);
    if ls.len() > 1 {
        let parts = text::words_of(ls[1]);
        if parts.len() >= 5 {
            let p = parts[4];
            if p.len() > 0 && p.last() == '%' {
                Some(p.drop_last())
            } else {
                None
            }
        } else {
            None
        }
    } else {
        None
    }
}

/// The usage figure in the output of `df -h /`.
pub fn disk_usage_text(output: &str) -> (r: Option<String>)
    ensures
        match r {
            Some(s) => disk_usage_text_of(output@) == Some(s@),
            None => disk_usage_text_of(output@) is None,
        },
{
    let ls = text::lines(output);
    proof {
        let lv = ls@.map_values(|l: String| l@);
        assert(lv.len() == ls@.len());
        if ls@.len() > 1 {
            assert(lv[1] == ls@[1]@);
        }
    }
    if ls.len() > 1 {
        let parts = text::words(ls[1].as_str());
        proof {
            let pv = parts@.map_values(|w: String| w@);
            assert(pv.len() == parts@.len());
            if parts@.len() >= 5 {
                assert(pv[4] == parts@[4]@);
            }
        }
        if parts.len() >= 5 {
            match text::strip_suffix(parts[4].as_str(), "%") {
                Some(v) => {
                    proof {
                        reveal_strlit("%");
                        let p = parts@[4]@;
                        assert(p.skip(p.len() - 1)[0] == p[p.len() - 1]);
                        assert(p.last() == '%');
                        assert(p.drop_last() =~= v@);
                    }
                    return Some(String::from_str(v));
                },
                None => {
                    proof {
                        reveal_strlit("%");
                        let p = parts@[4]@;
                        if p.len() > 0 && p.last() == '%' {
                            assert(p.skip(p.len() - 1) =~= "%"@);
                        }
                    }
                    return None;
                },
            }
        }
    }
    None
}

/// Whether a line of `/proc/net/dev` shows received bytes on a wired or
/// wireless interface: the name before its first `:` (without surrounding
/// white space) starts with `eth` or `wlan`, and the first word after it is
/// a number above 0.
pub open spec fn line_shows_traffic(line: Seq<char>) -> bool {
    let i = text::first_index(line, ':');
    if i < 0 {
        false
    } else {
        let iface = text::trimmed(line.take(i));
        if has_prefix(iface, "eth"@) || has_prefix(iface, "wlan"@) {
            let ws = text::words_of(line.skip(i + 1));
            ws.len() > 0 && (u64_of(ws[0]) matches Some(b) && b > 0)
        } else {
            false
        }
    }
}

/// Whether `/proc/net/dev` shows traffic: a line after the two heading lines
/// shows received bytes on a wired or wireless interface.
pub open spec fn network_active_of(content: Seq<char>) -> bool {
    let ls = text::lines_of(content);
    exists|i: int| 2 <= i < ls.len() && line_shows_traffic(#[trigger] ls[i])
}

fn shows_traffic(line: &str) -> (r: bool)
    ensures
        r == line_shows_traffic(line@),
{
    proof {
        assert(line@.skip(0) =~= line@);
    }
    match text::find_char_from(line, ':', 0) {
        None => false,
        Some(i) => {
            let n = line.unicode_len();
            let iface = text::trim(line.substring_char(0, i));
            if text::starts_with(iface, "eth") || text::starts_with(iface, "wlan") {
                let ws = text::words(line.substring_char(i + 1, n));
                proof {
                    let wv = ws@.map_values(|w: String| w@);
                    assert(wv.len() == ws@.len());
                    if ws@.len() > 0 {
                        assert(wv[0] == ws@[0]@);
                    }
                }
                if ws.len() > 0 {
                    match text::parse_u64(ws[0].as_str()) {
                        Some(b) => b > 0,
                        None => false,
                    }
                } else {
                    false
                }
            } else {
                false
            }
        },
    }
}

/// Reads whether there is network traffic from the text of `/proc/net/dev`.
pub fn network_active(content: &str) -> (r: bool)
    ensures
        r == network_active_of(content@),
{
    let ls = text::lines(content);
    let ghost lv = ls@.map_values(|l: String| l@);
    let mut i: usize = 2;
    while i < ls.len()
        invariant
            2 <= i,
            lv == ls@.map_values(|l: String| l@),
            lv == text::lines_of(content@),
            forall|j: int| 2 <= j < i && j < lv.len() ==> !line_shows_traffic(#[trigger] lv[j]),
        decreases ls@.len() - i,
    {
        if shows_traffic(ls[i].as_str()) {
            assert(line_shows_traffic(lv[i as int]));
            return true;
        }
        i = i + 1;
    }
    false
}

/// `line.split(':').nth(1)`: the text after the first `:` up to the next `:`
/// or the end, when the line has a `:`.
pub open spec fn second_field(line: Seq<char>) -> Option<Seq<char>> {
    let i = text::first_index(line, ':');
    if i < 0 {
        None
    } else {
        let rest = line.skip(i + 1);
        let j = text::first_index(rest, ':');
        Some(if j < 0 { rest } else { rest.take(j) })
    }
}

/// Whether a name is that of a wired or wireless interface.
pub open spec fn is_net_iface(name: Seq<char>) -> bool {
    has_prefix(name, "eth"@) || has_prefix(name, "wlan"@) || has_prefix(name, "en"@) || has_prefix(name, "wl"@)
}

/// The interface a line of `ip addr show` names, or the current one.
pub open spec fn iface_after(line: Seq<char>, cur: Seq<char>) -> Seq<char> {
    match second_field(line) {
        Some(f) => if is_net_iface(text::trimmed(f)) { text::trimmed(f) } else { cur },
        None => cur,
    }
}

/// The address on an `inet` line: its second word up to any `/`, unless it
/// is a loopback address.
pub open spec fn address_of(line: Seq<char>) -> Option<Seq<char>> {
    let ws = text::words_of(line);
    if ws.len() > 1 {
        let w = ws[1];
        let k = text::first_index(w, '/');
        let ip = if k < 0 { w } else { w.take(k) };
        if has_prefix(ip, "127."@) { None } else { Some(ip) }
    } else {
        None
    }
}

/// Whether a line of `ip addr show` is an IPv4 address line.
pub open spec fn is_inet_line(line: Seq<char>) -> bool {
    text::contains(line, "inet "@) && !text::contains(line, "inet6"@)
}

/// Scans `ip addr show` lines: the first address found on an interface line
/// of a wired or wireless interface (with that interface), and the
/// interface named last.
pub open spec fn ip_scan(ls: Seq<Seq<char>>) -> (Option<(Seq<char>, Seq<char>)>, Seq<char>)
    decreases ls.len(),
{
    if ls.len() == 0 {
        (None, Seq::empty())
    } else {
        let prev = ip_scan(ls.drop_last());
        if prev.0 is Some {
            prev
        } else {
            let line = ls.last();
            let cur = iface_after(line, prev.1);
            if is_inet_line(line) && cur.len() > 0 {
                match address_of(line) {
                    Some(ip) => (Some((ip, cur)), cur),
                    None => (None, cur),
                }
            } else {
                (None, cur)
            }
        }
    }
}

/// The network state in the output of `ip addr show`: whether an address
/// was found, the address, and its interface (`none` when none was found).
pub open spec fn network_info_of(output: Seq<char>) -> (bool, Option<Seq<char>>, Seq<char>) {
    match ip_scan(text::lines_of(output)).0 {
        Some((ip, iface)) => (true, Some(ip), iface),
        None => (false, None, "none"@),
    }
}

fn second_field_of(line: &str) -> (r: Option<&str>)
    ensures
        match r {
            Some(f) => second_field(line@) == Some(f@),
            None => second_field(line@) is None,
        },
{
    proof {
        assert(line@.skip(0) =~= line@);
    }
    let n = line.unicode_len();
    match text::find_char_from(line, ':', 0) {
        None => None,
        Some(i) => {
            let rest = line.substring_char(i + 1, n);
            proof {
                assert(rest@.skip(0) =~= rest@);
            }
            match text::find_char_from(rest, ':', 0) {
                None => Some(rest),
                Some(j) => Some(rest.substring_char(0, j)),
            }
        },
    }
}

fn is_iface_name(name: &str) -> (r: bool)
    ensures
        r == is_net_iface(name@),
{
    text::starts_with(name, "eth") || text::starts_with(name, "wlan") || text::starts_with(name, "en")
        || text::starts_with(name, "wl")
}

fn address_in(line: &str) -> (r: Option<String>)
    ensures
        match r {
            Some(a) => address_of(line@) == Some(a@),
            None => address_of(line@) is None,
        },
{
    let ws = text::words(line);
    proof {
        let wv = ws@.map_values(|w: String| w@);
        assert(wv.len() == ws@.len());
        if ws@.len() > 1 {
            assert(wv[1] == ws@[1]@);
        }
    }
    if ws.len() <= 1 {
        return None;
    }
    let w = ws[1].as_str();
    proof {
        assert(w@.skip(0) =~= w@);
    }
    let ip = match text::find_char_from(w, '/', 0) {
        None => w,
        Some(k) => w.substring_char(0, k),
    };
    if text::starts_with(ip, "127.") {
        None
    } else {
        Some(String::from_str(ip))
    }
}

/// Reads the network state from the output of `ip addr show`.
pub fn network_info(output: &str) -> (r: (bool, Option<String>, String))
    ensures
        (r.0, match r.1 { Some(a) => Some(a@), None => None }, r.2@) == network_info_of(output@),
{
    let ls = text::lines(output);
    let ghost lv = ls@.map_values(|l: String| l@);
    let mut current = String::new();
    let mut i: usize = 0;
    proof {
        assert(lv.take(0) =~= Seq::<Seq<char>>::empty());
    }
    while i < ls.len()
        invariant
            i <= ls@.len(),
            lv == ls@.map_values(|l: String| l@),
            lv == text::lines_of(output@),
            ip_scan(lv.take(i as int)) == (None::<(Seq<char>, Seq<char>)>, current@),
        decreases ls@.len() - i,
    {
        proof {
            assert(lv.take(i + 1).drop_last() =~= lv.take(i as int));
            assert(lv.take(i + 1).last() == ls@[i as int]@);
        }
        let line = ls[i].as_str();
        match second_field_of(line) {
            Some(f) => {
                let t = text::trim(f);
                if is_iface_name(t) {
                    current = String::from_str(t);
                }
            },
            None => {},
        }
        if text::contains_str(line, "inet ") && !text::contains_str(line, "inet6") && current.as_str().unicode_len() > 0 {
            match address_in(line) {
                Some(ip) => {
                    proof {
                        lemma_ip_scan_found(lv, i as int);
                    }
                    return (true, Some(ip), current);
                },
                None => {},
            }
        }
        i = i + 1;
    }
    proof {
        assert(lv.take(ls@.len() as int) =~= lv);
    }
    (false, None, String::from_str("none"))
}

/// Once an address is found, later lines change nothing.
proof fn lemma_ip_scan_found(ls: Seq<Seq<char>>, i: int)
    requires
        0 <= i < ls.len(),
        ip_scan(ls.take(i + 1)).0 is Some,
    ensures
        ip_scan(ls) == ip_scan(ls.take(i + 1)),
    decreases ls.len(),
{
    if i + 1 == ls.len() {
        assert(ls.take(i + 1) =~= ls);
    } else {
        assert(ls.drop_last().take(i + 1) =~= ls.take(i + 1));
        lemma_ip_scan_found(ls.drop_last(), i);
    }
}

/// Received bytes on a wired (`eth...`) or wireless (`wlan...`) interface
/// make the network active: a line after the two heading lines of
/// `/proc/net/dev` whose name before its first `:` (without surrounding white
/// space) starts with `eth` or with `wlan`, and whose first word after the
/// `:` is a number above 0, makes `network_active_of` true. Conversely the
/// network is active only through such a line.
pub proof fn law_traffic_on_eth_or_wlan(content: Seq<char>, i: int, p: int)
    ensures
        ({
            let ls = text::lines_of(content);
            let l = ls[i];
            let name = text::trimmed(l.take(p));
            let ws = text::words_of(l.skip(p + 1));
            (2 <= i < ls.len() && 0 <= p < l.len() && l[p] == ':'
                && (forall|j: int| 0 <= j < p ==> l[j] != ':')
                && ((name.len() >= 3 && name.take(3) == seq!['e', 't', 'h'])
                    || (name.len() >= 4 && name.take(4) == seq!['w', 'l', 'a', 'n']))
                && ws.len() > 0
                && (text::unsigned_decimal(ws[0]) matches Some(b) && 0 < b <= u64::MAX))
                ==> network_active_of(content)
        }),
        network_active_of(content) ==> exists|k: int| 2 <= k < text::lines_of(content).len()
            && (#[trigger] text::lines_of(content)[k]).len() > 0
            && ({
                let l = text::lines_of(content)[k];
                let q = text::first_index(l, ':');
                let name = text::trimmed(l.take(q));
                q >= 0 && ((name.len() >= 3 && name.take(3) == seq!['e', 't', 'h'])
                    || (name.len() >= 4 && name.take(4) == seq!['w', 'l', 'a', 'n']))
            }),
{
    reveal_strlit("eth");
    reveal_strlit("wlan");
    let ls = text::lines_of(content);
    if 2 <= i < ls.len() && 0 <= p < ls[i].len() {
        let l = ls[i];
        text::lemma_first_index(l, ':');
        let q = text::first_index(l, ':');
        if l[p] == ':' && (forall|j: int| 0 <= j < p ==> l[j] != ':') {
            assert(q == p) by {
                if q < 0 || q > p {
                    assert(l[p] != ':');
                } else if q < p {
                    assert(l[q] != ':');
                }
            }
            assert(seq!['e', 't', 'h'] =~= "eth"@);
            assert(seq!['w', 'l', 'a', 'n'] =~= "wlan"@);
            if line_shows_traffic(l) {
                assert(network_active_of(content));
            }
        }
    }
    if network_active_of(content) {
        let k = choose|k: int| 2 <= k < ls.len() && line_shows_traffic(#[trigger] ls[k]);
        assert(seq!['e', 't', 'h'] =~= "eth"@);
        assert(seq!['w', 'l', 'a', 'n'] =~= "wlan"@);
        text::lemma_first_index(ls[k], ':');
        assert(ls[k].len() > 0);
    }
}

/// The interfaces whose addresses count are the wired and wireless ones: a
/// name counts exactly when it starts with `eth`, `wlan`, `en` or `wl`; and
/// an address reported is never a loopback (`127.`) address.
pub proof fn law_interface_names(name: Seq<char>, line: Seq<char>)
    ensures
        is_net_iface(name) <==> ((name.len() >= 3 && name.take(3) == seq!['e', 't', 'h'])
            || (name.len() >= 4 && name.take(4) == seq!['w', 'l', 'a', 'n'])
            || (name.len() >= 2 && name.take(2) == seq!['e', 'n'])
            || (name.len() >= 2 && name.take(2) == seq!['w', 'l'])),
        address_of(line) matches Some(ip) ==> !(ip.len() >= 4 && ip.take(4) == seq!['1', '2', '7', '.']),
{
    reveal_strlit("eth");
    reveal_strlit("wlan");
    reveal_strlit("en");
    reveal_strlit("wl");
    reveal_strlit("127.");
    assert(seq!['e', 't', 'h'] =~= "eth"@);
    assert(seq!['w', 'l', 'a', 'n'] =~= "wlan"@);
    assert(seq!['e', 'n'] =~= "en"@);
    assert(seq!['w', 'l'] =~= "wl"@);
    assert(seq!['1', '2', '7', '.'] =~= "127."@);
}

} // verus!
