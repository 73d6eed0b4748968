//! Reading the system: which sensors give the CPU temperature, and the
//! totals of traffic counters and disk space.
use vstd::prelude::*;
use crate::text::chars_of;

verus! {

/// The lower case of an ASCII capital; any other character is kept.
pub open spec fn ascii_lower(c: char) -> char {
    if 'A' <= c && c <= 'Z' {
        ((c as u32) + 32) as char
    } else {
        c
    }
}

/// A text with its ASCII capitals lowered.
pub open spec fn ascii_lowercase(s: Seq<char>) -> Seq<char> {
    s.map_values(|c: char| ascii_lower(c))
}

/// Whether `needle` occurs in `hay` from position `i` on.
pub open spec fn occurs_at(hay: Seq<char>, needle: Seq<char>, i: int) -> bool {
    0 <= i && i + needle.len() <= hay.len() && hay.subrange(i, i + needle.len()) == needle
}

/// Whether `needle` occurs somewhere in `hay`.
pub open spec fn occurs_in(hay: Seq<char>, needle: Seq<char>) -> bool {
    exists|i: int| #[trigger] occurs_at(hay, needle, i)
}

/// Whether a temperature sensor's label names a CPU sensor: once lowered,
/// it holds "cpu", "package", "tctl" or "tdie", or starts with "core ".
pub open spec fn cpu_sensor_label(label: Seq<char>) -> bool {
    let l = ascii_lowercase(label);
    occurs_in(l, "cpu"@) || occurs_in(l, "package"@) || occurs_in(l, "tctl"@) || occurs_in(
        l,
        "tdie"@,
    ) || occurs_at(l, "core "@, 0)
}

/// Whether `c` is the letter `lower` in either case.
pub open spec fn either_case(c: char, lower: char, upper: char) -> bool {
    c == lower || c == upper
}

/// A label is a CPU sensor's as soon as it holds "cpu", in any mix of
/// cases, anywhere; or "package", "tctl" or "tdie" in lower case anywhere;
/// or starts with "core " in any case.
pub proof fn lemma_cpu_sensor_labels(label: Seq<char>, i: int)
    ensures
        occurs_at(ascii_lowercase(label), "cpu"@, i) ==> cpu_sensor_label(label),
        occurs_at(ascii_lowercase(label), "package"@, i) ==> cpu_sensor_label(label),
        occurs_at(ascii_lowercase(label), "tctl"@, i) ==> cpu_sensor_label(label),
        occurs_at(ascii_lowercase(label), "tdie"@, i) ==> cpu_sensor_label(label),
        occurs_at(ascii_lowercase(label), "core "@, 0) ==> cpu_sensor_label(label),
        0 <= i && i + 3 <= label.len() && either_case(label[i], 'c', 'C') && either_case(
            label[i + 1],
            'p',
            'P',
        ) && either_case(label[i + 2], 'u', 'U') ==> cpu_sensor_label(label),
        occurs_at(label, "package"@, i) ==> cpu_sensor_label(label),
        occurs_at(label, "tctl"@, i) ==> cpu_sensor_label(label),
        occurs_at(label, "tdie"@, i) ==> cpu_sensor_label(label),
        5 <= label.len() && either_case(label[0], 'c', 'C') && either_case(label[1], 'o', 'O')
            && either_case(label[2], 'r', 'R') && either_case(label[3], 'e', 'E') && label[4] == ' '
            ==> cpu_sensor_label(label),
{
    let l = ascii_lowercase(label);
    reveal_strlit("cpu");
    reveal_strlit("package");
    reveal_strlit("tctl");
    reveal_strlit("tdie");
    reveal_strlit("core ");
    assert(ascii_lower('C') == 'c');
    assert(ascii_lower('P') == 'p');
    assert(ascii_lower('U') == 'u');
    assert(ascii_lower('O') == 'o');
    assert(ascii_lower('R') == 'r');
    assert(ascii_lower('E') == 'e');
    if 0 <= i && i + 3 <= label.len() && either_case(label[i], 'c', 'C') && either_case(label[i + 1], 'p', 'P')
        && either_case(label[i + 2], 'u', 'U') {
        assert(l.subrange(i, i + 3) =~= "cpu"@);
        assert(occurs_at(l, "cpu"@, i));
    }
    if occurs_at(label, "package"@, i) {
        assert forall|j: int| 0 <= j < 7 implies ascii_lower(#[trigger] label[i + j]) == label[i + j] by {
            assert(label[i + j] == label.subrange(i, i + 7)[j]);
        }
        assert(l.subrange(i, i + 7) =~= "package"@);
        assert(occurs_at(l, "package"@, i));
    }
    if occurs_at(label, "tctl"@, i) {
        assert forall|j: int| 0 <= j < 4 implies ascii_lower(#[trigger] label[i + j]) == label[i + j] by {
            assert(label[i + j] == label.subrange(i, i + 4)[j]);
        }
        assert(l.subrange(i, i + 4) =~= "tctl"@);
        assert(occurs_at(l, "tctl"@, i));
    }
    if occurs_at(label, "tdie"@, i) {
        assert forall|j: int| 0 <= j < 4 implies ascii_lower(#[trigger] label[i + j]) == label[i + j] by {
            assert(label[i + j] == label.subrange(i, i + 4)[j]);
        }
        assert(l.subrange(i, i + 4) =~= "tdie"@);
        assert(occurs_at(l, "tdie"@, i));
    }
    if 5 <= label.len() && either_case(label[0], 'c', 'C') && either_case(label[1], 'o', 'O')
        && either_case(label[2], 'r', 'R') && either_case(label[3], 'e', 'E') && label[4] == ' ' {
        assert(ascii_lower(' ') == ' ');
        assert(l.subrange(0, 5) =~= "core "@);
    }
}

/// Whether one of the words that mark a CPU sensor starts at position `i`
/// of a lowered label ("core " only at its start).
pub open spec fn cpu_word_at(l: Seq<char>, i: int) -> bool {
    occurs_at(l, "cpu"@, i) || occurs_at(l, "package"@, i) || occurs_at(l, "tctl"@, i) || occurs_at(
        l,
        "tdie"@,
        i,
    ) || (i == 0 && occurs_at(l, "core "@, 0))
}

/// A label names a CPU sensor exactly when one of its words occurs in it:
/// once lowered, it holds "cpu", "package", "tctl" or "tdie" somewhere, or
/// starts with "core ".
pub proof fn lemma_cpu_label_words(label: Seq<char>)
    ensures
        cpu_sensor_label(label) <==> exists|i: int| #[trigger] cpu_word_at(ascii_lowercase(label), i),
{
    let l = ascii_lowercase(label);
    if cpu_sensor_label(label) {
        if occurs_in(l, "cpu"@) {
            let i = choose|i: int| #[trigger] occurs_at(l, "cpu"@, i);
            assert(cpu_word_at(l, i));
        } else if occurs_in(l, "package"@) {
            let i = choose|i: int| #[trigger] occurs_at(l, "package"@, i);
            assert(cpu_word_at(l, i));
        } else if occurs_in(l, "tctl"@) {
            let i = choose|i: int| #[trigger] occurs_at(l, "tctl"@, i);
            assert(cpu_word_at(l, i));
        } else if occurs_in(l, "tdie"@) {
            let i = choose|i: int| #[trigger] occurs_at(l, "tdie"@, i);
            assert(cpu_word_at(l, i));
        } else {
            assert(cpu_word_at(l, 0));
        }
    }
    if exists|i: int| #[trigger] cpu_word_at(l, i) {
        let i = choose|i: int| #[trigger] cpu_word_at(l, i);
        if occurs_at(l, "cpu"@, i) {
            assert(occurs_in(l, "cpu"@));
        } else if occurs_at(l, "package"@, i) {
            assert(occurs_in(l, "package"@));
        } else if occurs_at(l, "tctl"@, i) {
            assert(occurs_in(l, "tctl"@));
        } else if occurs_at(l, "tdie"@, i) {
            assert(occurs_in(l, "tdie"@));
        }
    }
}

/// A label with no c, p or t in either case names no CPU sensor: each word
/// that marks one starts with one of these letters.
pub proof fn lemma_non_cpu_labels(label: Seq<char>)
    requires
        forall|j: int| 0 <= j < label.len() ==> !either_case(#[trigger] label[j], 'c', 'C') && !either_case(
            label[j],
            'p',
            'P',
        ) && !either_case(label[j], 't', 'T'),
    ensures
        !cpu_sensor_label(label),
{
    let l = ascii_lowercase(label);
    reveal_strlit("cpu");
    reveal_strlit("package");
    reveal_strlit("tctl");
    reveal_strlit("tdie");
    reveal_strlit("core ");
    assert forall|j: int| 0 <= j < l.len() implies #[trigger] l[j] != 'c' && l[j] != 'p' && l[j] != 't' by {
        let c = label[j];
        if 'A' <= c && c <= 'Z' {
            assert(c != 'C' && c != 'P' && c != 'T');
            assert((c as u32) != 67 && (c as u32) != 80 && (c as u32) != 84);
        }
    }
    assert forall|i: int, n: Seq<char>| n.len() > 0 && (n[0] == 'c' || n[0] == 'p' || n[0] == 't') implies !#[trigger] occurs_at(l, n, i) by {
        if occurs_at(l, n, i) {
            assert(l.subrange(i, i + n.len())[0] == l[i]);
        }
    }
    assert("cpu"@[0] == 'c');
    assert("package"@[0] == 'p');
    assert("tctl"@[0] == 't');
    assert("tdie"@[0] == 't');
    assert("core "@[0] == 'c');
}

fn lower_char(c: char) -> (r: char)
    ensures
        r == ascii_lower(c),
{
    if 'A' <= c && c <= 'Z' {
        ((c as u8) + 32) as char
    } else {
        c
    }
}

fn lowered_chars(s: &str) -> (v: Vec<char>)
    ensures
        v@ == ascii_lowercase(s@),
{
    let chars = chars_of(s);
    let mut v: Vec<char> = Vec::new();
    let mut i: usize = 0;
    while i < chars.len()
        invariant
            chars@ == s@,
            i <= chars@.len(),
            v@ == ascii_lowercase(s@.take(i as int)),
        decreases chars@.len() - i,
    {
        v.push(lower_char(chars[i]));
        assert(v@ =~= ascii_lowercase(s@.take(i + 1)));
        i = i + 1;
    }
    assert(s@.take(chars@.len() as int) =~= s@);
    v
}

fn matches_at(hay: &Vec<char>, needle: &Vec<char>, i: usize) -> (r: bool)
    ensures
        r == occurs_at(hay@, needle@, i as int),
{
    if i > hay.len() || needle.len() > hay.len() - i {
        return false;
    }
    let hl = hay.len();
    let mut j: usize = 0;
    while j < needle.len()
        invariant
            hl == hay@.len(),
            i + needle@.len() <= hay@.len(),
            j <= needle@.len(),
            forall|k: int| 0 <= k < j ==> hay@[i + k] == needle@[k],
        decreases needle@.len() - j,
    {
        if hay[i + j] != needle[j] {
            assert(hay@.subrange(i as int, i + needle@.len())[j as int] != needle@[j as int]);
            return false;
        }
        j = j + 1;
    }
    assert(hay@.subrange(i as int, i + needle@.len()) =~= needle@);
    true
}

fn occurs(hay: &Vec<char>, needle: &str) -> (r: bool)
    ensures
        r == occurs_in(hay@, needle@),
{
    let n = chars_of(needle);
    if n.len() > hay.len() {
        return false;
    }
    let last = hay.len() - n.len();
    let mut i: usize = 0;
    while i < last
        invariant
            n@ == needle@,
            last == hay@.len() - needle@.len(),
            i <= last,
            forall|k: int| 0 <= k < i ==> !occurs_at(hay@, needle@, k),
        decreases last - i,
    {
        if matches_at(hay, &n, i) {
            return true;
        }
        i = i + 1;
    }
    matches_at(hay, &n, last)
}

/// Whether a sensor with this label measures the CPU.
pub fn is_cpu_sensor_label(label: &str) -> (b: bool)
    ensures
        b == cpu_sensor_label(label@),
        forall|i: int| #[trigger] occurs_at(ascii_lowercase(label@), "cpu"@, i) ==> b,
{
    let l = lowered_chars(label);
    let core = chars_of("core ");
    occurs(&l, "cpu") || occurs(&l, "package") || occurs(&l, "tctl") || occurs(&l, "tdie")
        || matches_at(&l, &core, 0)
}


/// What the selection of temperature sensors needs of one sensor.
#[derive(Clone, Copy, Debug, PartialEq, Eq, Structural)]
pub struct SensorReading {
    /// the label names a CPU sensor
    pub is_cpu: bool,
    /// the sensor gives a finite temperature
    pub has_temperature: bool,
}

/// Whether a sensor counts: it gives a temperature and, when only CPU
/// sensors are wanted, it is one.
pub open spec fn sensor_counts(r: SensorReading, cpu_only: bool) -> bool {
    r.has_temperature && (!cpu_only || r.is_cpu)
}

/// The positions of the sensors that count, in order.
pub open spec fn counted_sensors(s: Seq<SensorReading>, cpu_only: bool) -> Seq<usize>
    decreases s.len(),
{
    if s.len() == 0 {
        Seq::empty()
    } else {
        let rest = counted_sensors(s.drop_last(), cpu_only);
        if sensor_counts(s.last(), cpu_only) {
            rest.push((s.len() - 1) as usize)
        } else {
            rest
        }
    }
}

/// The sensors whose temperatures are averaged into the CPU temperature:
/// the CPU sensors that give one, or, when there are none, every sensor
/// that gives one.
pub open spec fn temperature_sources(s: Seq<SensorReading>) -> Seq<usize> {
    if counted_sensors(s, true).len() > 0 {
        counted_sensors(s, true)
    } else {
        counted_sensors(s, false)
    }
}

proof fn lemma_counted_sensors(s: Seq<SensorReading>, cpu_only: bool)
    requires
        s.len() <= usize::MAX,
    ensures
        forall|i: int|
            0 <= i < counted_sensors(s, cpu_only).len() ==> #[trigger] counted_sensors(s, cpu_only)[i]
                < s.len() && sensor_counts(s[counted_sensors(s, cpu_only)[i] as int], cpu_only),
        forall|j: int|
            0 <= j < s.len() && sensor_counts(#[trigger] s[j], cpu_only) ==> counted_sensors(
                s,
                cpu_only,
            ).contains(j as usize),
    decreases s.len(),
{
    if s.len() > 0 {
        let rest = s.drop_last();
        lemma_counted_sensors(rest, cpu_only);
        let v = counted_sensors(s, cpu_only);
        let r = counted_sensors(rest, cpu_only);
        let n = (s.len() - 1) as usize;
        assert(s.last() == s[n as int]);
        assert(sensor_counts(s.last(), cpu_only) ==> v == r.push(n));
        assert(!sensor_counts(s.last(), cpu_only) ==> v == r);
        assert forall|i: int| 0 <= i < r.len() implies #[trigger] v[i] == r[i] && r[i] < n && s[r[i] as int] == rest[r[i] as int] by {
        }
        assert forall|j: int| 0 <= j < s.len() && sensor_counts(#[trigger] s[j], cpu_only) implies v.contains(j as usize) by {
            if j < n {
                assert(rest[j] == s[j]);
                assert(r.contains(j as usize));
                let w = choose|w: int| 0 <= w < r.len() && #[trigger] r[w] == j as usize;
                assert(v[w] == r[w]);
            } else {
                assert(v[r.len() as int] == n);
            }
        }
        assert forall|i: int| 0 <= i < v.len() implies #[trigger] v[i] < s.len() && sensor_counts(s[v[i] as int], cpu_only) by {
            if i < r.len() {
                assert(v[i] == r[i]);
            } else {
                assert(v[i] == n);
            }
        }
    }
}

/// The CPU temperature comes only from sensors that give one; from CPU
/// sensors alone, all of them, whenever one of them gives a temperature;
/// otherwise from every sensor that gives one; and from no sensor only when
/// none gives a temperature.
pub proof fn lemma_temperature_sources(s: Seq<SensorReading>)
    requires
        s.len() <= usize::MAX,
    ensures
        forall|i: int|
            0 <= i < temperature_sources(s).len() ==> #[trigger] temperature_sources(s)[i] < s.len()
                && s[temperature_sources(s)[i] as int].has_temperature,
        (exists|j: int| 0 <= j < s.len() && #[trigger] s[j].is_cpu && s[j].has_temperature) ==> (forall|i: int|
            0 <= i < temperature_sources(s).len() ==> s[#[trigger] temperature_sources(s)[i] as int].is_cpu)
            && (forall|j: int|
            0 <= j < s.len() && #[trigger] s[j].is_cpu && s[j].has_temperature ==> temperature_sources(s).contains(
                j as usize,
            )),
        (forall|j: int| 0 <= j < s.len() ==> !(#[trigger] s[j].is_cpu && s[j].has_temperature)) ==> forall|j: int|
            0 <= j < s.len() && #[trigger] s[j].has_temperature ==> temperature_sources(s).contains(j as usize),
        temperature_sources(s).len() == 0 <==> forall|j: int| 0 <= j < s.len() ==> !#[trigger] s[j].has_temperature,
{
    lemma_counted_sensors(s, true);
    lemma_counted_sensors(s, false);
    let c = counted_sensors(s, true);
    let a = counted_sensors(s, false);
    if exists|j: int| 0 <= j < s.len() && #[trigger] s[j].is_cpu && s[j].has_temperature {
        let j = choose|j: int| 0 <= j < s.len() && #[trigger] s[j].is_cpu && s[j].has_temperature;
        assert(sensor_counts(s[j], true));
        assert(c.contains(j as usize));
        assert(c.len() > 0);
    }
    if exists|j: int| 0 <= j < s.len() && #[trigger] s[j].has_temperature {
        let j = choose|j: int| 0 <= j < s.len() && #[trigger] s[j].has_temperature;
        assert(sensor_counts(s[j], false));
        assert(a.contains(j as usize));
        assert(temperature_sources(s).len() > 0);
    }
    if forall|j: int| 0 <= j < s.len() ==> !(#[trigger] s[j].is_cpu && s[j].has_temperature) {
        if c.len() > 0 {
            let x = c[0];
            assert(sensor_counts(s[x as int], true));
        }
        assert(temperature_sources(s) == a);
        assert forall|j: int| 0 <= j < s.len() && #[trigger] s[j].has_temperature implies a.contains(j as usize) by {
            assert(sensor_counts(s[j], false));
        }
    }
    if temperature_sources(s).len() > 0 {
        let x = temperature_sources(s)[0];
        assert(s[x as int].has_temperature);
    }
}

/// The positions of the sensors whose temperatures make the CPU
/// temperature; none when no sensor gives one.
pub fn select_temperature_sensors(sensors: &Vec<SensorReading>) -> (v: Vec<usize>)
    ensures
        v@ == temperature_sources(sensors@),
{
    let mut cpu: Vec<usize> = Vec::new();
    let mut any: Vec<usize> = Vec::new();
    let mut i: usize = 0;
    while i < sensors.len()
        invariant
            i <= sensors@.len(),
            cpu@ == counted_sensors(sensors@.take(i as int), true),
            any@ == counted_sensors(sensors@.take(i as int), false),
        decreases sensors@.len() - i,
    {
        assert(sensors@.take(i + 1).drop_last() =~= sensors@.take(i as int));
        let r = sensors[i];
        if r.has_temperature {
            if r.is_cpu {
                cpu.push(i);
            }
            any.push(i);
        }
        i = i + 1;
    }
    assert(sensors@.take(sensors@.len() as int) =~= sensors@);
    if cpu.len() > 0 {
        cpu
    } else {
        any
    }
}

/// The sum of a sequence of counts.
pub open spec fn sum_of(s: Seq<nat>) -> nat
    decreases s.len(),
{
    if s.len() == 0 {
        0
    } else {
        sum_of(s.drop_last()) + s.last()
    }
}

proof fn lemma_sum_prefix(s: Seq<nat>, i: int)
    requires
        0 <= i <= s.len(),
    ensures
        sum_of(s.take(i)) <= sum_of(s),
    decreases s.len() - i,
{
    if i < s.len() {
        lemma_sum_prefix(s, i + 1);
        assert(s.take(i + 1).drop_last() =~= s.take(i));
    } else {
        assert(s.take(i) =~= s);
    }
}

/// A total grows by exactly the count added: the totals of the traffic
/// counters and of the disks are the sums of their parts, a disk using what
/// it holds beyond what is available, or nothing.
pub proof fn lemma_totals(counters: Seq<(u64, u64)>, c: (u64, u64), disks: Seq<DiskSpace>, d: DiskSpace)
    ensures
        sum_of(firsts(Seq::empty())) == 0,
        sum_of(firsts(counters.push(c))) == sum_of(firsts(counters)) + c.0,
        sum_of(seconds(counters.push(c))) == sum_of(seconds(counters)) + c.1,
        sum_of(disk_totals(disks.push(d))) == sum_of(disk_totals(disks)) + d.total,
        d.available <= d.total ==> sum_of(disk_used(disks.push(d))) + d.available
            == sum_of(disk_used(disks)) + d.total,
        d.available > d.total ==> sum_of(disk_used(disks.push(d))) == sum_of(disk_used(disks)),
{
    assert(firsts(counters.push(c)).drop_last() =~= firsts(counters));
    assert(seconds(counters.push(c)).drop_last() =~= seconds(counters));
    assert(disk_totals(disks.push(d)).drop_last() =~= disk_totals(disks));
    assert(disk_used(disks.push(d)).drop_last() =~= disk_used(disks));
}

/// The first counts of a sequence of pairs.
pub open spec fn firsts(s: Seq<(u64, u64)>) -> Seq<nat> {
    s.map_values(|p: (u64, u64)| p.0 as nat)
}

/// The second counts of a sequence of pairs.
pub open spec fn seconds(s: Seq<(u64, u64)>) -> Seq<nat> {
    s.map_values(|p: (u64, u64)| p.1 as nat)
}

/// The totals of a list of traffic counters, such as what each network
/// interface received and sent, or what each disk read and wrote, since the
/// last refresh. The totals must fit in 64 bits.
pub fn sum_traffic(counters: &Vec<(u64, u64)>) -> (t: (u64, u64))
    requires
        sum_of(firsts(counters@)) <= u64::MAX,
        sum_of(seconds(counters@)) <= u64::MAX,
    ensures
        t.0 == sum_of(firsts(counters@)),
        t.1 == sum_of(seconds(counters@)),
{
    let mut a: u64 = 0;
    let mut b: u64 = 0;
    let mut i: usize = 0;
    while i < counters.len()
        invariant
            i <= counters@.len(),
            sum_of(firsts(counters@)) <= u64::MAX,
            sum_of(seconds(counters@)) <= u64::MAX,
            a == sum_of(firsts(counters@).take(i as int)),
            b == sum_of(seconds(counters@).take(i as int)),
        decreases counters@.len() - i,
    {
        proof {
            assert(firsts(counters@).take(i + 1).drop_last() =~= firsts(counters@).take(i as int));
            assert(seconds(counters@).take(i + 1).drop_last() =~= seconds(counters@).take(i as int));
            lemma_sum_prefix(firsts(counters@), i + 1);
            lemma_sum_prefix(seconds(counters@), i + 1);
        }
        let (x, y) = counters[i];
        a = a + x;
        b = b + y;
        i = i + 1;
    }
    assert(firsts(counters@).take(counters@.len() as int) =~= firsts(counters@));
    assert(seconds(counters@).take(counters@.len() as int) =~= seconds(counters@));
    (a, b)
}

/// The space of one disk, in bytes.
#[derive(Clone, Copy, Debug, PartialEq, Eq, Structural)]
pub struct DiskSpace {
    pub total: u64,
    pub available: u64,
}

/// The space in use on a disk: what is not available, or nothing when the
/// disk reports more available than it holds.
pub open spec fn used_space(d: DiskSpace) -> nat {
    if d.total >= d.available {
        (d.total - d.available) as nat
    } else {
        0
    }
}

/// The sizes of the disks.
pub open spec fn disk_totals(s: Seq<DiskSpace>) -> Seq<nat> {
    s.map_values(|d: DiskSpace| d.total as nat)
}

/// The space in use on each disk.
pub open spec fn disk_used(s: Seq<DiskSpace>) -> Seq<nat> {
    s.map_values(|d: DiskSpace| used_space(d))
}

/// The total space of the disks and the space in use on them. The totals
/// must fit in 64 bits.
pub fn disk_space_used(disks: &Vec<DiskSpace>) -> (t: (u64, u64))
    requires
        sum_of(disk_totals(disks@)) <= u64::MAX,
    ensures
        t.0 == sum_of(disk_totals(disks@)),
        t.1 == sum_of(disk_used(disks@)),
        t.1 <= t.0,
{
    let mut total: u64 = 0;
    let mut used: u64 = 0;
    let mut i: usize = 0;
    while i < disks.len()
        invariant
            i <= disks@.len(),
            sum_of(disk_totals(disks@)) <= u64::MAX,
            total == sum_of(disk_totals(disks@).take(i as int)),
            used == sum_of(disk_used(disks@).take(i as int)),
            used <= total,
        decreases disks@.len() - i,
    {
        proof {
            assert(disk_totals(disks@).take(i + 1).drop_last() =~= disk_totals(disks@).take(i as int));
            assert(disk_used(disks@).take(i + 1).drop_last() =~= disk_used(disks@).take(i as int));
            lemma_sum_prefix(disk_totals(disks@), i + 1);
        }
        let d = disks[i];
        total = total + d.total;
        used = used + d.total.saturating_sub(d.available);
        i = i + 1;
    }
    assert(disk_totals(disks@).take(disks@.len() as int) =~= disk_totals(disks@));
    assert(disk_used(disks@).take(disks@.len() as int) =~= disk_used(disks@));
    (total, used)
}

} // verus!
