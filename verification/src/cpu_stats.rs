//! Use of the processor: what the system's files say of it, loads over time, and a table of the
//! busiest processes.
//!
//! Times are in nanoseconds, temperatures in thousandths of a degree, and loads in millionths of
//! a core.

use vstd::prelude::*;
use vstd::string::*;

use crate::text;
use crate::text::{chars_of, parse_u64, push_long_decimal, same_text, split_words, string_of};

verus! {

broadcast use vstd::string::group_string_axioms;

/// How long a measurement is good for: a minute.
pub const CACHE_INTERVAL: u64 = 60_000_000_000;

/// Where a character stands last in a text.
pub open spec fn last_index(s: Seq<char>, ch: char) -> Option<int>
    decreases s.len(),
{
    if s.len() == 0 {
        None
    } else if s.last() == ch {
        Some(s.len() - 1)
    } else {
        last_index(s.drop_last(), ch)
    }
}

/// Finds where a character stands last.
fn find_last(v: &Vec<char>, ch: char) -> (at: Option<usize>)
    ensures
        match at {
            Some(at) => last_index(v@, ch) == Some(at as int) && at < v@.len(),
            None => last_index(v@, ch) is None,
        },
{
    let mut end: usize = v.len();
    assert(v@.take(end as int) =~= v@);
    while end > 0
        invariant
            end <= v@.len(),
            last_index(v@, ch) == last_index(v@.take(end as int), ch),
        decreases end,
    {
        assert(v@.take(end as int).last() == v@[end - 1]);
        if v[end - 1] == ch {
            return Some(end - 1);
        }
        assert(v@.take(end as int).drop_last() =~= v@.take(end - 1));
        end = end - 1;
    }
    None
}

/// Where a character stands first in a text.
pub open spec fn first_index(s: Seq<char>, ch: char) -> Option<int> {
    if crate::lx200_server::first_index(s, ch) < s.len() {
        Some(crate::lx200_server::first_index(s, ch))
    } else {
        None
    }
}

/// Finds where a character stands first.
fn find_first(v: &Vec<char>, ch: char) -> (at: Option<usize>)
    ensures
        match at {
            Some(at) => first_index(v@, ch) == Some(at as int) && at < v@.len(),
            None => first_index(v@, ch) is None,
        },
{
    let mut i: usize = 0;
    while i < v.len()
        invariant
            i <= v@.len(),
            forall|j: int| 0 <= j < i ==> v@[j] != ch,
        decreases v@.len() - i,
    {
        if v[i] == ch {
            proof {
                crate::lx200_server::lemma_first_index(v@, ch, i as int);
            }
            return Some(i);
        }
        i = i + 1;
    }
    proof {
        crate::lx200_server::lemma_first_index(v@, ch, v@.len() as int);
    }
    None
}

/// The words of a process's status line after its name, which stands in parentheses and may hold
/// anything, parentheses included.
pub open spec fn status_words(line: Seq<char>) -> Option<Seq<Seq<char>>> {
    match last_index(line, ')') {
        Some(end) => Some(text::words(line.skip(end + 1))),
        None => None,
    }
}

/// The ticks that a process spent in user mode and in the kernel, from its status line: the
/// twelfth and the thirteenth word after its name.
pub open spec fn status_ticks(line: Seq<char>) -> Option<(u64, u64)> {
    match status_words(line) {
        Some(words) => if words.len() > 12 {
            match (text::u64_value(words[11]), text::u64_value(words[12])) {
                (Some(utime), Some(stime)) => Some((utime, stime)),
                _ => None,
            }
        } else {
            None
        },
        None => None,
    }
}

/// Reads the ticks that a process spent in user mode and in the kernel.
pub fn parse_utime_stime(stat_str: &str) -> (ticks: Option<(u64, u64)>)
    ensures
        ticks == status_ticks(stat_str@),
{
    let v: Vec<char> = chars_of(stat_str);
    let end: usize = match find_last(&v, ')') {
        Some(end) => end,
        None => return None,
    };
    let after: String = string_of(&v, end + 1, v.len());
    assert(after@ =~= stat_str@.skip(end + 1));
    let fields: Vec<String> = split_words(after.as_str());
    if fields.len() <= 12 {
        return None;
    }
    assert(text::views(fields@)[11] == fields@[11]@);
    assert(text::views(fields@)[12] == fields@[12]@);
    match (parse_u64(fields[11].as_str()), parse_u64(fields[12].as_str())) {
        (Some(utime), Some(stime)) => Some((utime, stime)),
        _ => None,
    }
}

/// The name of a process, from its status line: what stands between the first opening and the
/// last closing parenthesis, if that is anything.
pub open spec fn status_name(line: Seq<char>) -> Option<Seq<char>> {
    match (first_index(line, '('), last_index(line, ')')) {
        (Some(open), Some(close)) => if close > open + 1 {
            Some(line.subrange(open + 1, close))
        } else {
            None
        },
        _ => None,
    }
}

/// Reads the name of a process.
pub fn parse_comm(stat_str: &str) -> (name: Option<String>)
    ensures
        match name {
            Some(name) => status_name(stat_str@) == Some(name@),
            None => status_name(stat_str@) is None,
        },
{
    let v: Vec<char> = chars_of(stat_str);
    let open: usize = match find_first(&v, '(') {
        Some(open) => open,
        None => return None,
    };
    let close: usize = match find_last(&v, ')') {
        Some(close) => close,
        None => return None,
    };
    if close > open + 1 {
        Some(string_of(&v, open + 1, close))
    } else {
        None
    }
}

/// Whether a directory is one of a process or a thread: its name is a number.
pub fn is_process_name(name: &str) -> (numeric: bool)
    ensures
        numeric == text::all_digits(name@),
{
    let v: Vec<char> = chars_of(name);
    let mut i: usize = 0;
    while i < v.len()
        invariant
            i <= v@.len(),
            v@ == name@,
            forall|j: int| 0 <= j < i ==> text::is_digit(#[trigger] name@[j]),
        decreases v@.len() - i,
    {
        if v[i] < '0' || v[i] > '9' {
            assert(!text::is_digit(name@[i as int]));
            return false;
        }
        i = i + 1;
    }
    true
}

/// The numbers among some words, in order.
pub open spec fn numbers_of(words: Seq<Seq<char>>) -> Seq<u64>
    decreases words.len(),
{
    if words.len() == 0 {
        Seq::empty()
    } else {
        let front = numbers_of(words.drop_last());
        match text::u64_value(words.last()) {
            Some(number) => front.push(number),
            None => front,
        }
    }
}

/// The first line of a text.
pub open spec fn first_line(s: Seq<char>) -> Seq<char> {
    match first_index(s, '\n') {
        Some(end) => s.take(end),
        None => s,
    }
}

/// The numbers of the line that sums up all processors: those after its label.
pub open spec fn cpu_fields(stat: Seq<char>) -> Seq<u64> {
    let words = text::words(first_line(stat));
    if words.len() == 0 {
        Seq::empty()
    } else {
        numbers_of(words.skip(1))
    }
}

/// Reads the numbers of the line that sums up all processors.
pub fn parse_cpu_fields(stat: &str) -> (fields: Vec<u64>)
    ensures
        fields@ == cpu_fields(stat@),
{
    let v: Vec<char> = chars_of(stat);
    let end: usize = match find_first(&v, '\n') {
        Some(end) => end,
        None => v.len(),
    };
    let line: String = string_of(&v, 0, end);
    assert(line@ =~= first_line(stat@));
    let words: Vec<String> = split_words(line.as_str());
    let mut fields: Vec<u64> = Vec::new();
    let total: usize = words.len();
    if total == 0 {
        assert(text::words(line@).len() == 0);
        return fields;
    }
    let ghost all = text::views(words@).skip(1);
    let mut i: usize = 1;
    assert(all.take(0) =~= Seq::<Seq<char>>::empty());
    while i < total
        invariant
            1 <= i <= total,
            total == words@.len(),
            all == text::views(words@).skip(1),
            fields@ == numbers_of(all.take(i - 1)),
        decreases total - i,
    {
        assert(all.take(i as int).drop_last() =~= all.take(i - 1));
        assert(all.take(i as int).last() == words@[i as int]@);
        if let Some(number) = parse_u64(words[i].as_str()) {
            fields.push(number);
        }
        i = i + 1;
    }
    assert(all.take(total - 1) =~= all);
    fields
}

/// The sum of numbers.
pub open spec fn sum_of(numbers: Seq<u64>) -> int
    decreases numbers.len(),
{
    if numbers.len() == 0 {
        0
    } else {
        sum_of(numbers.drop_last()) + numbers.last()
    }
}

/// A sum is no smaller than that of the first numbers.
proof fn lemma_sum_grows(numbers: Seq<u64>, k: int)
    requires
        0 <= k <= numbers.len(),
    ensures
        0 <= sum_of(numbers.take(k)) <= sum_of(numbers),
    decreases numbers.len() - k, k,
{
    if k < numbers.len() {
        lemma_sum_grows(numbers, k + 1);
        assert(numbers.take(k + 1).drop_last() =~= numbers.take(k));
    } else {
        assert(numbers.take(k) =~= numbers);
    }
    lemma_sum_not_negative(numbers.take(k));
}

/// A sum is not negative.
proof fn lemma_sum_not_negative(numbers: Seq<u64>)
    ensures
        sum_of(numbers) >= 0,
    decreases numbers.len(),
{
    if numbers.len() > 0 {
        lemma_sum_not_negative(numbers.drop_last());
    }
}

/// The ticks that all processors were busy: all but those spent idle or waiting, which are the
/// fourth and the fifth number. With fewer numbers nothing is known.
pub fn busy_ticks(fields: &Vec<u64>) -> (busy: Option<u64>)
    requires
        sum_of(fields@) <= u64::MAX,
    ensures
        busy == (if fields@.len() >= 5 {
            Some((sum_of(fields@) - fields@[3] - fields@[4]) as u64)
        } else {
            None
        }),
        fields@.len() >= 5 ==> fields@[3] + fields@[4] <= sum_of(fields@),
{
    if fields.len() < 5 {
        return None;
    }
    let mut total: u64 = 0;
    let mut i: usize = 0;
    while i < fields.len()
        invariant
            i <= fields@.len(),
            sum_of(fields@) <= u64::MAX,
            total == sum_of(fields@.take(i as int)),
        decreases fields@.len() - i,
    {
        proof {
            lemma_sum_grows(fields@, i + 1);
            assert(fields@.take(i + 1).drop_last() =~= fields@.take(i as int));
        }
        total = total + fields[i];
        i = i + 1;
    }
    assert(fields@.take(i as int) =~= fields@);
    proof {
        lemma_sum_grows(fields@, 5);
        lemma_sum_not_negative(fields@.take(3));
        assert(fields@.take(5).drop_last() =~= fields@.take(4));
        assert(fields@.take(4).drop_last() =~= fields@.take(3));
        assert(sum_of(fields@.take(4)) == sum_of(fields@.take(3)) + fields@[3]);
        assert(sum_of(fields@.take(5)) == sum_of(fields@.take(4)) + fields@[4]);
    }
    Some(total - fields[3] - fields[4])
}

/// A load, as it was measured last.
#[derive(Clone, Copy, Debug, PartialEq, Eq, Structural)]
pub struct LoadCache {
    /// The load.
    pub load: u64,
    /// The ticks that had been counted then.
    pub ticks: u64,
    /// When that was.
    pub time: u64,
}

/// The load that some ticks make in some time.
pub open spec fn load_of(ticks: int, ticks_per_second: int, elapsed: int) -> int {
    ticks * 1_000_000_000_000_000 / (ticks_per_second * elapsed)
}

impl LoadCache {
    /// Whether it is time to measure again.
    pub open spec fn is_stale(self, now: u64) -> bool {
        now - self.time >= CACHE_INTERVAL
    }

    /// Whether it is time to measure again.
    pub fn stale(&self, now: u64) -> (stale: bool)
        requires
            self.time <= now,
        ensures
            stale == self.is_stale(now),
    {
        now - self.time >= CACHE_INTERVAL
    }

    /// The cache after a measurement. There is a load from the second one on that counted ticks.
    pub open spec fn measured(self, now: u64, ticks: Option<u64>, ticks_per_second: u32) -> LoadCache {
        match ticks {
            Some(ticks) => LoadCache {
                load: if ticks_per_second > 0 && self.ticks > 0 {
                    load_of(
                        if ticks > self.ticks {
                            ticks - self.ticks
                        } else {
                            0
                        },
                        ticks_per_second as int,
                        now - self.time,
                    ) as u64
                } else {
                    self.load
                },
                ticks,
                time: now,
            },
            None => LoadCache { time: now, ..self },
        }
    }

    /// Gives the load; where it is time, from the ticks just counted, if they could be counted.
    pub fn get_load(&mut self, now: u64, ticks: Option<u64>, ticks_per_second: u32) -> (load: u64)
        requires
            old(self).time <= now,
        ensures
            *final(self) == (if old(self).is_stale(now) {
                old(self).measured(now, ticks, ticks_per_second)
            } else {
                *old(self)
            }),
            load == final(self).load,
    {
        if now - self.time < CACHE_INTERVAL {
            return self.load;
        }
        if let Some(ticks) = ticks {
            if ticks_per_second > 0 && self.ticks > 0 {
                let more: u128 = if ticks > self.ticks { (ticks - self.ticks) as u128 } else { 0 };
                let elapsed: u128 = (now - self.time) as u128;
                let rate: u128 = ticks_per_second as u128;
                proof {
                    assert(60_000_000_000 <= rate * elapsed <= 0xffff_ffff * 0xffff_ffff_ffff_ffff)
                        by (nonlinear_arith)
                        requires
                            1 <= rate <= 0xffff_ffff,
                            60_000_000_000 <= elapsed <= 0xffff_ffff_ffff_ffff,
                    ;
                }
                let scaled: u128 = more * 1_000_000_000_000_000 / (rate * elapsed);
                self.load = scaled as u64;
            }
            self.ticks = ticks;
        }
        self.time = now;
        self.load
    }
}

/// The temperature, as it was read last.
#[derive(Clone, Copy, Debug, PartialEq, Eq, Structural)]
pub struct TemperatureCache {
    /// The temperature.
    pub value: i32,
    /// When it was read.
    pub time: u64,
    /// The highest that was read, if any was.
    pub high_water: Option<i32>,
}

impl TemperatureCache {
    /// Whether a reading is higher than all before.
    pub open spec fn is_record(self, reading: Option<i32>) -> bool {
        match (reading, self.high_water) {
            (Some(reading), Some(high)) => reading > high,
            (Some(_), None) => true,
            _ => false,
        }
    }

    /// Takes in a reading where it is time for one, and says whether it is worth a line in the
    /// log: where it is higher than all before.
    pub fn read(&mut self, now: u64, reading: Option<i32>) -> (record: bool)
        requires
            old(self).time <= now,
        ensures
            record == (now - old(self).time >= CACHE_INTERVAL && old(self).is_record(reading)),
            *final(self) == (if now - old(self).time < CACHE_INTERVAL {
                *old(self)
            } else {
                TemperatureCache {
                    value: match reading {
                        Some(reading) => reading,
                        None => old(self).value,
                    },
                    time: now,
                    high_water: if record {
                        reading
                    } else {
                        old(self).high_water
                    },
                }
            }),
    {
        if now - self.time < CACHE_INTERVAL {
            return false;
        }
        self.time = now;
        match reading {
            None => false,
            Some(reading) => {
                self.value = reading;
                let record: bool = match self.high_water {
                    Some(high) => reading > high,
                    None => true,
                };
                if record {
                    self.high_water = Some(reading);
                }
                record
            },
        }
    }
}

/// The ticks of a process or a thread at one time.
#[derive(Debug)]
pub struct TickSample {
    /// Its number.
    pub id: String,
    /// The ticks that it has used.
    pub ticks: u64,
    /// Its name.
    pub comm: String,
}

/// A line of the table.
#[derive(Debug)]
pub struct CpuRow {
    /// The number of a process or a thread.
    pub id: String,
    /// The ticks that it used within a second; none where it is not known how long they are.
    pub ticks: u64,
    /// How much of a core it uses, in tenths of a percent.
    pub permille: u128,
    /// Its name.
    pub comm: String,
}

/// A line of the table, as it reads.
pub struct RowView {
    /// The number of a process or a thread.
    pub id: Seq<char>,
    /// The ticks that it used within a second; none where it is not known how long they are.
    pub ticks: int,
    /// How much of a core it uses, in tenths of a percent.
    pub permille: int,
    /// Its name.
    pub comm: Seq<char>,
}

impl CpuRow {
    /// The line as it reads.
    pub open spec fn reads(&self) -> RowView {
        RowView {
            id: self.id@,
            ticks: self.ticks as int,
            permille: self.permille as int,
            comm: self.comm@,
        }
    }
}

/// The ticks that a number had before, if it was there: those of its first sample.
pub open spec fn ticks_before(before: Seq<TickSample>, id: Seq<char>) -> Option<u64>
    decreases before.len(),
{
    if before.len() == 0 {
        None
    } else {
        match ticks_before(before.drop_last(), id) {
            Some(ticks) => Some(ticks),
            None => if before.last().id@ == id {
                Some(before.last().ticks)
            } else {
                None
            },
        }
    }
}

/// The part of a core that ticks within a second make, in tenths of a percent, to the nearest.
pub open spec fn permille_of(ticks: int, ticks_per_second: int) -> int {
    if ticks_per_second > 0 {
        (ticks * 2000 + ticks_per_second) / (ticks_per_second * 2)
    } else {
        0
    }
}

/// A line put into a table, after all that use as much.
pub open spec fn put_row(table: Seq<RowView>, row: RowView) -> Seq<RowView>
    decreases table.len(),
{
    if table.len() == 0 || table.last().ticks >= row.ticks {
        table.push(row)
    } else {
        put_row(table.drop_last(), row).push(table.last())
    }
}

/// The line that a sample makes with the ticks that it had a second before.
pub open spec fn row_of(sample: TickSample, ticks: u64, ticks_per_second: int) -> RowView {
    let used = if ticks_per_second > 0 && sample.ticks > ticks {
        sample.ticks - ticks
    } else {
        0
    };
    RowView {
        id: sample.id@,
        ticks: used,
        permille: permille_of(used, ticks_per_second),
        comm: sample.comm@,
    }
}

/// The table that two rounds of samples make, the busiest first. What was not there in the first
/// round has no line.
pub open spec fn table_of(
    before: Seq<TickSample>,
    after: Seq<TickSample>,
    ticks_per_second: int,
) -> Seq<RowView>
    decreases after.len(),
{
    if after.len() == 0 {
        Seq::empty()
    } else {
        let front = table_of(before, after.drop_last(), ticks_per_second);
        match ticks_before(before, after.last().id@) {
            Some(ticks) => put_row(front, row_of(after.last(), ticks, ticks_per_second)),
            None => front,
        }
    }
}

/// The lines of a table as they read.
pub open spec fn read_rows(rows: Seq<CpuRow>) -> Seq<RowView> {
    Seq::new(rows.len(), |i: int| rows[i].reads())
}

/// Looks up the ticks that a number had before.
fn find_ticks(before: &Vec<TickSample>, id: &str) -> (ticks: Option<u64>)
    ensures
        ticks == ticks_before(before@, id@),
{
    let mut ticks: Option<u64> = None;
    let total: usize = before.len();
    let mut i: usize = 0;
    while i < total
        invariant
            i <= total,
            total == before@.len(),
            ticks == ticks_before(before@.take(i as int), id@),
        decreases total - i,
    {
        assert(before@.take(i + 1).drop_last() =~= before@.take(i as int));
        if ticks.is_none() && same_text(before[i].id.as_str(), id) {
            ticks = Some(before[i].ticks);
        }
        i = i + 1;
    }
    assert(before@.take(total as int) =~= before@);
    ticks
}

/// Where a line goes in a table.
pub open spec fn row_place(table: Seq<RowView>, ticks: int) -> int
    decreases table.len(),
{
    if table.len() == 0 || table.last().ticks >= ticks {
        table.len() as int
    } else {
        row_place(table.drop_last(), ticks)
    }
}

/// A line is put in at its place.
proof fn lemma_put_row(table: Seq<RowView>, row: RowView)
    ensures
        0 <= row_place(table, row.ticks) <= table.len(),
        put_row(table, row) == table.insert(row_place(table, row.ticks), row),
    decreases table.len(),
{
    if table.len() == 0 || table.last().ticks >= row.ticks {
        assert(table.insert(table.len() as int, row) =~= table.push(row));
    } else {
        lemma_put_row(table.drop_last(), row);
        let at = row_place(table, row.ticks);
        assert(table.drop_last().insert(at, row).push(table.last()) =~= table.insert(at, row));
    }
}

/// Puts a line into a table.
fn insert_row(rows: &mut Vec<CpuRow>, row: CpuRow)
    ensures
        read_rows(final(rows)@) == put_row(read_rows(old(rows)@), row.reads()),
{
    let mut at: usize = rows.len();
    let ghost table = read_rows(rows@);
    assert(table.take(at as int) =~= table);
    while at > 0 && rows[at - 1].ticks < row.ticks
        invariant
            at <= rows@.len(),
            table == read_rows(rows@),
            row_place(table, row.ticks as int) == row_place(
                table.take(at as int),
                row.ticks as int,
            ),
        decreases at,
    {
        assert(table.take(at as int).drop_last() =~= table.take(at - 1));
        assert(table.take(at as int).last() == rows@[at - 1].reads());
        at = at - 1;
    }
    proof {
        if at > 0 {
            assert(table.take(at as int).last() == rows@[at - 1].reads());
        }
        lemma_put_row(table, row.reads());
    }
    let ghost line = row.reads();
    rows.insert(at, row);
    assert(read_rows(rows@) =~= table.insert(at as int, line));
}

/// The part of a core that ticks within a second make.
fn compute_permille(ticks: u64, ticks_per_second: u32) -> (permille: u128)
    ensures
        permille == permille_of(ticks as int, ticks_per_second as int),
{
    if ticks_per_second == 0 {
        return 0;
    }
    let num: u128 = ticks as u128 * 2000 + ticks_per_second as u128;
    let den: u128 = ticks_per_second as u128 * 2;
    num / den
}

/// Makes the table of two rounds of samples that were taken a second apart.
pub fn cpu_table(before: &Vec<TickSample>, after: &Vec<TickSample>, ticks_per_second: u32) -> (rows:
    Vec<CpuRow>)
    ensures
        read_rows(rows@) == table_of(before@, after@, ticks_per_second as int),
{
    let mut rows: Vec<CpuRow> = Vec::new();
    let total: usize = after.len();
    let mut i: usize = 0;
    assert(read_rows(rows@) =~= Seq::<RowView>::empty());
    while i < total
        invariant
            i <= total,
            total == after@.len(),
            read_rows(rows@) == table_of(
                before@,
                after@.take(i as int),
                ticks_per_second as int,
            ),
        decreases total - i,
    {
        assert(after@.take(i + 1).drop_last() =~= after@.take(i as int));
        let sample: &TickSample = &after[i];
        if let Some(ticks) = find_ticks(before, sample.id.as_str()) {
            let more: u64 = if ticks_per_second > 0 && sample.ticks > ticks {
                sample.ticks - ticks
            } else {
                0
            };
            let permille: u128 = compute_permille(more, ticks_per_second);
            let row = CpuRow {
                id: sample.id.clone(),
                ticks: more,
                permille,
                comm: sample.comm.clone(),
            };
            insert_row(&mut rows, row);
        }
        i = i + 1;
    }
    assert(after@.take(total as int) =~= after@);
    rows
}

/// Whether no line uses more than one above it.
pub open spec fn is_descending(table: Seq<RowView>) -> bool {
    forall|i: int, j: int|
        0 <= i <= j < table.len() ==> (#[trigger] table[i]).ticks >= (
        #[trigger] table[j]).ticks
}

/// A line that is put in leaves a table in order.
proof fn lemma_put_keeps_order(table: Seq<RowView>, row: RowView)
    requires
        is_descending(table),
    ensures
        is_descending(put_row(table, row)),
        forall|i: int|
            0 <= i < put_row(table, row).len() ==> ((#[trigger] put_row(table, row)[i]) == row
                || table.contains(put_row(table, row)[i])),
    decreases table.len(),
{
    if table.len() == 0 || table.last().ticks >= row.ticks {
        let put = table.push(row);
        assert forall|i: int| 0 <= i < put.len() implies ((#[trigger] put[i]) == row
            || table.contains(put[i])) by {
            if i < table.len() {
                assert(put[i] == table[i]);
            }
        }
    } else {
        let front = table.drop_last();
        assert(is_descending(front)) by {
            assert forall|i: int, j: int| 0 <= i <= j < front.len() implies (
            #[trigger] front[i]).ticks >= (#[trigger] front[j]).ticks by {
                assert(front[i] == table[i] && front[j] == table[j]);
            }
        }
        lemma_put_keeps_order(front, row);
        let inner = put_row(front, row);
        let put = inner.push(table.last());
        assert forall|i: int| 0 <= i < put.len() implies ((#[trigger] put[i]) == row
            || table.contains(put[i])) by {
            if i < inner.len() {
                assert(put[i] == inner[i]);
                if inner[i] != row {
                    let k = choose|k: int| 0 <= k < front.len() && front[k] == inner[i];
                    assert(table[k] == inner[i]);
                }
            } else {
                assert(table[table.len() - 1] == put[i]);
            }
        }
        assert forall|i: int, j: int| 0 <= i <= j < put.len() implies (#[trigger] put[i]).ticks
            >= (#[trigger] put[j]).ticks by {
            if j < inner.len() {
                assert(put[i] == inner[i] && put[j] == inner[j]);
            } else if i < inner.len() {
                assert(put[i] == inner[i]);
                if inner[i] != row {
                    let k = choose|k: int| 0 <= k < front.len() && front[k] == inner[i];
                    assert(table[k] == inner[i]);
                    assert(table[table.len() - 1] == table.last());
                }
            }
        }
    }
}

/// The table has the busiest first.
pub proof fn law_table_is_descending(
    before: Seq<TickSample>,
    after: Seq<TickSample>,
    ticks_per_second: int,
)
    ensures
        is_descending(table_of(before, after, ticks_per_second)),
    decreases after.len(),
{
    if after.len() > 0 {
        law_table_is_descending(before, after.drop_last(), ticks_per_second);
        if let Some(ticks) = ticks_before(before, after.last().id@) {
            lemma_put_keeps_order(
                table_of(before, after.drop_last(), ticks_per_second),
                row_of(after.last(), ticks, ticks_per_second),
            );
        }
    }
}

/// So many spaces.
pub open spec fn spaces(count: int) -> Seq<char> {
    if count > 0 {
        Seq::new(count as nat, |i: int| ' ')
    } else {
        Seq::empty()
    }
}

/// A text filled up with spaces on the right.
pub open spec fn left_aligned(s: Seq<char>, width: int) -> Seq<char> {
    s + spaces(width - s.len())
}

/// A text filled up with spaces on the left.
pub open spec fn right_aligned(s: Seq<char>, width: int) -> Seq<char> {
    spaces(width - s.len()) + s
}

/// A number of tenths with one digit behind the point.
pub open spec fn tenths_text(tenths: int) -> Seq<char> {
    text::decimal((tenths / 10) as nat) + seq!['.', text::digit_char(tenths % 10)]
}

/// A line of the table as text.
pub open spec fn row_text(row: RowView) -> Seq<char> {
    left_aligned(row.id, 8) + seq![' '] + right_aligned(tenths_text(row.permille), 6) + "%  "@
        + row.comm + seq!['\n']
}

/// The first lines of a table as text, one after the other.
pub open spec fn rows_text(rows: Seq<RowView>) -> Seq<char>
    decreases rows.len(),
{
    if rows.len() == 0 {
        Seq::empty()
    } else {
        rows_text(rows.drop_last()) + row_text(rows.last())
    }
}

/// The table as text: a heading, and a number of lines at most.
pub open spec fn table_text(rows: Seq<RowView>, max_rows: int) -> Seq<char> {
    "PID/TID     %CPU  COMMAND\n"@ + rows_text(
        if rows.len() < max_rows {
            rows
        } else {
            rows.take(max_rows)
        },
    )
}

/// Appends spaces.
fn push_spaces(out: &mut String, count: usize)
    ensures
        final(out)@ == old(out)@ + spaces(count as int),
{
    let ghost before = out@;
    let mut i: usize = 0;
    assert(before + spaces(0) =~= before);
    while i < count
        invariant
            i <= count,
            out@ == before + spaces(i as int),
        decreases count - i,
    {
        out.push(' ');
        i = i + 1;
        assert(out@ =~= before + spaces(i as int));
    }
}

/// Appends a line of the table.
fn push_row(out: &mut String, row: &CpuRow)
    ensures
        final(out)@ == old(out)@ + row_text(row.reads()),
{
    let ghost before = out@;
    let id_len: usize = row.id.as_str().unicode_len();
    out.append(row.id.as_str());
    push_spaces(out, if id_len < 8 { 8 - id_len } else { 0 });
    assert(out@ =~= before + left_aligned(row.id@, 8));
    out.push(' ');
    let ghost middle = out@;
    let mut number: String = String::new();
    push_long_decimal(&mut number, row.permille / 10);
    number.push('.');
    number.push((48u8 + (row.permille % 10) as u8) as char);
    assert(number@ =~= tenths_text(row.permille as int));
    let number_len: usize = number.as_str().unicode_len();
    push_spaces(out, if number_len < 6 { 6 - number_len } else { 0 });
    out.append(number.as_str());
    assert(out@ =~= middle + right_aligned(number@, 6));
    out.append("%  ");
    out.append(row.comm.as_str());
    out.push('\n');
    assert(out@ =~= before + row_text(row.reads()));
}

/// Appends the table as text.
pub fn append_table(out: &mut String, rows: &Vec<CpuRow>, max_rows: usize)
    ensures
        final(out)@ == old(out)@ + table_text(read_rows(rows@), max_rows as int),
{
    let ghost before = out@;
    out.append("PID/TID     %CPU  COMMAND\n");
    let ghost headed = out@;
    let count: usize = if rows.len() < max_rows { rows.len() } else { max_rows };
    let ghost all = read_rows(rows@);
    let mut i: usize = 0;
    assert(headed + rows_text(all.take(0)) =~= headed);
    while i < count
        invariant
            i <= count <= rows@.len(),
            all == read_rows(rows@),
            out@ == headed + rows_text(all.take(i as int)),
        decreases count - i,
    {
        assert(all.take(i + 1).drop_last() =~= all.take(i as int));
        push_row(out, &rows[i]);
        i = i + 1;
        assert(out@ =~= headed + rows_text(all.take(i as int)));
    }
    assert(all.take(rows@.len() as int) =~= all);
    assert(out@ =~= before + table_text(all, max_rows as int));
}

/// A table as text, or why there is none.
pub open spec fn section_text(rows: Result<Vec<CpuRow>, String>, max_rows: int) -> Seq<char> {
    match rows {
        Ok(rows) => table_text(read_rows(rows@), max_rows),
        Err(error) => "(error: "@ + error@ + ")\n"@,
    }
}

/// Appends a table, or why there is none.
fn append_section(out: &mut String, rows: &Result<Vec<CpuRow>, String>, max_rows: usize)
    ensures
        final(out)@ == old(out)@ + section_text(*rows, max_rows as int),
{
    let ghost before = out@;
    match rows {
        Ok(rows) => append_table(out, rows, max_rows),
        Err(error) => {
            out.append("(error: ");
            out.append(error.as_str());
            out.append(")\n");
            assert(out@ =~= before + section_text(Err(*error), max_rows as int));
        },
    }
}

/// Reports the fifteen busiest processes, and all threads of this one.
pub fn top_report(
    processes: &Result<Vec<CpuRow>, String>,
    threads: &Result<Vec<CpuRow>, String>,
) -> (report: String)
    ensures
        report@ == "=== Top processes by CPU (instantaneous) ===\n"@ + section_text(*processes, 15)
            + "\n=== This process's threads by CPU (instantaneous) ===\n"@ + section_text(
            *threads,
            usize::MAX as int,
        ),
{
    let mut report: String = "=== Top processes by CPU (instantaneous) ===\n".to_owned();
    append_section(&mut report, processes, 15);
    report.append("\n=== This process's threads by CPU (instantaneous) ===\n");
    append_section(&mut report, threads, usize::MAX);
    report
}

/// What follows the last closing parenthesis of a status line is read in words: the twelfth and the
/// thirteenth are the ticks, where both are numbers. A name may hold anything.
pub proof fn law_ticks_follow_the_name(
    line: &str,
    head: Seq<char>,
    rest: &str,
    ticks: Option<(u64, u64)>,
    words: Vec<String>,
    twelfth: &str,
    thirteenth: &str,
    utime: Option<u64>,
    stime: Option<u64>,
)
    requires
        line@ == head + seq![')'] + rest@,
        !rest@.contains(')'),
        call_ensures(parse_utime_stime, (line,), ticks),
        call_ensures(split_words, (rest,), words),
        words@.len() > 12 ==> twelfth@ == words@[11]@ && thirteenth@ == words@[12]@,
        call_ensures(parse_u64, (twelfth,), utime),
        call_ensures(parse_u64, (thirteenth,), stime),
    ensures
        ticks is Some <==> words@.len() > 12 && utime is Some && stime is Some,
        ticks matches Some(found) ==> utime == Some(found.0) && stime == Some(found.1),
{
    assert(line@.skip(head.len() as int + 1) =~= rest@);
    lemma_last_index(line@, ')', head.len() as int, rest@);
    assert(text::views(words@) == text::words(rest@));
    if words@.len() > 12 {
        assert(text::views(words@)[11] == words@[11]@);
        assert(text::views(words@)[12] == words@[12]@);
    }
}

/// A character stands last where none follows.
proof fn lemma_last_index(s: Seq<char>, ch: char, at: int, rest: Seq<char>)
    requires
        0 <= at < s.len(),
        s[at] == ch,
        s.skip(at + 1) == rest,
        !rest.contains(ch),
    ensures
        last_index(s, ch) == Some(at),
    decreases s.len(),
{
    if at < s.len() - 1 {
        assert(rest[rest.len() - 1] == s.last());
        assert(rest.contains(rest[rest.len() - 1]));
        let shorter = rest.drop_last();
        assert(s.drop_last().skip(at + 1) =~= shorter);
        assert(!shorter.contains(ch)) by {
            if shorter.contains(ch) {
                let i = choose|i: int| 0 <= i < shorter.len() && shorter[i] == ch;
                assert(rest[i] == ch);
            }
        }
        lemma_last_index(s.drop_last(), ch, at, shorter);
    }
}

/// The name of a process stands between the first opening and the last closing parenthesis,
/// whatever it holds.
pub proof fn law_name_stands_in_parentheses(
    line: &str,
    head: Seq<char>,
    name: Seq<char>,
    rest: Seq<char>,
    read: Option<String>,
)
    requires
        line@ == head + seq!['('] + name + seq![')'] + rest,
        !head.contains('('),
        !rest.contains(')'),
        call_ensures(parse_comm, (line,), read),
    ensures
        name.len() > 0 ==> (read matches Some(found) && found@ == name),
        name.len() == 0 ==> read is None,
{
    let open = head.len() as int;
    assert forall|j: int| 0 <= j < open implies line@[j] != '(' by {
        assert(head.contains(head[j]));
        assert(line@[j] == head[j]);
    }
    assert(line@[open] == '(');
    crate::lx200_server::lemma_first_index(line@, '(', open);
    let close = open + 1 + name.len();
    assert(line@[close] == ')');
    assert(line@.skip(close + 1) =~= rest);
    lemma_last_index(line@, ')', close, rest);
    assert(line@.subrange(open + 1, close) =~= name);
}

/// A directory is one of a process where its name has digits only. Of the file on all processors
/// only the first line counts.
pub proof fn law_first_line_counts(
    name: &str,
    numeric: bool,
    stat: &str,
    line: &str,
    more: Seq<char>,
    of_stat: Vec<u64>,
    of_line: Vec<u64>,
    i: int,
)
    requires
        call_ensures(is_process_name, (name,), numeric),
        stat@ == line@ + seq!['\n'] + more,
        !line@.contains('\n'),
        call_ensures(parse_cpu_fields, (stat,), of_stat),
        call_ensures(parse_cpu_fields, (line,), of_line),
    ensures
        numeric && 0 <= i < name@.len() ==> '0' <= name@[i] <= '9',
        !numeric ==> exists|j: int|
            0 <= j < name@.len() && !('0' <= #[trigger] name@[j] && name@[j] <= '9'),
        of_stat@ == of_line@,
{
    let at = line@.len() as int;
    assert forall|j: int| 0 <= j < at implies stat@[j] != '\n' && line@[j] != '\n' by {
        assert(line@.contains(line@[j]));
        assert(stat@[j] == line@[j]);
    }
    assert(stat@[at] == '\n');
    crate::lx200_server::lemma_first_index(stat@, '\n', at);
    crate::lx200_server::lemma_first_index(line@, '\n', at);
    assert(stat@.take(at) =~= line@);
    if numeric && 0 <= i < name@.len() {
        assert(text::is_digit(name@[i]));
    }
    if !numeric {
        let j = choose|j: int| 0 <= j < name@.len() && !text::is_digit(#[trigger] name@[j]);
        assert(!('0' <= name@[j] && name@[j] <= '9'));
    }
}

/// Numbers after the label are read in order; a word that is no number is passed over.
pub proof fn law_numbers_are_read_in_order(words: Seq<Seq<char>>, i: int)
    requires
        0 <= i < words.len(),
        forall|j: int| 0 <= j < words.len() ==> text::u64_value(#[trigger] words[j]) is Some,
    ensures
        numbers_of(words).len() == words.len(),
        Some(numbers_of(words)[i]) == text::u64_value(words[i]),
    decreases words.len(),
{
    let front = words.drop_last();
    assert(text::u64_value(words[words.len() - 1]) is Some);
    assert forall|j: int| 0 <= j < front.len() implies text::u64_value(
        #[trigger] front[j],
    ) is Some by {
        assert(front[j] == words[j]);
    }
    if front.len() > 0 {
        law_numbers_are_read_in_order(front, if i < front.len() { i } else { 0 });
    } else {
        assert(numbers_of(front).len() == 0);
    }
}

/// Of the numbers on all processors the fourth and the fifth are idle time, and all others count as
/// busy, however many there are. With fewer than five nothing is known.
pub proof fn law_idle_time_does_not_count(
    fields: Vec<u64>,
    more: Vec<u64>,
    extra: u64,
    busy: Option<u64>,
    busier: Option<u64>,
)
    requires
        more@ == fields@.push(extra),
        sum_of(more@) <= u64::MAX,
        call_ensures(busy_ticks, (&fields,), busy),
        call_ensures(busy_ticks, (&more,), busier),
    ensures
        busy is Some <==> fields@.len() >= 5,
        fields@.len() == 5 ==> (busy matches Some(ticks) && ticks == fields@[0] + fields@[1]
            + fields@[2]),
        fields@.len() >= 5 ==> busier->0 == busy->0 + extra,
{
    assert(more@.drop_last() =~= fields@);
    lemma_sum_not_negative(fields@);
    if fields@.len() >= 5 {
        lemma_sum_grows(fields@, 5);
        assert(fields@.take(5).drop_last() =~= fields@.take(4));
        assert(fields@.take(4).drop_last() =~= fields@.take(3));
        assert(fields@.take(3).drop_last() =~= fields@.take(2));
        assert(fields@.take(2).drop_last() =~= fields@.take(1));
        assert(fields@.take(1).drop_last() =~= fields@.take(0));
        assert(sum_of(fields@.take(0)) == 0);
        assert(sum_of(fields@.take(1)) == fields@[0]);
        assert(sum_of(fields@.take(2)) == fields@[0] + fields@[1]);
        assert(sum_of(fields@.take(3)) == fields@[0] + fields@[1] + fields@[2]);
        assert(sum_of(fields@.take(4)) == sum_of(fields@.take(3)) + fields@[3]);
        assert(sum_of(fields@.take(5)) == sum_of(fields@.take(4)) + fields@[4]);
        if fields@.len() == 5 {
            assert(fields@.take(5) =~= fields@);
        }
        assert(more@[3] == fields@[3] && more@[4] == fields@[4]);
    }
}

/// A load is good for a minute. Measured again, it is what the new ticks make of the time that has
/// passed: all ticks of all that time make one core. Ticks that could not be counted leave it.
pub proof fn law_load_is_measured_each_minute(
    cache: &mut LoadCache,
    now: u64,
    ticks: Option<u64>,
    ticks_per_second: u32,
    load: u64,
)
    requires
        old(cache).time <= now,
        call_ensures(LoadCache::get_load, (cache, now, ticks, ticks_per_second), load),
    ensures
        load == final(cache).load,
        now - old(cache).time < 60_000_000_000 ==> *final(cache) == *old(cache),
        now - old(cache).time >= 60_000_000_000 ==> final(cache).time == now,
        now - old(cache).time >= 60_000_000_000 && ticks is None ==> load == old(cache).load
            && final(cache).ticks == old(cache).ticks,
        now - old(cache).time >= 60_000_000_000 ==> (ticks matches Some(counted)
            ==> final(cache).ticks == counted && (old(cache).ticks == 0 || ticks_per_second == 0
            ==> load == old(cache).load) && (old(cache).ticks > 0 && ticks_per_second > 0 ==> (
        counted <= old(cache).ticks ==> load == 0) && (counted > old(cache).ticks
            && counted - old(cache).ticks <= 18_000_000_000_000
            ==> load * (ticks_per_second * (now - old(cache).time)) <= (
        counted - old(cache).ticks) * 1_000_000_000_000_000 < (load + 1) * (ticks_per_second * (now
            - old(cache).time))))),
{
    if now - old(cache).time >= 60_000_000_000 {
        if let Some(counted) = ticks {
            if old(cache).ticks > 0 && ticks_per_second > 0 {
                let elapsed = now - old(cache).time;
                let span = ticks_per_second * elapsed;
                assert(span >= 60_000_000_000) by (nonlinear_arith)
                    requires
                        span == ticks_per_second * elapsed,
                        ticks_per_second >= 1,
                        elapsed >= 60_000_000_000,
                ;
                if counted > old(cache).ticks {
                    let more = counted - old(cache).ticks;
                    let q = more * 1_000_000_000_000_000 / span;
                    assert(q * span <= more * 1_000_000_000_000_000 < (q + 1) * span && 0 <= q)
                        by (nonlinear_arith)
                        requires
                            span > 0,
                            more >= 0,
                            q == more * 1_000_000_000_000_000 / span,
                    ;
                    if more <= 18_000_000_000_000 {
                        assert(q <= u64::MAX) by (nonlinear_arith)
                            requires
                                span >= 60_000_000_000,
                                0 <= more <= 18_000_000_000_000,
                                q == more * 1_000_000_000_000_000 / span,
                        ;
                    }
                } else {
                    assert(0int * 1_000_000_000_000_000 / span == 0) by (nonlinear_arith)
                        requires
                            span > 0,
                    ;
                }
            }
        }
    }
}

/// A temperature is good for a minute. It is worth a line where it is higher than all before, and
/// the highest is never lost.
pub proof fn law_temperature_is_read_each_minute(
    cache: &mut TemperatureCache,
    now: u64,
    reading: Option<i32>,
    record: bool,
)
    requires
        old(cache).time <= now,
        call_ensures(TemperatureCache::read, (cache, now, reading), record),
    ensures
        now - old(cache).time < 60_000_000_000 ==> *final(cache) == *old(cache) && !record,
        now - old(cache).time >= 60_000_000_000 ==> final(cache).time == now && (
        reading matches Some(value) ==> final(cache).value == value && (
        final(cache).high_water matches Some(high) && value <= high)) && (reading is None
            ==> final(cache).value == old(cache).value),
        old(cache).high_water matches Some(high) ==> (final(cache).high_water matches Some(higher)
            && high <= higher),
        record <==> final(cache).high_water != old(cache).high_water,
        record ==> final(cache).high_water == reading,
{
}

/// Whatever is put into a table stays in it.
proof fn lemma_put_keeps_lines(table: Seq<RowView>, row: RowView, other: RowView)
    ensures
        put_row(table, row).contains(row),
        table.contains(other) ==> put_row(table, row).contains(other),
        put_row(table, row).len() == table.len() + 1,
    decreases table.len(),
{
    let put = put_row(table, row);
    if table.len() == 0 || table.last().ticks >= row.ticks {
        assert(put[table.len() as int] == row);
        if table.contains(other) {
            let i = choose|i: int| 0 <= i < table.len() && table[i] == other;
            assert(put[i] == other);
        }
    } else {
        let front = table.drop_last();
        let inner = put_row(front, row);
        lemma_put_keeps_lines(front, row, other);
        let k = choose|k: int| 0 <= k < inner.len() && inner[k] == row;
        assert(put[k] == row);
        if table.contains(other) {
            let i = choose|i: int| 0 <= i < table.len() && table[i] == other;
            if i < front.len() {
                assert(front[i] == other);
                assert(front.contains(other));
                let j = choose|j: int| 0 <= j < inner.len() && inner[j] == other;
                assert(put[j] == other);
            } else {
                assert(put[inner.len() as int] == other);
            }
        }
    }
}

/// A sample that was there before has its line in the table.
proof fn lemma_sample_has_line(
    before: Seq<TickSample>,
    after: Seq<TickSample>,
    ticks_per_second: int,
    i: int,
    ticks: u64,
)
    requires
        0 <= i < after.len(),
        ticks_before(before, after[i].id@) == Some(ticks),
    ensures
        table_of(before, after, ticks_per_second).contains(
            row_of(after[i], ticks, ticks_per_second),
        ),
        table_of(before, after, ticks_per_second).len() <= after.len(),
    decreases after.len(),
{
    let front = after.drop_last();
    let row = row_of(after[i], ticks, ticks_per_second);
    lemma_table_len(before, front, ticks_per_second);
    lemma_table_len(before, after, ticks_per_second);
    if i < front.len() {
        assert(front[i] == after[i]);
        lemma_sample_has_line(before, front, ticks_per_second, i, ticks);
        if let Some(own) = ticks_before(before, after.last().id@) {
            lemma_put_keeps_lines(
                table_of(before, front, ticks_per_second),
                row_of(after.last(), own, ticks_per_second),
                row,
            );
        }
    } else {
        lemma_put_keeps_lines(table_of(before, front, ticks_per_second), row, row);
    }
}

/// There are no more lines than samples.
proof fn lemma_table_len(before: Seq<TickSample>, after: Seq<TickSample>, ticks_per_second: int)
    ensures
        table_of(before, after, ticks_per_second).len() <= after.len(),
    decreases after.len(),
{
    if after.len() > 0 {
        let front = after.drop_last();
        lemma_table_len(before, front, ticks_per_second);
        if let Some(own) = ticks_before(before, after.last().id@) {
            let row = row_of(after.last(), own, ticks_per_second);
            lemma_put_keeps_lines(table_of(before, front, ticks_per_second), row, row);
        }
    }
}

/// The ticks that a number had before are those of its first sample.
proof fn lemma_first_sample(before: Seq<TickSample>, id: Seq<char>, j: int)
    requires
        0 <= j < before.len(),
        before[j].id@ == id,
        forall|k: int| 0 <= k < j ==> (#[trigger] before[k]).id@ != id,
    ensures
        ticks_before(before, id) == Some(before[j].ticks),
    decreases before.len(),
{
    let front = before.drop_last();
    if j < front.len() {
        assert(front[j] == before[j]);
        lemma_first_sample(front, id, j);
    } else {
        lemma_no_sample(front, id);
    }
}

/// A number that was not there had no ticks.
proof fn lemma_no_sample(before: Seq<TickSample>, id: Seq<char>)
    requires
        forall|k: int| 0 <= k < before.len() ==> (#[trigger] before[k]).id@ != id,
    ensures
        ticks_before(before, id) is None,
    decreases before.len(),
{
    if before.len() > 0 {
        let front = before.drop_last();
        assert forall|k: int| 0 <= k < front.len() implies (#[trigger] front[k]).id@ != id by {
            assert(front[k] == before[k]);
        }
        lemma_no_sample(front, id);
        assert(before[before.len() - 1].id@ != id);
    }
}

/// What was sampled twice has a line: the ticks that it used in between, and the part of a core
/// that they make, to the nearest tenth of a percent. Lines with more ticks come first.
pub proof fn law_table_shows_what_was_used(
    before: Vec<TickSample>,
    after: Vec<TickSample>,
    ticks_per_second: u32,
    rows: Vec<CpuRow>,
    i: int,
    j: int,
    a: int,
    b: int,
)
    requires
        ticks_per_second > 0,
        0 <= i < after@.len(),
        0 <= j < before@.len(),
        before@[j].id@ == after@[i].id@,
        forall|k: int| 0 <= k < j ==> (#[trigger] before@[k]).id@ != after@[i].id@,
        call_ensures(cpu_table, (&before, &after, ticks_per_second), rows),
    ensures
        exists|k: int|
            {
                &&& 0 <= k < rows@.len()
                &&& (#[trigger] rows@[k]).id@ == after@[i].id@
                &&& rows@[k].comm@ == after@[i].comm@
                &&& after@[i].ticks >= before@[j].ticks ==> rows@[k].ticks == after@[i].ticks
                    - before@[j].ticks
                &&& after@[i].ticks < before@[j].ticks ==> rows@[k].ticks == 0
                &&& 2 * rows@[k].permille * ticks_per_second <= 2000 * rows@[k].ticks
                    + ticks_per_second
                &&& 2000 * rows@[k].ticks < 2 * rows@[k].permille * ticks_per_second
                    + ticks_per_second
            },
        rows@.len() <= after@.len(),
        0 <= a <= b < rows@.len() ==> rows@[a].ticks >= rows@[b].ticks,
{
    let t = ticks_per_second as int;
    lemma_first_sample(before@, after@[i].id@, j);
    lemma_sample_has_line(before@, after@, t, i, before@[j].ticks);
    law_table_is_descending(before@, after@, t);
    let table = read_rows(rows@);
    let row = row_of(after@[i], before@[j].ticks, t);
    let k = choose|k: int| 0 <= k < table.len() && table[k] == row;
    assert(rows@[k].reads() == row);
    let u = row.ticks;
    let p = row.permille;
    assert(2 * p * t <= 2000 * u + t && 2000 * u < 2 * p * t + t) by (nonlinear_arith)
        requires
            t > 0,
            u >= 0,
            p == (u * 2000 + t) / (t * 2),
    ;
    if 0 <= a <= b < rows@.len() {
        assert(table[a].ticks == rows@[a].ticks && table[b].ticks == rows@[b].ticks);
    }
}

/// A table starts with its heading, and each further line adds the number, filled up to eight
/// places, a blank, the percentage with one digit behind the point, filled up to six, and the name.
/// No more lines are shown than are wanted.
pub proof fn law_table_is_written_by_lines(
    out: &mut String,
    longer: &mut String,
    fewer: Vec<CpuRow>,
    more: Vec<CpuRow>,
    row: CpuRow,
    max_rows: usize,
)
    requires
        old(out)@ == old(longer)@,
        more@ == fewer@.push(row),
        row.id@.len() < 8,
        row.permille < 100,
        call_ensures(append_table, (out, &fewer, max_rows), ()),
        call_ensures(append_table, (longer, &more, max_rows), ()),
    ensures
        fewer@.len() == 0 || max_rows == 0 ==> final(out)@ == old(out)@
            + "PID/TID     %CPU  COMMAND\n"@,
        fewer@.len() >= max_rows ==> final(longer)@ == final(out)@,
        fewer@.len() < max_rows ==> final(longer)@ == final(out)@ + row.id@ + Seq::new(
            (8 - row.id@.len()) as nat,
            |i: int| ' ',
        ) + seq![
            ' ',
            ' ',
            ' ',
            ' ',
            text::digit_char(row.permille as int / 10),
            '.',
            text::digit_char(row.permille as int % 10),
            '%',
            ' ',
            ' ',
        ] + row.comm@ + seq!['\n'],
{
    let all = read_rows(more@);
    let some = read_rows(fewer@);
    assert(all.drop_last() =~= some);
    assert(all.last() == row.reads());
    let none = Seq::<RowView>::empty();
    assert(some.take(0) =~= none);
    assert(rows_text(none) =~= Seq::<char>::empty());
    if fewer@.len() == 0 || max_rows == 0 {
        if fewer@.len() == 0 {
            assert(some =~= none);
        }
        assert(final(out)@ =~= old(out)@ + "PID/TID     %CPU  COMMAND\n"@);
    }
    if fewer@.len() >= max_rows {
        assert(all.take(max_rows as int) =~= some.take(max_rows as int));
        if some.len() == max_rows {
            assert(some.take(max_rows as int) =~= some);
        }
    } else {
        if all.len() == max_rows {
            assert(all.take(max_rows as int) =~= all);
        }
        reveal_strlit("%  ");
        let tenths = row.permille as int;
        assert(text::decimal((tenths / 10) as nat) =~= seq![text::digit_char(tenths / 10)]);
        let number = tenths_text(tenths);
        assert(number =~= seq![
            text::digit_char(tenths / 10),
            '.',
            text::digit_char(tenths % 10),
        ]);
        assert(right_aligned(number, 6) =~= seq![
            ' ',
            ' ',
            ' ',
            text::digit_char(tenths / 10),
            '.',
            text::digit_char(tenths % 10),
        ]);
        assert(final(longer)@ =~= final(out)@ + row_text(row.reads()));
        assert(row_text(row.reads()) =~= row.id@ + Seq::new(
            (8 - row.id@.len()) as nat,
            |i: int| ' ',
        ) + seq![
            ' ',
            ' ',
            ' ',
            ' ',
            text::digit_char(row.permille as int / 10),
            '.',
            text::digit_char(row.permille as int % 10),
            '%',
            ' ',
            ' ',
        ] + row.comm@ + seq!['\n']);
        assert(final(longer)@ =~= final(out)@ + row.id@ + Seq::new(
            (8 - row.id@.len()) as nat,
            |i: int| ' ',
        ) + seq![
            ' ',
            ' ',
            ' ',
            ' ',
            text::digit_char(row.permille as int / 10),
            '.',
            text::digit_char(row.permille as int % 10),
            '%',
            ' ',
            ' ',
        ] + row.comm@ + seq!['\n']);
    }
}

/// A report holds the table of processes, of which fifteen at most, and then the table of threads;
/// in place of one that could not be made it says why.
pub proof fn law_report_holds_both_tables(
    processes: Vec<CpuRow>,
    threads: Vec<CpuRow>,
    error: String,
    report: String,
    failed: String,
    first: &mut String,
    second: &mut String,
)
    requires
        call_ensures(
            top_report,
            (&Ok::<Vec<CpuRow>, String>(processes), &Ok::<Vec<CpuRow>, String>(threads)),
            report,
        ),
        call_ensures(
            top_report,
            (&Err::<Vec<CpuRow>, String>(error), &Ok::<Vec<CpuRow>, String>(threads)),
            failed,
        ),
        old(first)@.len() == 0,
        old(second)@.len() == 0,
        call_ensures(append_table, (first, &processes, 15usize), ()),
        call_ensures(append_table, (second, &threads, usize::MAX), ()),
    ensures
        report@ == "=== Top processes by CPU (instantaneous) ===\n"@ + final(first)@
            + "\n=== This process's threads by CPU (instantaneous) ===\n"@ + final(second)@,
        failed@ == "=== Top processes by CPU (instantaneous) ===\n"@ + ("(error: "@ + error@
            + ")\n"@) + "\n=== This process's threads by CPU (instantaneous) ===\n"@
            + final(second)@,
{
    let a = table_text(read_rows(processes@), 15);
    let b = table_text(read_rows(threads@), usize::MAX as int);
    assert(final(first)@ =~= a);
    assert(final(second)@ =~= b);
}

/// Of two that were sampled, the one that used more comes first, and where they used alike the one
/// that was sampled first.
pub proof fn law_busier_comes_first(
    before: Vec<TickSample>,
    after: Vec<TickSample>,
    ticks_per_second: u32,
    rows: Vec<CpuRow>,
)
    requires
        ticks_per_second > 0,
        before@.len() == 2 && after@.len() == 2,
        before@[0].id@ == after@[0].id@ && before@[1].id@ == after@[1].id@,
        before@[0].id@ != before@[1].id@,
        before@[0].ticks <= after@[0].ticks && before@[1].ticks <= after@[1].ticks,
        call_ensures(cpu_table, (&before, &after, ticks_per_second), rows),
    ensures
        rows@.len() == 2,
        ({
            let first = after@[0].ticks - before@[0].ticks;
            let second = after@[1].ticks - before@[1].ticks;
            &&& first >= second ==> rows@[0].id@ == after@[0].id@ && rows@[1].id@ == after@[1].id@
            &&& first < second ==> rows@[0].id@ == after@[1].id@ && rows@[1].id@ == after@[0].id@
        }),
{
    let t = ticks_per_second as int;
    lemma_first_sample(before@, after@[0].id@, 0);
    lemma_first_sample(before@, after@[1].id@, 1);
    let one = after@.drop_last();
    let none = one.drop_last();
    let first = row_of(after@[0], before@[0].ticks, t);
    let second = row_of(after@[1], before@[1].ticks, t);
    let empty = Seq::<RowView>::empty();
    assert(table_of(before@, none, t) =~= empty);
    assert(one.last() == after@[0] && after@.last() == after@[1]);
    assert(table_of(before@, one, t) =~= seq![first]);
    let table = read_rows(rows@);
    let alone = seq![first];
    assert(table == put_row(alone, second));
    assert(alone.drop_last() =~= empty);
    assert(put_row(empty, second) =~= seq![second]);
    if first.ticks >= second.ticks {
        assert(table =~= seq![first, second]);
    } else {
        assert(table =~= seq![second, first]);
    }
    assert(table[0] == rows@[0].reads() && table[1] == rows@[1].reads());
}

/// The numbers on all processors are the words of the line after its label, one by one.
pub proof fn law_fields_follow_the_label(
    line: &str,
    words: Vec<String>,
    fields: Vec<u64>,
    i: int,
    word: &str,
    number: u64,
)
    requires
        !line@.contains('\n'),
        call_ensures(split_words, (line,), words),
        1 <= i < words@.len(),
        forall|j: int|
            1 <= j < words@.len() ==> text::u64_value((#[trigger] words@[j])@) is Some,
        word@ == words@[i]@,
        call_ensures(parse_u64, (word,), Some(number)),
        call_ensures(parse_cpu_fields, (line,), fields),
    ensures
        fields@.len() == words@.len() - 1,
        fields@[i - 1] == number,
{
    let at = line@.len() as int;
    assert forall|j: int| 0 <= j < at implies line@[j] != '\n' by {
        assert(line@.contains(line@[j]));
    }
    crate::lx200_server::lemma_first_index(line@, '\n', at);
    let all = text::views(words@);
    let rest = all.skip(1);
    assert(all.len() == words@.len());
    assert forall|j: int| 0 <= j < rest.len() implies text::u64_value(
        #[trigger] rest[j],
    ) is Some by {
        assert(rest[j] == words@[j + 1]@);
    }
    assert(rest[i - 1] == word@);
    law_numbers_are_read_in_order(rest, i - 1);
}

} // verus!
