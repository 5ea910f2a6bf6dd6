use vstd::prelude::*;
use vstd::string::*;

use crate::quantities::AddableQuantities;
use crate::record::Row;
use crate::text::{after_last_slash, after_last_slash_of, ascii_upper, chars_of, string_of, to_ascii_upper};

verus! {

/// Writes between two explicit commits of a file's inserter.
pub const COMMIT_EVERY: u64 = 8192;

/// The upper-case form of `s`, as Unicode defines it.
pub uninterp spec fn uppercase_of(s: Seq<char>) -> Seq<char>;

/// Relies on `str::to_uppercase`: the result depends on the characters alone.
#[verifier::external_body]
fn uppercase(s: &str) -> (r: String)
    ensures
        r@ == uppercase_of(s@),
{
    s.to_uppercase()
}

/// One trade as the trades table stores it.
#[derive(Debug, Clone)]
pub struct TradesRow {
    /// Trade time in milliseconds since the Unix epoch.
    pub dt: u64,
    /// The pair traded.
    pub pair: String,
    /// A long trade: the buyer was not the maker.
    pub side: bool,
    /// Bit pattern of the execution price.
    pub price_bits: u32,
    /// Bit pattern of the quantity.
    pub qty_bits: u32,
    /// Bit pattern of the notional value.
    pub notional_bits: u32,
    /// Trade id.
    pub id: u32,
}

impl TradesRow {
    /// The stored form of `row`, traded on `pair`.
    pub fn new(pair: &str, row: &Row) -> (r: TradesRow)
        ensures
            r.dt == row.time,
            r.pair@ == pair@,
            r.side == !row.is_buyer_maker,
            r.price_bits == row.price_bits,
            r.qty_bits == row.qty_bits,
            r.notional_bits == row.quote_qty_bits,
            r.id == row.id,
    {
        TradesRow {
            dt: row.time,
            pair: String::from_str(pair),
            side: !row.is_buyer_maker,
            price_bits: row.price_bits,
            qty_bits: row.qty_bits,
            notional_bits: row.quote_qty_bits,
            id: row.id,
        }
    }
}

/// The provenance of one indexed file, as the index log stores it.
#[derive(Debug, Clone)]
pub struct FileIndexLogRow {
    /// The file's base name.
    pub filename: String,
    /// The least trade id indexed from the file.
    pub start_id: u32,
    /// The greatest trade id indexed from the file.
    pub end_id: u32,
    /// The earliest trade time indexed from the file.
    pub start_period_dt: u64,
    /// The latest trade time indexed from the file.
    pub end_period_dt: u64,
    /// The database holding the table indexed into.
    pub database: String,
    /// The table indexed into.
    pub table: String,
    /// The number of rows indexed from the file.
    pub num_rows: u32,
    /// When the file finished indexing, in milliseconds since the Unix epoch.
    pub index_dt: u64,
}

/// The database and table that trades are indexed into.
#[derive(Debug, Clone)]
pub struct TableNames {
    pub database: String,
    pub table: String,
}

impl TableNames {
    /// The names as the database holds them: the database name upper-cased, the table name
    /// upper-cased in ASCII.
    pub fn new(database: &str, table: &str) -> (r: TableNames)
        ensures
            r.database@ == uppercase_of(database@),
            r.table@ == ascii_upper(table@),
    {
        TableNames {
            database: uppercase(database),
            table: string_of(&to_ascii_upper(&chars_of(table))),
        }
    }

    /// The table of the index log.
    pub fn index_log_table() -> (r: &'static str)
        ensures
            r@ == "TRADES_INDEX_LOG"@,
    {
        "TRADES_INDEX_LOG"
    }
}

/// The least id of `rows`, `u32::MAX` for none.
pub open spec fn min_id(rows: Seq<Row>) -> u32
    decreases rows.len(),
{
    if rows.len() == 0 {
        u32::MAX
    } else if rows.last().id < min_id(rows.drop_last()) {
        rows.last().id
    } else {
        min_id(rows.drop_last())
    }
}

/// The greatest id of `rows`, 0 for none.
pub open spec fn max_id(rows: Seq<Row>) -> u32
    decreases rows.len(),
{
    if rows.len() == 0 {
        0
    } else if rows.last().id > max_id(rows.drop_last()) {
        rows.last().id
    } else {
        max_id(rows.drop_last())
    }
}

/// The earliest time of `rows`, `u64::MAX` for none.
pub open spec fn min_time(rows: Seq<Row>) -> u64
    decreases rows.len(),
{
    if rows.len() == 0 {
        u64::MAX
    } else if rows.last().time < min_time(rows.drop_last()) {
        rows.last().time
    } else {
        min_time(rows.drop_last())
    }
}

/// The latest time of `rows`, 0 for none.
pub open spec fn max_time(rows: Seq<Row>) -> u64
    decreases rows.len(),
{
    if rows.len() == 0 {
        0
    } else if rows.last().time > max_time(rows.drop_last()) {
        rows.last().time
    } else {
        max_time(rows.drop_last())
    }
}

/// A row count as the index log stores it, `u32::MAX` where it does not fit.
pub open spec fn stored_count(n: nat) -> u32 {
    if n > u32::MAX {
        u32::MAX
    } else {
        n as u32
    }
}

/// The state of indexing one file: the extremes of the ids and times written so far, how many
/// rows were written, and what the inserter reported.
pub struct FileIndexProgress {
    start_id: u32,
    end_id: u32,
    start_dt: u64,
    end_dt: u64,
    rows: u64,
    since_commit: u64,
    quantities: AddableQuantities,
    written: Ghost<Seq<Row>>,
}

impl FileIndexProgress {
    /// The rows written so far, in order.
    pub closed spec fn written(&self) -> Seq<Row> {
        self.written@
    }

    /// What the inserter reported so far.
    pub closed spec fn spec_quantities(&self) -> AddableQuantities {
        self.quantities
    }

    pub closed spec fn wf(&self) -> bool {
        &&& self.start_id == min_id(self.written@)
        &&& self.end_id == max_id(self.written@)
        &&& self.start_dt == min_time(self.written@)
        &&& self.end_dt == max_time(self.written@)
        &&& self.rows == self.written@.len()
        &&& self.since_commit == self.written@.len() % (COMMIT_EVERY as nat)
    }

    /// Nothing written yet.
    pub fn new() -> (r: FileIndexProgress)
        ensures
            r.wf(),
            r.written() == Seq::<Row>::empty(),
            r.spec_quantities() == AddableQuantities::spec_zero(),
    {
        FileIndexProgress {
            start_id: u32::MAX,
            end_id: 0,
            start_dt: u64::MAX,
            end_dt: 0,
            rows: 0,
            since_commit: 0,
            quantities: AddableQuantities::zero(),
            written: Ghost(Seq::empty()),
        }
    }

    /// Notes that `row` was written; true when the inserter is due for a commit, which is after
    /// every `COMMIT_EVERY` rows.
    pub fn record(&mut self, row: &Row) -> (commit: bool)
        requires
            old(self).wf(),
            old(self).written().len() < u64::MAX,
        ensures
            final(self).wf(),
            final(self).written() == old(self).written().push(*row),
            final(self).spec_quantities() == old(self).spec_quantities(),
            commit == (final(self).written().len() % (COMMIT_EVERY as nat) == 0),
    {
        let ghost prev = self.written@;
        if row.id < self.start_id {
            self.start_id = row.id;
        }
        if row.id > self.end_id {
            self.end_id = row.id;
        }
        if row.time < self.start_dt {
            self.start_dt = row.time;
        }
        if row.time > self.end_dt {
            self.end_dt = row.time;
        }
        self.rows = self.rows + 1;
        self.written = Ghost(prev.push(*row));
        assert(self.written@.drop_last() =~= prev);
        self.since_commit = self.since_commit + 1;
        if self.since_commit == COMMIT_EVERY {
            self.since_commit = 0;
            true
        } else {
            false
        }
    }

    /// Adds what the inserter reported at a commit or at its end.
    pub fn add_quantities(&mut self, q: AddableQuantities)
        requires
            old(self).wf(),
        ensures
            final(self).wf(),
            final(self).written() == old(self).written(),
            final(self).spec_quantities() == old(self).spec_quantities().plus(q),
    {
        self.quantities.add_assign(q);
    }

    /// The number of rows written so far.
    pub fn rows(&self) -> (r: u64)
        requires
            self.wf(),
        ensures
            r == self.written().len(),
    {
        self.rows
    }

    /// What the inserter reported so far.
    pub fn quantities(&self) -> (r: AddableQuantities)
        ensures
            r == self.spec_quantities(),
    {
        self.quantities
    }

    /// The index log row of the file whose base name is `filename`, indexed into `database`
    /// and `table` and finished at `index_dt`.
    pub fn log_row(&self, filename: &str, database: &str, table: &str, index_dt: u64) -> (r:
        FileIndexLogRow)
        requires
            self.wf(),
        ensures
            r.filename@ == filename@,
            r.start_id == min_id(self.written()),
            r.end_id == max_id(self.written()),
            r.start_period_dt == min_time(self.written()),
            r.end_period_dt == max_time(self.written()),
            r.database@ == database@,
            r.table@ == table@,
            r.num_rows == stored_count(self.written().len()),
            r.index_dt == index_dt,
    {
        let num_rows: u32 = if self.rows > 0xffff_ffff {
            0xffff_ffff
        } else {
            self.rows as u32
        };
        FileIndexLogRow {
            filename: String::from_str(filename),
            start_id: self.start_id,
            end_id: self.end_id,
            start_period_dt: self.start_dt,
            end_period_dt: self.end_dt,
            database: String::from_str(database),
            table: String::from_str(table),
            num_rows,
            index_dt,
        }
    }

    /// The index log row of the file at `path`, named by its base name, indexed into `names`
    /// and finished at `index_dt`.
    pub fn finish(&self, path: &str, names: &TableNames, index_dt: u64) -> (r: FileIndexLogRow)
        requires
            self.wf(),
        ensures
            r.filename@ == after_last_slash(path@),
            r.start_id == min_id(self.written()),
            r.end_id == max_id(self.written()),
            r.start_period_dt == min_time(self.written()),
            r.end_period_dt == max_time(self.written()),
            r.database@ == names.database@,
            r.table@ == names.table@,
            r.num_rows == stored_count(self.written().len()),
            r.index_dt == index_dt,
    {
        let filename = string_of(&after_last_slash_of(&chars_of(path)));
        self.log_row(filename.as_str(), names.database.as_str(), names.table.as_str(), index_dt)
    }
}

/// Why an indexing run did not succeed.
#[derive(Debug, Clone, Copy, PartialEq, Eq, Structural)]
pub enum RunError {
    /// No file was indexed without error.
    NothingIndexed { failed: u64 },
}

/// The tally of an indexing run: files indexed, files that failed, and what was inserted.
#[derive(Debug, Clone, Copy, PartialEq, Eq, Structural)]
pub struct RunSummary {
    pub indexed: u64,
    pub failed: u64,
    pub quantities: AddableQuantities,
}

impl RunSummary {
    pub fn new() -> (r: RunSummary)
        ensures
            r.indexed == 0,
            r.failed == 0,
            r.quantities == AddableQuantities::spec_zero(),
    {
        RunSummary { indexed: 0, failed: 0, quantities: AddableQuantities::zero() }
    }

    /// Counts a file indexed without error, which inserted `q`.
    pub fn indexed_file(&mut self, q: AddableQuantities)
        ensures
            final(self).indexed == if old(self).indexed == u64::MAX {
                u64::MAX
            } else {
                (old(self).indexed + 1) as u64
            },
            final(self).failed == old(self).failed,
            final(self).quantities == old(self).quantities.plus(q),
    {
        self.indexed = self.indexed.saturating_add(1);
        self.quantities.add_assign(q);
    }

    /// Counts a file that failed to download or to index.
    pub fn failed_file(&mut self)
        ensures
            final(self).failed == if old(self).failed == u64::MAX {
                u64::MAX
            } else {
                (old(self).failed + 1) as u64
            },
            final(self).indexed == old(self).indexed,
            final(self).quantities == old(self).quantities,
    {
        self.failed = self.failed.saturating_add(1);
    }

    /// The run succeeded when at least one file was indexed without error.
    pub fn outcome(&self) -> (r: Result<AddableQuantities, RunError>)
        ensures
            self.indexed > 0 ==> r == Ok::<AddableQuantities, RunError>(self.quantities),
            self.indexed == 0 ==> r == Err::<AddableQuantities, RunError>(
                RunError::NothingIndexed { failed: self.failed },
            ),
    {
        if self.indexed > 0 {
            Ok(self.quantities)
        } else {
            Err(RunError::NothingIndexed { failed: self.failed })
        }
    }
}

} // verus!
