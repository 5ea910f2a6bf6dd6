use binance_ingest::quantities::AddableQuantities;
use binance_ingest::record::Row;
use binance_ingest::trades::{
    FileIndexProgress, RunError, RunSummary, TableNames, TradesRow, COMMIT_EVERY,
};

fn row(id: u32, time: u64, is_buyer_maker: bool) -> Row {
    Row {
        id,
        price_bits: 1.25f32.to_bits(),
        qty_bits: 0.5f32.to_bits(),
        quote_qty_bits: 0.625f32.to_bits(),
        time,
        is_buyer_maker,
        is_best_match: true,
    }
}

fn q(bytes: u64, rows: u64, transactions: u64) -> AddableQuantities {
    AddableQuantities { bytes, rows, transactions }
}

#[test]
fn row_mapping_negates_maker() {
    for m in [true, false] {
        let r = row(9, 1000, m);
        let t = TradesRow::new("BTCUSDC", &r);
        assert_eq!(t.side, !m);
        assert_eq!(t.notional_bits, r.quote_qty_bits);
        assert_eq!(t.price_bits, r.price_bits);
        assert_eq!(t.qty_bits, r.qty_bits);
        assert_eq!(t.id, 9);
        assert_eq!(t.dt, 1000);
        assert_eq!(t.pair, "BTCUSDC");
    }
}

#[test]
fn quantities_form_a_monoid() {
    let a = q(1, 2, 3);
    let b = q(10, 20, 30);
    let c = q(100, 200, 300);
    assert_eq!(a.sum(b).sum(c), a.sum(b.sum(c)));
    assert_eq!(AddableQuantities::default().sum(a), a);
    assert_eq!(a.sum(AddableQuantities::zero()), a);
    assert_eq!(a.sum(b), q(11, 22, 33));
    let mut d = q(u64::MAX - 1, 0, 0);
    d.add_assign(q(5, 1, 1));
    assert_eq!(d, q(u64::MAX, 1, 1));
}

#[test]
fn progress_tracks_extremes_and_commits() {
    let mut p = FileIndexProgress::new();
    assert!(!p.record(&row(5, 300, false)));
    assert!(!p.record(&row(3, 500, true)));
    assert!(!p.record(&row(8, 100, false)));
    assert_eq!(p.rows(), 3);
    p.add_quantities(q(10, 3, 1));
    let names = TableNames::new("test", "trades_any_usdc");
    let log = p.log_row("f.zip", &names.database, &names.table, 77);
    assert_eq!(log.start_id, 3);
    assert_eq!(log.end_id, 8);
    assert_eq!(log.start_period_dt, 100);
    assert_eq!(log.end_period_dt, 500);
    assert_eq!(log.num_rows, 3);
    assert_eq!(log.filename, "f.zip");
    assert_eq!(log.database, "TEST");
    assert_eq!(log.table, "TRADES_ANY_USDC");
    assert_eq!(log.index_dt, 77);
    assert_eq!(p.quantities(), q(10, 3, 1));
}

#[test]
fn commit_every_block_of_rows() {
    let mut p = FileIndexProgress::new();
    let mut commits = Vec::new();
    for i in 0..(2 * COMMIT_EVERY + 5) {
        if p.record(&row(i as u32, i, false)) {
            commits.push(i + 1);
        }
    }
    assert_eq!(commits, vec![COMMIT_EVERY, 2 * COMMIT_EVERY]);
}

#[test]
fn empty_file_keeps_sentinels() {
    let p = FileIndexProgress::new();
    let names = TableNames::new("db", "t");
    let log = p.finish("/tmp/t/binance/x/BTCUSDC-trades-2024-01.zip", &names, 1700000000000);
    assert_eq!(log.filename, "BTCUSDC-trades-2024-01.zip");
    assert_eq!(log.start_id, u32::MAX);
    assert_eq!(log.end_id, 0);
    assert_eq!(log.start_period_dt, u64::MAX);
    assert_eq!(log.end_period_dt, 0);
    assert_eq!(log.num_rows, 0);
    assert_eq!(log.index_dt, 1700000000000);
    assert_eq!(log.database, "DB");
    assert_eq!(log.table, "T");
}

#[test]
fn index_log_table_name() {
    assert_eq!(TableNames::index_log_table(), "TRADES_INDEX_LOG");
}

#[test]
fn healthy_run_sums_rows() {
    let mut s = RunSummary::new();
    for rows in [10u64, 20, 30, 40] {
        s.indexed_file(q(rows * 8, rows, 1));
    }
    let total = s.outcome().unwrap();
    assert_eq!(total.rows, 100);
    assert_eq!(s.indexed, 4);
}

#[test]
fn one_corrupted_file() {
    let mut s = RunSummary::new();
    s.indexed_file(q(80, 10, 1));
    s.failed_file();
    s.indexed_file(q(240, 30, 1));
    s.indexed_file(q(320, 40, 1));
    assert_eq!(s.outcome().unwrap().rows, 80);
    assert_eq!(s.indexed, 3);
    assert_eq!(s.failed, 1);
}

#[test]
fn run_without_indexed_file_fails() {
    let mut s = RunSummary::new();
    s.failed_file();
    assert_eq!(s.outcome(), Err(RunError::NothingIndexed { failed: 1 }));
}
