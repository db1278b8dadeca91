use pool_ingest::columns::{schema, ColumnKind, Columns, DATA_PAGE_SIZE_LIMIT};
use pool_ingest::lookup::{LookupMapping, TokenEntry, UNKNOWN_LABEL};
use pool_ingest::pages::{
    append_batch, collect_pages, PageCursor, PageEnvelope, PageOutcome, PAGE_SIZE, POOL_SORT_FIELD,
    POOL_TYPE, SORT_TYPE,
};
use pool_ingest::record::{MintInfo, PipelineError, Record};

fn mint(address: &str) -> MintInfo {
    MintInfo {
        address: address.to_string(),
        chain_id: 101,
        program_id: "TokenProgram".to_string(),
        logo_uri: String::new(),
        symbol: String::new(),
        name: String::new(),
        decimals: 6,
        tags: Vec::new(),
        extensions: "{}".to_string(),
    }
}

fn record(id: &str, a: &str, b: &str, price: f64, tvl: f64) -> Record {
    Record {
        id: id.to_string(),
        program_id: "AmmProgram".to_string(),
        price_bits: price.to_bits(),
        tvl_bits: tvl.to_bits(),
        mint_a: mint(a),
        mint_b: mint(b),
    }
}

fn page(records: Vec<Record>, has_next_page: bool) -> PageOutcome {
    PageOutcome::Received(PageEnvelope { success: true, records, has_next_page })
}

fn failed_page() -> PageOutcome {
    PageOutcome::Received(PageEnvelope { success: false, records: vec![record("x", "a", "b", 1.0, 1.0)], has_next_page: true })
}

fn ids(rs: &[Record]) -> Vec<String> {
    rs.iter().map(|r| r.id.clone()).collect()
}

fn token(address: &str, symbol: &str) -> TokenEntry {
    TokenEntry { address: Some(address.to_string()), symbol: Some(symbol.to_string()) }
}

#[test]
fn stops_on_first_empty_page_without_yielding_it() {
    let outcomes = vec![
        page(vec![record("p1", "a", "b", 1.0, 2.0)], true),
        page(vec![record("p2", "a", "b", 1.0, 2.0), record("p3", "a", "b", 1.0, 2.0)], true),
        page(vec![], true),
        page(vec![record("never", "a", "b", 1.0, 2.0)], false),
    ];
    let all = collect_pages(outcomes).ok().unwrap();
    assert_eq!(ids(&all), vec!["p1", "p2", "p3"]);
}

#[test]
fn stops_after_page_without_continuation_flag() {
    let outcomes = vec![
        page(vec![record("p1", "a", "b", 1.0, 2.0)], true),
        page(vec![record("p2", "a", "b", 1.0, 2.0)], false),
        page(vec![record("never", "a", "b", 1.0, 2.0)], true),
    ];
    let all = collect_pages(outcomes).ok().unwrap();
    assert_eq!(ids(&all), vec!["p1", "p2"]);
}

#[test]
fn upstream_failure_aborts_the_run() {
    let outcomes = vec![
        page(vec![record("p1", "a", "b", 1.0, 2.0)], true),
        failed_page(),
        page(vec![record("never", "a", "b", 1.0, 2.0)], false),
    ];
    assert!(matches!(collect_pages(outcomes), Err(PipelineError::Upstream)));
}

#[test]
fn transport_and_decode_failures_are_propagated() {
    let t = vec![page(vec![record("p1", "a", "b", 1.0, 2.0)], true), PageOutcome::TransportFailed("503".to_string())];
    match collect_pages(t) {
        Err(PipelineError::Transport(m)) => assert_eq!(m, "503"),
        _ => panic!("expected a transport error"),
    }
    let d = vec![PageOutcome::DecodeFailed("bad body".to_string())];
    match collect_pages(d) {
        Err(PipelineError::Decode(m)) => assert_eq!(m, "bad body"),
        _ => panic!("expected a decode error"),
    }
}

#[test]
fn cursor_counts_pages_from_one() {
    let mut c = PageCursor::new();
    assert_eq!(c.next_page(), Some(1));
    let r = c.advance(page(vec![record("p1", "a", "b", 1.0, 2.0)], true));
    assert_eq!(ids(&r.ok().unwrap().unwrap()), vec!["p1"]);
    assert_eq!(c.next_page(), Some(2));
    let r = c.advance(page(vec![], true));
    assert!(matches!(r, Ok(None)));
    assert_eq!(c.next_page(), None);
}

#[test]
fn cursor_stops_after_failure() {
    let mut c = PageCursor::new();
    assert!(matches!(c.advance(failed_page()), Err(PipelineError::Upstream)));
    assert_eq!(c.next_page(), None);
}

#[test]
fn query_parameters_are_fixed() {
    assert_eq!(POOL_TYPE, "all");
    assert_eq!(POOL_SORT_FIELD, "default");
    assert_eq!(SORT_TYPE, "desc");
    assert_eq!(PAGE_SIZE, 1000);
}

#[test]
fn append_batch_keeps_order() {
    let mut all = vec![record("p1", "a", "b", 1.0, 2.0)];
    append_batch(&mut all, vec![record("p2", "a", "b", 1.0, 2.0), record("p3", "a", "b", 1.0, 2.0)]);
    assert_eq!(ids(&all), vec!["p1", "p2", "p3"]);
}

#[test]
fn lookup_last_duplicate_wins() {
    let m = LookupMapping::build(Some(vec![token("m1", "ONE"), token("m1", "UNO")])).ok().unwrap();
    assert_eq!(m.label(&"m1".to_string()), "UNO");
    assert_eq!(m.label(&"m2".to_string()), UNKNOWN_LABEL);
    assert_eq!(UNKNOWN_LABEL, "UNKNOWN");
}

#[test]
fn lookup_fails_on_incomplete_entry_or_missing_list() {
    let missing_symbol = TokenEntry { address: Some("m2".to_string()), symbol: None };
    assert!(matches!(
        LookupMapping::build(Some(vec![token("m1", "ONE"), missing_symbol])),
        Err(PipelineError::Decode(_))
    ));
    let missing_address = TokenEntry { address: None, symbol: Some("TWO".to_string()) };
    assert!(matches!(LookupMapping::build(Some(vec![missing_address])), Err(PipelineError::Decode(_))));
    assert!(matches!(LookupMapping::build(None), Err(PipelineError::Decode(_))));
}

#[test]
fn join_uses_mapped_label_or_sentinel() {
    let m = LookupMapping::build(Some(vec![token("known", "KNW")])).ok().unwrap();
    let rs = vec![record("p1", "known", "other", 1.0, 2.0)];
    let c = Columns::project(&rs, &m);
    assert_eq!(c.symbol_a, vec!["KNW"]);
    assert_eq!(c.symbol_b, vec!["UNKNOWN"]);
    assert_eq!(c.coin_mint, vec!["known"]);
    assert_eq!(c.pc_mint, vec!["other"]);
}

#[test]
fn columns_keep_row_order_and_float_bits() {
    let m = LookupMapping::build(Some(vec![])).ok().unwrap();
    let rs = vec![
        record("p1", "a", "b", 1.5, -2.0),
        record("p2", "c", "d", f64::NAN, 0.0),
        record("p3", "e", "f", -0.0, 1e300),
    ];
    let c = Columns::project(&rs, &m);
    assert_eq!(c.id, vec!["p1", "p2", "p3"]);
    assert_eq!(c.program_id, vec!["AmmProgram"; 3]);
    assert_eq!(c.price_bits, vec![1.5f64.to_bits(), f64::NAN.to_bits(), (-0.0f64).to_bits()]);
    assert_eq!(c.tvl_bits, vec![(-2.0f64).to_bits(), 0.0f64.to_bits(), 1e300f64.to_bits()]);
    assert_eq!(c.symbol_a.len(), 3);
    assert_eq!(c.symbol_b.len(), 3);
}

#[test]
fn empty_collection_gives_empty_columns() {
    let m = LookupMapping::build(Some(vec![token("a", "A")])).ok().unwrap();
    let c = Columns::project(&Vec::new(), &m);
    assert!(c.id.is_empty() && c.symbol_a.is_empty() && c.price_bits.is_empty());
}

#[test]
fn schema_has_eight_named_columns() {
    let s = schema();
    let names: Vec<&str> = s.iter().map(|c| c.name).collect();
    assert_eq!(names, vec!["id", "program_id", "price", "tvl", "coin_mint", "pc_mint", "symbol_a", "symbol_b"]);
    let floats: Vec<bool> = s.iter().map(|c| c.kind == ColumnKind::Float64).collect();
    assert_eq!(floats, vec![false, false, true, true, false, false, false, false]);
    assert_eq!(DATA_PAGE_SIZE_LIMIT, 1024 * 1024);
}

#[test]
fn two_pages_three_rows_end_to_end() {
    let outcomes = vec![
        page(vec![record("p1", "mintX", "mintY", 1.0, 10.0), record("p2", "mintY", "mintZ", 2.0, 20.0)], true),
        page(vec![record("p3", "mintZ", "mintX", 3.0, 30.0)], false),
    ];
    let all = collect_pages(outcomes).ok().unwrap();
    let m = LookupMapping::build(Some(vec![token("mintX", "XX")])).ok().unwrap();
    let c = Columns::project(&all, &m);
    assert_eq!(c.id.len(), 3);
    let labels: Vec<&String> = c.symbol_a.iter().chain(c.symbol_b.iter()).collect();
    assert_eq!(labels.iter().filter(|l| l.as_str() == "XX").count(), 2);
    assert_eq!(labels.iter().filter(|l| l.as_str() == "UNKNOWN").count(), 4);
}
