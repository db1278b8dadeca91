//! Paginated ingestion of pool records, enrichment with token labels, and
//! projection into the eight typed columns of a single-row-group file.

pub mod columns;
pub mod lookup;
pub mod pages;
pub mod record;
