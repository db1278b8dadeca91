use vstd::prelude::*;

use crate::lookup::{label_of, LookupMapping, UNKNOWN_LABEL};
use crate::record::Record;

verus! {

/// Upper bound, in bytes, of one data page inside the row group.
pub const DATA_PAGE_SIZE_LIMIT: usize = 1024 * 1024;

/// The declared type of one column of the output file.
#[derive(PartialEq, Eq, Structural, Clone, Copy, Debug)]
pub enum ColumnKind {
    Utf8,
    Float64,
}

/// One named, non-nullable column of the output schema.
pub struct ColumnSpec {
    pub name: &'static str,
    pub kind: ColumnKind,
}

/// The eight columns of the output file, one row per record.
///
/// The float columns hold IEEE-754 bit patterns.
pub struct Columns {
    pub id: Vec<String>,
    pub program_id: Vec<String>,
    pub price_bits: Vec<u64>,
    pub tvl_bits: Vec<u64>,
    pub coin_mint: Vec<String>,
    pub pc_mint: Vec<String>,
    pub symbol_a: Vec<String>,
    pub symbol_b: Vec<String>,
}

impl Columns {
    /// Row `i` of every column derives from `r`, labels taken from `m`.
    pub open spec fn row_matches(&self, i: int, r: Record, m: Map<String, String>) -> bool {
        &&& self.id@[i]@ == r.id@
        &&& self.program_id@[i]@ == r.program_id@
        &&& self.price_bits@[i] == r.price_bits
        &&& self.tvl_bits@[i] == r.tvl_bits
        &&& self.coin_mint@[i]@ == r.mint_a.address@
        &&& self.pc_mint@[i]@ == r.mint_b.address@
        &&& self.symbol_a@[i]@ == label_of(m, r.mint_a.address)
        &&& self.symbol_b@[i]@ == label_of(m, r.mint_b.address)
    }

    /// All eight columns have one row per record, in record order.
    pub open spec fn projects(&self, records: Seq<Record>, m: Map<String, String>) -> bool {
        &&& self.id@.len() == records.len()
        &&& self.program_id@.len() == records.len()
        &&& self.price_bits@.len() == records.len()
        &&& self.tvl_bits@.len() == records.len()
        &&& self.coin_mint@.len() == records.len()
        &&& self.pc_mint@.len() == records.len()
        &&& self.symbol_a@.len() == records.len()
        &&& self.symbol_b@.len() == records.len()
        &&& forall|i: int| 0 <= i < records.len() ==> #[trigger] self.row_matches(i, records[i], m)
    }

    /// Projects the records into columns, joining each side's address with
    /// the mapping; a missing address gets the sentinel label.
    pub fn project(records: &Vec<Record>, lookup: &LookupMapping) -> (r: Columns)
        ensures
            r.projects(records@, lookup@),
    {
        let mut c = Columns {
            id: Vec::new(),
            program_id: Vec::new(),
            price_bits: Vec::new(),
            tvl_bits: Vec::new(),
            coin_mint: Vec::new(),
            pc_mint: Vec::new(),
            symbol_a: Vec::new(),
            symbol_b: Vec::new(),
        };
        let mut i: usize = 0;
        while i < records.len()
            invariant
                i <= records@.len(),
                c.projects(records@.take(i as int), lookup@),
            decreases records@.len() - i,
        {
            let p = &records[i];
            let ghost prev = c;
            c.id.push(p.id.clone());
            c.program_id.push(p.program_id.clone());
            c.price_bits.push(p.price_bits);
            c.tvl_bits.push(p.tvl_bits);
            c.coin_mint.push(p.mint_a.address.clone());
            c.pc_mint.push(p.mint_b.address.clone());
            c.symbol_a.push(lookup.label(&p.mint_a.address));
            c.symbol_b.push(lookup.label(&p.mint_b.address));
            i = i + 1;
            assert forall|j: int| 0 <= j < i implies #[trigger] c.row_matches(
                j,
                records@.take(i as int)[j],
                lookup@,
            ) by {
                if j < i - 1 {
                    assert(records@.take(i as int)[j] == records@.take(i - 1)[j]);
                    assert(prev.row_matches(j, records@.take(i - 1)[j], lookup@));
                }
            }
        }
        assert(records@.take(i as int) =~= records@);
        c
    }
}

/// The output schema: eight non-nullable columns, in file order.
pub fn schema() -> (r: Vec<ColumnSpec>)
    ensures
        r@.len() == 8,
        r@[0].name@ == "id"@ && r@[0].kind == ColumnKind::Utf8,
        r@[1].name@ == "program_id"@ && r@[1].kind == ColumnKind::Utf8,
        r@[2].name@ == "price"@ && r@[2].kind == ColumnKind::Float64,
        r@[3].name@ == "tvl"@ && r@[3].kind == ColumnKind::Float64,
        r@[4].name@ == "coin_mint"@ && r@[4].kind == ColumnKind::Utf8,
        r@[5].name@ == "pc_mint"@ && r@[5].kind == ColumnKind::Utf8,
        r@[6].name@ == "symbol_a"@ && r@[6].kind == ColumnKind::Utf8,
        r@[7].name@ == "symbol_b"@ && r@[7].kind == ColumnKind::Utf8,
{
    vec![
        ColumnSpec { name: "id", kind: ColumnKind::Utf8 },
        ColumnSpec { name: "program_id", kind: ColumnKind::Utf8 },
        ColumnSpec { name: "price", kind: ColumnKind::Float64 },
        ColumnSpec { name: "tvl", kind: ColumnKind::Float64 },
        ColumnSpec { name: "coin_mint", kind: ColumnKind::Utf8 },
        ColumnSpec { name: "pc_mint", kind: ColumnKind::Utf8 },
        ColumnSpec { name: "symbol_a", kind: ColumnKind::Utf8 },
        ColumnSpec { name: "symbol_b", kind: ColumnKind::Utf8 },
    ]
}

/// The label columns are a left join with a default: a row's label is the
/// mapped label of its address when the mapping holds that address, and
/// exactly `UNKNOWN_LABEL` when it does not, on either side.
pub proof fn lemma_join_default(c: Columns, records: Seq<Record>, m: Map<String, String>, i: int)
    requires
        c.projects(records, m),
        0 <= i < records.len(),
    ensures
        m.contains_key(records[i].mint_a.address) ==> c.symbol_a@[i]@
            == m[records[i].mint_a.address]@,
        !m.contains_key(records[i].mint_a.address) ==> c.symbol_a@[i]@ == UNKNOWN_LABEL@,
        m.contains_key(records[i].mint_b.address) ==> c.symbol_b@[i]@
            == m[records[i].mint_b.address]@,
        !m.contains_key(records[i].mint_b.address) ==> c.symbol_b@[i]@ == UNKNOWN_LABEL@,
{
    assert(c.row_matches(i, records[i], m));
}

} // verus!
