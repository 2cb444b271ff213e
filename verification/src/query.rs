//! Rendering the query engine's `EXPLAIN` output.
//!
//! The engine returns record batches with a `plan_type` and a `plan`
//! column; the caller hands them over column by column as plain values.

use vstd::prelude::*;

use crate::error::Error;

verus! {

/// One `EXPLAIN` result batch: its column count and, for the first two
/// columns, the text values (`None` for the column when it does not hold
/// text, `None` for a value when it is null).
#[derive(Debug, Clone)]
pub struct ExplainBatch {
    pub num_columns: usize,
    pub plan_type: Option<Vec<Option<String>>>,
    pub plan: Option<Vec<Option<String>>>,
}

/// Why a batch cannot be rendered.
pub enum ExplainFault {
    Schema,
    PlanType,
    Plan,
}

/// The fault of a batch, if any, in the order the columns are checked.
pub open spec fn batch_fault(b: ExplainBatch) -> Option<ExplainFault> {
    if b.num_columns < 2 {
        Some(ExplainFault::Schema)
    } else if b.plan_type is None {
        Some(ExplainFault::PlanType)
    } else if b.plan is None {
        Some(ExplainFault::Plan)
    } else {
        None
    }
}

/// The text of one row: `=== <plan_type> ===` and the plan followed by a
/// blank line, each only when not null.
pub open spec fn row_text(plan_type: Option<String>, plan: Option<String>) -> Seq<char> {
    (match plan_type {
        Some(t) => "=== "@ + t@ + " ===\n"@,
        None => Seq::empty(),
    }) + (match plan {
        Some(p) => p@ + "\n\n"@,
        None => Seq::empty(),
    })
}

/// The text of the first `n` rows.
pub open spec fn rows_text(types: Seq<Option<String>>, plans: Seq<Option<String>>, n: int) -> Seq<
    char,
>
    decreases n,
{
    if n <= 0 {
        Seq::empty()
    } else {
        rows_text(types, plans, n - 1) + row_text(types[n - 1], plans[n - 1])
    }
}

/// The text of a batch without fault.
pub open spec fn batch_text(b: ExplainBatch) -> Seq<char> {
    let types = b.plan_type.unwrap()@;
    rows_text(types, b.plan.unwrap()@, types.len() as int)
}

/// The rendering of all batches, or the fault of the first bad one.
pub open spec fn explain_spec(batches: Seq<ExplainBatch>) -> Result<Seq<char>, ExplainFault>
    decreases batches.len(),
{
    if batches.len() == 0 {
        Ok(Seq::empty())
    } else {
        match explain_spec(batches.drop_last()) {
            Err(f) => Err(f),
            Ok(t) => match batch_fault(batches.last()) {
                Some(f) => Err(f),
                None => Ok(t + batch_text(batches.last())),
            },
        }
    }
}

/// Both text columns of every batch have one value per row.
pub open spec fn columns_aligned(batches: Seq<ExplainBatch>) -> bool {
    forall|i: int|
        0 <= i < batches.len() ==> match (#[trigger] batches[i]).plan_type {
            Some(t) => match batches[i].plan {
                Some(p) => t@.len() == p@.len(),
                None => true,
            },
            None => true,
        }
}

/// The message of each fault.
pub open spec fn fault_message(f: ExplainFault) -> Seq<char> {
    match f {
        ExplainFault::Schema => "EXPLAIN returned unexpected schema"@,
        ExplainFault::PlanType => "EXPLAIN plan_type not Utf8"@,
        ExplainFault::Plan => "EXPLAIN plan not Utf8"@,
    }
}

/// Renders `EXPLAIN` batches as one human-readable string.
pub fn format_explain(batches: &[ExplainBatch]) -> (r: Result<String, Error>)
    requires
        columns_aligned(batches@),
    ensures
        match explain_spec(batches@) {
            Ok(t) => r matches Ok(s) && s@ == t,
            Err(f) => r matches Err(Error::Query(m)) && m@ == fault_message(f),
        },
{
    let mut out = String::new();
    let mut i: usize = 0;
    while i < batches.len()
        invariant
            i <= batches@.len(),
            columns_aligned(batches@),
            explain_spec(batches@.take(i as int)) == Ok::<Seq<char>, ExplainFault>(out@),
        decreases batches@.len() - i,
    {
        assert(batches@.take(i + 1).drop_last() =~= batches@.take(i as int));
        let b = &batches[i];
        if b.num_columns < 2 {
            proof {
                lemma_explain_err_prefix(batches@, i as int + 1);
            }
            return Err(Error::Query(String::from_str("EXPLAIN returned unexpected schema")));
        }
        let types = match &b.plan_type {
            Some(t) => t,
            None => {
                proof {
                    lemma_explain_err_prefix(batches@, i as int + 1);
                }
                return Err(Error::Query(String::from_str("EXPLAIN plan_type not Utf8")));
            },
        };
        let plans = match &b.plan {
            Some(p) => p,
            None => {
                proof {
                    lemma_explain_err_prefix(batches@, i as int + 1);
                }
                return Err(Error::Query(String::from_str("EXPLAIN plan not Utf8")));
            },
        };
        assert(types@.len() == plans@.len());
        let ghost before = out@;
        let mut k: usize = 0;
        while k < types.len()
            invariant
                k <= types@.len(),
                types@.len() == plans@.len(),
                out@ == before + rows_text(types@, plans@, k as int),
            decreases types@.len() - k,
        {
            let ghost mid = out@;
            match &types[k] {
                Some(t) => {
                    out.append("=== ");
                    out.append(t.as_str());
                    out.append(" ===\n");
                },
                None => {},
            }
            match &plans[k] {
                Some(p) => {
                    out.append(p.as_str());
                    out.append("\n\n");
                },
                None => {},
            }
            assert(out@ =~= mid + row_text(types@[k as int], plans@[k as int]));
            assert(before + rows_text(types@, plans@, k + 1) =~= before + rows_text(
                types@,
                plans@,
                k as int,
            ) + row_text(types@[k as int], plans@[k as int]));
            k = k + 1;
        }
        i = i + 1;
    }
    assert(batches@.take(batches@.len() as int) =~= batches@);
    Ok(out)
}

/// A fault in a prefix is the fault of the whole.
proof fn lemma_explain_err_prefix(batches: Seq<ExplainBatch>, n: int)
    requires
        0 <= n <= batches.len(),
        explain_spec(batches.take(n)) is Err,
    ensures
        explain_spec(batches) == explain_spec(batches.take(n)),
    decreases batches.len() - n,
{
    if n < batches.len() {
        assert(batches.take(n + 1).drop_last() =~= batches.take(n));
        lemma_explain_err_prefix(batches, n + 1);
    } else {
        assert(batches.take(n) =~= batches);
    }
}

} // verus!
