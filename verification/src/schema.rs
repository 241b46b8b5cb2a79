//! The declared parameter schema of the `Rebased` event.

use vstd::prelude::*;

verus! {

/// The closed set of parameter types the event declares.
#[derive(Debug, PartialEq, Eq, Clone, Copy)]
pub enum ParamKind {
    /// An unsigned 256-bit integer.
    Uint256,
    /// A signed 256-bit integer.
    Int256,
}

/// The fixed, ordered parameter schema: each parameter's name, type and
/// indexed flag. The epoch is the only indexed parameter — it travels
/// as a topic — and the remaining four are packed into the data segment
/// in this order. The signature string hashed for the first topic and
/// the byte layout of a well-formed buffer both follow this
/// declaration.
pub fn event_params() -> (params: Vec<(String, ParamKind, bool)>)
    ensures
        params@.len() == 5,
        params@[0].0@ == "epoch"@,
        params@[0].1 == ParamKind::Uint256,
        params@[0].2,
        params@[1].0@ == "exchange_rate"@,
        params@[1].1 == ParamKind::Uint256,
        !params@[1].2,
        params@[2].0@ == "cpi"@,
        params@[2].1 == ParamKind::Uint256,
        !params@[2].2,
        params@[3].0@ == "requested_supply_adjustment"@,
        params@[3].1 == ParamKind::Int256,
        !params@[3].2,
        params@[4].0@ == "timestamp_sec"@,
        params@[4].1 == ParamKind::Uint256,
        !params@[4].2,
{
    let mut params: Vec<(String, ParamKind, bool)> = Vec::new();
    params.push(("epoch".to_owned(), ParamKind::Uint256, true));
    params.push(("exchange_rate".to_owned(), ParamKind::Uint256, false));
    params.push(("cpi".to_owned(), ParamKind::Uint256, false));
    params.push(("requested_supply_adjustment".to_owned(), ParamKind::Int256, false));
    params.push(("timestamp_sec".to_owned(), ParamKind::Uint256, false));
    params
}

} // verus!
