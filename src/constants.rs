use vstd::prelude::*;

verus! {

/// The selector of the `__execute__` entry point.
pub const EXECUTE_ENTRY_POINT_SELECTOR: &'static str =
    "0x15d40a3d6ca2ac30f4031e42be28da9b056fef9bb7357ac5e85627ee876e5ad";

/// The selector of the `__validate__` entry point.
pub const VALIDATE_ENTRY_POINT_SELECTOR: &'static str =
    "0x162da33a4585851fe8d3af3c2a9c60b557814e221e0d4f30ff0b2189d9c7775";

/// Where the called contract's calldata begins in `__execute__` calldata.
pub const CALL_CONTRACT_CALLDATA_INDEX: usize = 3;

} // verus!
