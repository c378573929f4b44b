//! The parameters of a statement.

use vstd::prelude::*;

verus! {

/// One bound parameter of a statement; one of the fields is filled.
///
/// A floating-point parameter is held as the 64 bits of its IEEE 754
/// encoding.
#[derive(Clone, Debug, PartialEq)]
pub struct SqlParameter {
    pub string_paramter: Option<String>,
    pub integer_parameter: Option<u64>,
    pub double_parameter: Option<u64>,
    pub blob_parameter: Option<Vec<u8>>,
    pub nullparameter: Option<bool>,
}

} // verus!
