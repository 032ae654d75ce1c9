//! D-Bus values as a menu layout carries them, held as plain data.
use vstd::prelude::*;

verus! {

/// A D-Bus value, with the variants that a `GetLayout` reply uses kept
/// apart and every other D-Bus type gathered under `Other`.
pub enum DbusValue {
    Bool(bool),
    I32(i32),
    Str(String),
    Structure(Vec<DbusValue>),
    Array(Vec<DbusValue>),
    Dict(Vec<(DbusValue, DbusValue)>),
    Variant(Box<DbusValue>),
    Other,
}

/// One variant layer taken off (the value itself if it is no variant).
pub open spec fn unwrap_variant(v: DbusValue) -> DbusValue {
    match v {
        DbusValue::Variant(b) => *b,
        _ => v,
    }
}

/// Takes one variant layer off, by reference.
pub fn unwrap_variant_ref(v: &DbusValue) -> (r: &DbusValue)
    ensures
        *r == unwrap_variant(*v),
{
    match v {
        DbusValue::Variant(b) => &**b,
        _ => v,
    }
}

} // verus!
