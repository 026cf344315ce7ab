use vstd::prelude::*;

verus! {

/// The schema version the built-in migrations reach.
pub const SCHEMA_VERSION: i64 = 3;

/// The migrations still to apply to a database at version `current`, in order: those
/// numbered above it.
pub open spec fn pending_spec(current: i64) -> Seq<i64> {
    if current < 1 {
        seq![1, 2, 3]
    } else if current < 2 {
        seq![2, 3]
    } else if current < SCHEMA_VERSION {
        seq![3]
    } else {
        seq![]
    }
}

/// The versions of the built-in migrations to run on a database at version `current`.
pub fn pending_migrations(current: i64) -> (r: Vec<i64>)
    ensures
        r@ == pending_spec(current),
{
    let mut r: Vec<i64> = Vec::new();
    if current < 1 {
        r.push(1);
    }
    if current < 2 {
        r.push(2);
    }
    if current < SCHEMA_VERSION {
        r.push(SCHEMA_VERSION);
    }
    proof {
        assert(r@ =~= pending_spec(current));
    }
    r
}

/// Running the migrations twice does nothing the second time: once the newest has run,
/// none is pending; and whatever the starting version, the last one run is the newest.
pub proof fn law_migrations_idempotent(current: i64)
    ensures
        pending_spec(SCHEMA_VERSION).len() == 0,
        current < SCHEMA_VERSION ==> pending_spec(current).last() == SCHEMA_VERSION,
        current >= SCHEMA_VERSION ==> pending_spec(current).len() == 0,
{
}

} // verus!
