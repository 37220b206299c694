//! On-demand retrieval of one object's non-geometry fields.
//!
//! Unlike picking, no per-id table is kept: each call is a single pass over
//! the object map in source order.  If several entries carry the same id,
//! the last one wins, matching a scan that overwrites its result on every
//! match and never exits early.

use vstd::prelude::*;
use crate::model::{CityModel, CityObject};

verus! {

/// What an attribute query returns: the attributes of the last object in
/// source order whose id equals the target, or nothing when the id is
/// absent.
pub open spec fn spec_attributes(objs: Seq<CityObject>, id: Seq<char>) -> Option<
    serde_json::Value,
>
    decreases objs.len(),
{
    if objs.len() == 0 {
        None
    } else if objs.last().id@ == id {
        Some(objs.last().attributes)
    } else {
        spec_attributes(objs.drop_last(), id)
    }
}

/// Retrieves one object's non-geometry fields by id, scanning the object
/// map once; with duplicate ids the last entry wins.  `None` for an absent
/// id — a normal result, not an error.
pub fn get_attributes<'a>(model: &'a CityModel, selected_id: &String) -> (r: Option<
    &'a serde_json::Value,
>)
    ensures
        match r {
            Some(v) => spec_attributes(model.objects@, selected_id@) == Some(*v),
            None => spec_attributes(model.objects@, selected_id@) is None,
        },
{
    let n = model.objects.len();
    proof {
        assert(model.objects@.take(n as int) =~= model.objects@);
    }
    let mut i: usize = n;
    while i > 0
        invariant
            n == model.objects@.len(),
            0 <= i <= n,
            spec_attributes(model.objects@, selected_id@) == spec_attributes(
                model.objects@.take(i as int),
                selected_id@,
            ),
        decreases i,
    {
        i = i - 1;
        if model.objects[i].id.eq(selected_id) {
            proof {
                assert(model.objects@.take(i as int + 1).last() == model.objects@[i as int]);
            }
            return Some(&model.objects[i].attributes);
        }
        proof {
            assert(model.objects@.take(i as int + 1).drop_last() =~= model.objects@.take(
                i as int,
            ));
            assert(model.objects@.take(i as int + 1).last() == model.objects@[i as int]);
        }
    }
    proof {
        assert(model.objects@.take(0) =~= Seq::<CityObject>::empty());
    }
    None
}

} // verus!
