//! What holds of every compiler identity manifest.

use super::mono;
use super::mono::{IdentityData, InstanceData, RecordData};
use crate::wire::Input;
use vstd::prelude::*;

verus! {

/// Instances with different identities that each have a placement.
pub open spec fn grouped(instances: Seq<InstanceData>) -> bool {
    &&& forall|i: int, j: int|
        0 <= i < j < instances.len() ==> (#[trigger] instances[i]).identity != (
        #[trigger] instances[j]).identity
    &&& forall|i: int| 0 <= i < instances.len() ==> (#[trigger] instances[i]).places.len() > 0
}

/// Later instances continue earlier ones: they keep their places in the list and the placements
/// that they had.
pub open spec fn continues(earlier: Seq<InstanceData>, later: Seq<InstanceData>) -> bool {
    &&& earlier.len() <= later.len()
    &&& forall|i: int|
        0 <= i < earlier.len() ==> {
            &&& (#[trigger] later[i]).identity == earlier[i].identity
            &&& earlier[i].places.is_prefix_of(later[i].places)
        }
}

/// The number of placements.
pub open spec fn placement_count(instances: Seq<InstanceData>) -> nat
    decreases instances.len(),
{
    if instances.len() == 0 {
        0
    } else {
        placement_count(instances.drop_last()) + instances.last().places.len()
    }
}

proof fn index_is_first(instances: Seq<InstanceData>, identity: IdentityData)
    ensures
        0 <= mono::index_of(instances, identity) <= instances.len(),
        mono::index_of(instances, identity) < instances.len() ==> instances[mono::index_of(
            instances,
            identity,
        )].identity == identity,
        forall|i: int|
            0 <= i < mono::index_of(instances, identity) ==> (#[trigger] instances[i]).identity
                != identity,
    decreases instances.len(),
{
    if instances.len() > 0 && instances[0].identity != identity {
        let rest = instances.skip(1);
        index_is_first(rest, identity);
        assert forall|i: int| 0 <= i < mono::index_of(instances, identity) implies (
        #[trigger] instances[i]).identity != identity by {
            if i > 0 {
                assert(rest[i - 1] == instances[i]);
            }
        }
    }
}

proof fn count_of_update(instances: Seq<InstanceData>, at: int, instance: InstanceData)
    requires
        0 <= at < instances.len(),
    ensures
        placement_count(instances.update(at, instance)) == placement_count(instances)
            - instances[at].places.len() + instance.places.len(),
    decreases instances.len(),
{
    let more = instances.update(at, instance);
    if at == instances.len() - 1 {
        assert(more.drop_last() =~= instances.drop_last());
    } else {
        count_of_update(instances.drop_last(), at, instance);
        assert(more.drop_last() =~= instances.drop_last().update(at, instance));
    }
}

/// A record adds one placement to the instance with its identity and leaves every other instance as
/// it is.
pub proof fn records_join_their_instance(instances: Seq<InstanceData>, record: RecordData)
    requires
        grouped(instances),
    ensures
        mono::with_record(instances, record) matches Ok(more) ==> {
            &&& grouped(more)
            &&& continues(instances, more)
            &&& placement_count(more) == placement_count(instances) + 1
            &&& exists|i: int|
                0 <= i < more.len() && (#[trigger] more[i]).identity == record.identity
                    && more[i].places.last() == record.place
        },
{
    let at = mono::index_of(instances, record.identity);
    index_is_first(instances, record.identity);
    if let Ok(more) = mono::with_record(instances, record) {
        if at < instances.len() {
            let instance = InstanceData {
                places: instances[at].places.push(record.place),
                ..instances[at]
            };
            count_of_update(instances, at, instance);
            assert forall|i: int| 0 <= i < instances.len() implies {
                &&& (#[trigger] more[i]).identity == instances[i].identity
                &&& instances[i].places.is_prefix_of(more[i].places)
            } by {}
            assert(more[at].places.last() == record.place);
        } else {
            assert(more.drop_last() =~= instances);
            assert forall|i: int| 0 <= i < instances.len() implies {
                &&& (#[trigger] more[i]).identity == instances[i].identity
                &&& instances[i].places.is_prefix_of(more[i].places)
            } by {
                assert(more[i] == instances[i]);
            }
            assert(more[instances.len() as int].places.last() == record.place);
        }
    }
}

/// The instances of a manifest have different identities and at least one placement each. Reading on
/// never loses or reorders what was read before.
pub proof fn instances_are_grouped(input: Input, count: usize, instances: Seq<InstanceData>)
    requires
        grouped(instances),
    ensures
        mono::instances_from(input, count, instances) matches Ok(result) ==> grouped(result)
            && continues(instances, result),
    decreases input.rest.len(),
{
    if let Ok((Some(record), after)) = mono::record(input, count) {
        if let Ok(more) = mono::with_record(instances, record) {
            mono::record_shortens(input, count);
            records_join_their_instance(instances, record);
            instances_are_grouped(after, (count + 1) as usize, more);
            if let Ok(result) = mono::instances_from(after, (count + 1) as usize, more) {
                assert forall|i: int| 0 <= i < instances.len() implies {
                    &&& (#[trigger] result[i]).identity == instances[i].identity
                    &&& instances[i].places.is_prefix_of(result[i].places)
                } by {
                    assert(more[i].identity == instances[i].identity);
                    let (a, b, c) = (instances[i].places, more[i].places, result[i].places);
                    assert(a.is_prefix_of(b) && b.is_prefix_of(c));
                    assert(a =~= c.subrange(0, a.len() as int));
                }
            }
        }
    }
}

} // verus!
