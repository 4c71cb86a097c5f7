//! What the requests mean. The stage is the set of props that the host keeps,
//! each under the entity that the host gave it. This module says what a
//! request does to the stage, and shows that the scenes keep their props
//! apart.

use crate::cake::{amogi_props, AmogusKind};
use crate::command::{Command, Marker, Prop};
use vstd::prelude::*;

verus! {

/// `after` is `before` with `prop` under an entity that was not in use.
pub open spec fn placed(before: Map<u64, Prop>, prop: Prop, after: Map<u64, Prop>) -> bool {
    exists|entity: u64|
        !before.dom().contains(entity) && after == #[trigger] before.insert(entity, prop)
}

/// `after` is `before` with each of `props`, one after the other, under an
/// entity that was not in use.
pub open spec fn spawned(before: Map<u64, Prop>, props: Seq<Prop>, after: Map<u64, Prop>) -> bool
    decreases props.len(),
{
    if props.len() == 0 {
        after == before
    } else {
        exists|mid: Map<u64, Prop>|
            spawned(before, props.drop_last(), mid) && #[trigger] placed(mid, props.last(), after)
    }
}

/// The stage without the props that carry `marker`.
pub open spec fn without(stage: Map<u64, Prop>, marker: Marker) -> Map<u64, Prop> {
    stage.restrict(Set::new(|entity: u64| !stage[entity].carries(marker)))
}

/// Whether carrying out `command` can turn the stage `before` into `after`.
/// A request for light, colour, camera or sound leaves the stage as it is.
pub open spec fn performs(before: Map<u64, Prop>, command: Command, after: Map<u64, Prop>) -> bool {
    match command {
        Command::Spawn(prop) => placed(before, prop, after),
        Command::SpawnAmogi => exists|draws: Seq<u32>|
            draws.len() == 10 && spawned(before, #[trigger] amogi_props(draws), after),
        Command::Despawn(entity) => after == before.remove(entity),
        Command::DespawnAll(marker) => after == without(before, marker),
        _ => after == before,
    }
}

/// Whether carrying out `commands` in their order can turn the stage
/// `before` into `after`.
pub open spec fn performs_all(
    before: Map<u64, Prop>,
    commands: Seq<Command>,
    after: Map<u64, Prop>,
) -> bool
    decreases commands.len(),
{
    if commands.len() == 0 {
        after == before
    } else {
        exists|mid: Map<u64, Prop>|
            performs_all(before, commands.drop_last(), mid) && #[trigger] performs(
                mid,
                commands.last(),
                after,
            )
    }
}

/// Whether every prop on the stage meets `rule`.
pub open spec fn all_props(stage: Map<u64, Prop>, rule: spec_fn(Prop) -> bool) -> bool {
    forall|entity: u64| #[trigger] stage.dom().contains(entity) ==> rule(stage[entity])
}

/// Whether every prop that `commands` can bring to the stage meets `rule`.
pub open spec fn brings_only(commands: Seq<Command>, rule: spec_fn(Prop) -> bool) -> bool {
    forall|i: int|
        0 <= i < commands.len() ==> match #[trigger] commands[i] {
            Command::Spawn(prop) => rule(prop),
            Command::SpawnAmogi => forall|draws: Seq<u32>, k: int|
                0 <= k < 5 ==> rule(#[trigger] amogi_props(draws)[k]),
            _ => true,
        }
}

/// The rule that a prop belongs to the scene with marker `scene`.
pub open spec fn of_scene(scene: Marker) -> spec_fn(Prop) -> bool {
    |prop: Prop| prop.scene() == scene
}

/// The rule that a prop does not carry `marker`.
pub open spec fn free_of(marker: Marker) -> spec_fn(Prop) -> bool {
    |prop: Prop| !prop.carries(marker)
}

/// Props that are put on a stage where all meet a rule, and that meet it
/// themselves, leave a stage where all meet it.
pub proof fn lemma_spawned_keeps(
    before: Map<u64, Prop>,
    props: Seq<Prop>,
    after: Map<u64, Prop>,
    rule: spec_fn(Prop) -> bool,
)
    requires
        spawned(before, props, after),
        all_props(before, rule),
        forall|k: int| 0 <= k < props.len() ==> rule(#[trigger] props[k]),
    ensures
        all_props(after, rule),
    decreases props.len(),
{
    if props.len() > 0 {
        let mid = choose|mid: Map<u64, Prop>|
            spawned(before, props.drop_last(), mid) && #[trigger] placed(mid, props.last(), after);
        assert forall|k: int| 0 <= k < props.drop_last().len() implies rule(
            #[trigger] props.drop_last()[k],
        ) by {
            assert(props.drop_last()[k] == props[k]);
        }
        lemma_spawned_keeps(before, props.drop_last(), mid, rule);
        assert(rule(props[props.len() - 1]));
    }
}

/// One request keeps a rule that all props on the stage meet, if the props
/// it can bring meet it too: nothing else is ever added to a stage.
pub proof fn lemma_performs_keeps(
    before: Map<u64, Prop>,
    command: Command,
    after: Map<u64, Prop>,
    rule: spec_fn(Prop) -> bool,
)
    requires
        performs(before, command, after),
        all_props(before, rule),
        brings_only(seq![command], rule),
    ensures
        all_props(after, rule),
{
    assert(seq![command][0] == command);
    match command {
        Command::SpawnAmogi => {
            let draws = choose|draws: Seq<u32>|
                draws.len() == 10 && spawned(before, #[trigger] amogi_props(draws), after);
            lemma_spawned_keeps(before, amogi_props(draws), after, rule);
        },
        _ => {},
    }
}

/// A list of requests keeps a rule that all props on the stage meet, if the
/// props it can bring meet it too.
pub proof fn lemma_performs_all_keeps(
    before: Map<u64, Prop>,
    commands: Seq<Command>,
    after: Map<u64, Prop>,
    rule: spec_fn(Prop) -> bool,
)
    requires
        performs_all(before, commands, after),
        all_props(before, rule),
        brings_only(commands, rule),
    ensures
        all_props(after, rule),
    decreases commands.len(),
{
    if commands.len() > 0 {
        let mid = choose|mid: Map<u64, Prop>|
            performs_all(before, commands.drop_last(), mid) && #[trigger] performs(
                mid,
                commands.last(),
                after,
            );
        let head = commands.drop_last();
        assert forall|i: int| 0 <= i < head.len() implies match #[trigger] head[i] {
            Command::Spawn(prop) => rule(prop),
            Command::SpawnAmogi => forall|draws: Seq<u32>, k: int|
                0 <= k < 5 ==> rule(#[trigger] amogi_props(draws)[k]),
            _ => true,
        } by {
            assert(head[i] == commands[i]);
        }
        lemma_performs_all_keeps(before, commands.drop_last(), mid, rule);
        assert(seq![commands.last()][0] == commands[commands.len() - 1]);
        lemma_performs_keeps(mid, commands.last(), after, rule);
    }
}

/// Requests carried out one list after the other are carried out as one
/// list, and the other way round.
pub proof fn lemma_performs_all_concat(
    before: Map<u64, Prop>,
    first: Seq<Command>,
    second: Seq<Command>,
    after: Map<u64, Prop>,
)
    ensures
        performs_all(before, first + second, after) <==> exists|mid: Map<u64, Prop>| #[trigger]
            performs_all(before, first, mid) && performs_all(mid, second, after),
    decreases second.len(),
{
    if second.len() == 0 {
        assert(first + second == first);
        if performs_all(before, first, after) {
            assert(performs_all(before, first, after) && performs_all(after, second, after));
        }
    } else {
        let whole = first + second;
        assert(whole.drop_last() == first + second.drop_last());
        assert(whole.last() == second.last());
        if performs_all(before, whole, after) {
            let late = choose|late: Map<u64, Prop>|
                performs_all(before, whole.drop_last(), late) && #[trigger] performs(
                    late,
                    whole.last(),
                    after,
                );
            lemma_performs_all_concat(before, first, second.drop_last(), late);
            let mid = choose|mid: Map<u64, Prop>| #[trigger]
                performs_all(before, first, mid) && performs_all(mid, second.drop_last(), late);
            assert(performs_all(mid, second.drop_last(), late) && performs(
                late,
                second.last(),
                after,
            ));
            assert(performs_all(before, first, mid) && performs_all(mid, second, after));
        }
        if exists|mid: Map<u64, Prop>| #[trigger]
            performs_all(before, first, mid) && performs_all(mid, second, after) {
            let mid = choose|mid: Map<u64, Prop>| #[trigger]
                performs_all(before, first, mid) && performs_all(mid, second, after);
            let late = choose|late: Map<u64, Prop>|
                performs_all(mid, second.drop_last(), late) && #[trigger] performs(
                    late,
                    second.last(),
                    after,
                );
            lemma_performs_all_concat(before, first, second.drop_last(), late);
            assert(performs_all(before, first, mid) && performs_all(
                mid,
                second.drop_last(),
                late,
            ));
            assert(performs_all(before, whole.drop_last(), late) && performs(
                late,
                whole.last(),
                after,
            ));
        }
    }
}

/// Whether `after` is `before` with each of `props` under the entity that
/// stands at its place in `fresh`: the entities in `fresh` differ from each
/// other and were not in use, and everything else is as it was.
pub open spec fn added(
    before: Map<u64, Prop>,
    fresh: Seq<u64>,
    props: Seq<Prop>,
    after: Map<u64, Prop>,
) -> bool {
    &&& fresh.len() == props.len()
    &&& fresh.no_duplicates()
    &&& before.submap_of(after)
    &&& forall|k: int|
        0 <= k < fresh.len() ==> {
            &&& !before.dom().contains(#[trigger] fresh[k])
            &&& after.dom().contains(fresh[k])
            &&& after[fresh[k]] == props[k]
        }
    &&& forall|entity: u64| #[trigger]
        after.dom().contains(entity) ==> before.dom().contains(entity) || fresh.contains(entity)
}

/// The five kinds of creatures, in the order in which they are spawned.
pub open spec fn amogus_kinds() -> Seq<AmogusKind> {
    seq![
        AmogusKind::Amogus1,
        AmogusKind::Amogus2,
        AmogusKind::Amogus3,
        AmogusKind::Amogus4,
        AmogusKind::Amogus5,
    ]
}

/// Props that are put on a stage take nothing from it: every prop that was
/// there is still there, and each of the new ones is there under an entity
/// of its own that was not in use.
pub proof fn lemma_spawned_adds(before: Map<u64, Prop>, props: Seq<Prop>, after: Map<u64, Prop>)
    requires
        spawned(before, props, after),
    ensures
        exists|fresh: Seq<u64>| added(before, fresh, props, after),
    decreases props.len(),
{
    if props.len() == 0 {
        assert(added(before, Seq::<u64>::empty(), props, after));
    } else {
        let mid = choose|mid: Map<u64, Prop>|
            spawned(before, props.drop_last(), mid) && #[trigger] placed(mid, props.last(), after);
        lemma_spawned_adds(before, props.drop_last(), mid);
        let head = choose|fresh: Seq<u64>| added(before, fresh, props.drop_last(), mid);
        let entity = choose|entity: u64|
            !mid.dom().contains(entity) && after == #[trigger] mid.insert(entity, props.last());
        let fresh = head.push(entity);
        assert forall|k: int| 0 <= k < fresh.len() implies {
            &&& !before.dom().contains(#[trigger] fresh[k])
            &&& after.dom().contains(fresh[k])
            &&& after[fresh[k]] == props[k]
        } by {
            if k < head.len() {
                assert(fresh[k] == head[k]);
                assert(mid.dom().contains(head[k]));
                assert(props.drop_last()[k] == props[k]);
            }
        }
        assert forall|e: u64| #[trigger] after.dom().contains(e) implies before.dom().contains(e)
            || fresh.contains(e) by {
            if e == entity {
                assert(fresh[head.len() as int] == e);
            } else {
                assert(mid.dom().contains(e));
                if !before.dom().contains(e) {
                    let k = choose|k: int| 0 <= k < head.len() && head[k] == e;
                    assert(fresh[k] == e);
                }
            }
        }
        assert(fresh.no_duplicates()) by {
            assert forall|i: int, j: int|
                0 <= i < fresh.len() && 0 <= j < fresh.len() && i != j implies fresh[i]
                != fresh[j] by {
                if i < head.len() {
                    assert(mid.dom().contains(head[i]));
                }
                if j < head.len() {
                    assert(mid.dom().contains(head[j]));
                }
            }
        }
        assert(added(before, fresh, props, after));
    }
}

/// Calling the creatures back takes nothing from the stage and brings five
/// creatures, one of each kind: every prop that was there is still there,
/// and five entities that were not in use hold the five new creatures, the
/// first one of the first kind and so on. Creatures that were still there
/// stay beside the new ones.
pub proof fn lemma_spawn_amogi_adds(before: Map<u64, Prop>, after: Map<u64, Prop>)
    requires
        performs(before, Command::SpawnAmogi, after),
    ensures
        before.submap_of(after),
        exists|draws: Seq<u32>, fresh: Seq<u64>|
            {
                &&& draws.len() == 10
                &&& fresh.len() == 5
                &&& #[trigger] added(before, fresh, amogi_props(draws), after)
                &&& forall|k: int|
                    0 <= k < 5 ==> (after[#[trigger] fresh[k]] matches Prop::Amogus { kind, .. }
                        && kind == amogus_kinds()[k])
            },
{
    let draws = choose|draws: Seq<u32>|
        draws.len() == 10 && spawned(before, #[trigger] amogi_props(draws), after);
    lemma_spawned_adds(before, amogi_props(draws), after);
    let fresh = choose|fresh: Seq<u64>| added(before, fresh, amogi_props(draws), after);
    assert forall|k: int| 0 <= k < 5 implies (after[#[trigger] fresh[k]] matches Prop::Amogus {
        kind,
        ..
    } && kind == amogus_kinds()[k]) by {
        assert(after[fresh[k]] == amogi_props(draws)[k]);
    }
    assert(added(before, fresh, amogi_props(draws), after));
}

/// Two lists that bring only props that meet a rule make one list that does.
pub proof fn lemma_brings_only_concat(
    first: Seq<Command>,
    second: Seq<Command>,
    rule: spec_fn(Prop) -> bool,
)
    requires
        brings_only(first, rule),
        brings_only(second, rule),
    ensures
        brings_only(first + second, rule),
{
    let whole = first + second;
    assert forall|i: int| 0 <= i < whole.len() implies match #[trigger] whole[i] {
        Command::Spawn(prop) => rule(prop),
        Command::SpawnAmogi => forall|draws: Seq<u32>, k: int|
            0 <= k < 5 ==> rule(#[trigger] amogi_props(draws)[k]),
        _ => true,
    } by {
        if i < first.len() {
            assert(whole[i] == first[i]);
        } else {
            assert(whole[i] == second[i - first.len()]);
        }
    }
}

/// Destroying all that carries a marker leaves nothing that carries it, and
/// adds nothing.
pub proof fn lemma_despawn_all_clears(before: Map<u64, Prop>, marker: Marker)
    ensures
        all_props(without(before, marker), free_of(marker)),
        without(before, marker).submap_of(before),
        forall|entity: u64|
            before.dom().contains(entity) && !before[entity].carries(marker) ==> #[trigger] without(
                before,
                marker,
            ).dom().contains(entity),
{
}

} // verus!
