use birthday_card::command::Command;
use birthday_card::util::despawn_all;

#[test]
fn despawn_all_asks_for_each_entity_in_order() {
    assert_eq!(
        despawn_all(&vec![4, 2, 9]),
        vec![Command::Despawn(4), Command::Despawn(2), Command::Despawn(9)]
    );
}

#[test]
fn despawn_all_of_nothing_asks_for_nothing() {
    assert_eq!(despawn_all(&vec![]), vec![]);
}
