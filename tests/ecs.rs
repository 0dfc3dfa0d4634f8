use voxel_world::ecs::Ecs;

#[test]
fn entities_and_components() {
    let mut ecs: Ecs<u32> = Ecs::new();
    assert!(ecs.borrow_component_vec().is_none());
    assert_eq!(ecs.new_entity(), 0);
    assert_eq!(ecs.new_entity(), 1);
    ecs.add_component_to_entity(1, 7);
    assert_eq!(ecs.borrow_component_vec(), Some(&vec![None, Some(7)]));
    assert_eq!(ecs.new_entity(), 2);
    ecs.add_component_to_entity(0, 5);
    ecs.add_component_to_entity(1, 8);
    assert_eq!(ecs.borrow_component_vec(), Some(&vec![Some(5), Some(8), None]));
}
