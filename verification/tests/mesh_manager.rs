use space_sim::components::navigation::NavigationQueue;
use space_sim::components::render::Renderable;
use space_sim::render::mesh_manager::{MeshID, MeshManager, Submission, MAX_INSTANCES};

#[test]
fn handles_count_up_from_one() {
    let mut manager: MeshManager<u8, &str> = MeshManager::new();
    assert_eq!(manager.mesh_count(), 0);
    assert_eq!(manager.register_mesh("ship.obj", 36, "ship"), MeshID(1));
    assert_eq!(manager.register_mesh("planet.obj", 960, "planet"), MeshID(2));
    assert_eq!(manager.register_mesh("teapot.obj", 18960, "teapot"), MeshID(3));
    assert_eq!(manager.mesh_count(), 3);
    let batch = manager.batch(MeshID(2)).unwrap();
    assert_eq!(batch.index_count, 960);
    assert_eq!(batch.bindings, "planet");
    assert!(batch.instances.is_empty());
}

#[test]
fn lookup_finds_the_latest_registration() {
    let mut manager: MeshManager<u8, u32> = MeshManager::new();
    assert_eq!(manager.get_mesh_id("ship.obj"), MeshID(0));
    manager.register_mesh("ship.obj", 3, 10);
    manager.register_mesh("planet.obj", 6, 20);
    assert_eq!(manager.get_mesh_id("ship.obj"), MeshID(1));
    assert_eq!(manager.get_mesh_id("planet.obj"), MeshID(2));
    manager.register_mesh("ship.obj", 9, 30);
    assert_eq!(manager.get_mesh_id("ship.obj"), MeshID(3));
    assert_eq!(manager.get_mesh_id("Ship.obj"), MeshID::invalid());
    assert_eq!(manager.get_mesh_id(""), MeshID(0));
}

#[test]
fn instances_join_their_batch_in_order() {
    let mut manager: MeshManager<u32, ()> = MeshManager::new();
    let a = manager.register_mesh("a", 3, ());
    let b = manager.register_mesh("b", 3, ());
    assert_eq!(manager.submit_mesh_instance(7, a), Submission::Accepted);
    assert_eq!(manager.submit_mesh_instance(8, b), Submission::Accepted);
    assert_eq!(manager.submit_mesh_instance(9, a), Submission::Accepted);
    assert_eq!(manager.batch(a).unwrap().instances, vec![7, 9]);
    assert_eq!(manager.batch(b).unwrap().instances, vec![8]);
}

#[test]
fn unknown_handles_take_no_instance() {
    let mut manager: MeshManager<u32, ()> = MeshManager::new();
    let a = manager.register_mesh("a", 3, ());
    assert_eq!(manager.submit_mesh_instance(1, MeshID::invalid()), Submission::UnknownMesh);
    assert_eq!(manager.submit_mesh_instance(1, MeshID(2)), Submission::UnknownMesh);
    assert_eq!(manager.submit_mesh_instance(1, MeshID(usize::MAX)), Submission::UnknownMesh);
    assert!(manager.batch(a).unwrap().instances.is_empty());
    assert!(manager.batch(MeshID(0)).is_none());
    assert!(manager.batch(MeshID(2)).is_none());
}

#[test]
fn a_batch_stops_at_the_instance_limit() {
    let mut manager: MeshManager<usize, ()> = MeshManager::new();
    let a = manager.register_mesh("a", 3, ());
    let b = manager.register_mesh("b", 3, ());
    for i in 0..MAX_INSTANCES {
        assert_eq!(manager.submit_mesh_instance(i, a), Submission::Accepted);
    }
    assert_eq!(manager.submit_mesh_instance(MAX_INSTANCES, a), Submission::BatchFull);
    assert_eq!(manager.submit_mesh_instance(MAX_INSTANCES + 1, a), Submission::BatchFull);
    assert_eq!(manager.batch(a).unwrap().instances.len(), 10_000);
    assert_eq!(manager.batch(a).unwrap().instances[9_999], 9_999);
    assert_eq!(manager.submit_mesh_instance(0, b), Submission::Accepted);
}

#[test]
fn clearing_empties_every_batch_and_keeps_the_meshes() {
    let mut manager: MeshManager<u32, char> = MeshManager::new();
    let a = manager.register_mesh("a", 3, 'a');
    let b = manager.register_mesh("b", 6, 'b');
    manager.submit_mesh_instance(1, a);
    manager.submit_mesh_instance(2, b);
    manager.submit_mesh_instance(3, b);
    manager.clear_instance_buffer();
    assert_eq!(manager.mesh_count(), 2);
    assert!(manager.batch(a).unwrap().instances.is_empty());
    assert!(manager.batch(b).unwrap().instances.is_empty());
    assert_eq!(manager.batch(b).unwrap().index_count, 6);
    assert_eq!(manager.batch(b).unwrap().bindings, 'b');
    assert_eq!(manager.get_mesh_id("b"), b);
    assert_eq!(manager.submit_mesh_instance(4, a), Submission::Accepted);
    assert_eq!(manager.batch(a).unwrap().instances, vec![4]);
}

#[test]
fn batches_come_in_order_of_registration() {
    let mut manager: MeshManager<u32, u8> = MeshManager::new();
    assert!(manager.iter_batches().is_empty());
    manager.register_mesh("a", 3, 1);
    manager.register_mesh("b", 6, 2);
    manager.register_mesh("c", 9, 3);
    manager.submit_mesh_instance(5, MeshID(2));
    let batches = manager.iter_batches();
    assert_eq!(batches.len(), 3);
    assert_eq!(batches[0].index_count, 3);
    assert_eq!(batches[1].index_count, 6);
    assert_eq!(batches[2].bindings, 3);
    assert_eq!(batches[1].instances, vec![5]);
}

#[test]
fn renderable_keeps_its_mesh() {
    let r = Renderable::new(MeshID(4));
    assert_eq!(r.mesh_id, MeshID(4));
    assert_eq!(MeshID::invalid(), MeshID(0));
}

#[test]
fn waypoints_queue_up_in_order() {
    let mut queue: NavigationQueue<(i32, i32)> = NavigationQueue::new();
    assert!(queue.waypoints.is_empty());
    queue.add_waypoint((1, 2));
    queue.add_waypoint((3, 4));
    queue.add_waypoint((1, 2));
    assert_eq!(queue.waypoints.iter().copied().collect::<Vec<_>>(), vec![(1, 2), (3, 4), (1, 2)]);
    queue.clear();
    assert!(queue.waypoints.is_empty());
    queue.add_waypoint((9, 9));
    assert_eq!(queue.waypoints.front(), Some(&(9, 9)));
}
