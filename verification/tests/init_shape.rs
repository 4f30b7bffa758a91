use particle_system::init_shape::{
    modal_step, InitShapeType, ModalEndOperation, ModalStep, DEFAULT_CUBE_SPAWN_DENSITY,
    QUICK_CUBE_SPAWN_DENSITY,
};

#[test]
fn spawn_density_per_shape() {
    assert_eq!(InitShapeType::Cube.spawn_density(QUICK_CUBE_SPAWN_DENSITY, 4_000_000), 9000);
    assert_eq!(InitShapeType::Cube.spawn_density(DEFAULT_CUBE_SPAWN_DENSITY, 4_000_000), 13000);
    assert_eq!(InitShapeType::Sphere.spawn_density(QUICK_CUBE_SPAWN_DENSITY, 4_000_000), 4_000_000);
}

#[test]
fn open_dialog_steps() {
    assert_eq!(
        modal_step(true, ModalEndOperation::InitShape),
        ModalStep { initialize: true, open_after: false }
    );
    assert_eq!(
        modal_step(true, ModalEndOperation::Cancel),
        ModalStep { initialize: false, open_after: false }
    );
    assert_eq!(
        modal_step(true, ModalEndOperation::Pending),
        ModalStep { initialize: false, open_after: true }
    );
}

#[test]
fn closed_dialog_does_nothing() {
    for op in [ModalEndOperation::InitShape, ModalEndOperation::Cancel, ModalEndOperation::Pending] {
        assert_eq!(modal_step(false, op), ModalStep { initialize: false, open_after: false });
    }
}
