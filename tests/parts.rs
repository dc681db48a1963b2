use engine::car::WheelPos;
use engine::gl_pipeline::{GlMesh, GlMeshes, GlPipelineType};
use engine::player::{finish_step, gait_update, AnimationState, Foot, StepIntent, StepOrder, StepResult};

#[test]
fn wheel_neighbours() {
    for i in 0..4 {
        let w = WheelPos::from_index(i);
        assert_eq!(w.index(), i);
        assert_eq!(w.other_lr().other_lr(), w);
        assert_eq!(w.other_fb().other_fb(), w);
        assert_eq!(w.is_front(), !w.is_rear());
        assert_eq!(w.other_lr().is_front(), w.is_front());
        assert_eq!(w.other_fb().is_front(), !w.is_front());
        assert_eq!(w.other_lr().sign_lr(), -w.sign_lr());
    }
    assert_eq!(WheelPos::FL.other_lr(), WheelPos::FR);
    assert_eq!(WheelPos::RR.other_fb(), WheelPos::FR);
    assert_eq!(WheelPos::RL.sign_lr(), -1);
    assert_eq!(WheelPos::RL.sign_fb(), -1);
    assert_eq!(WheelPos::FR.sign_fb(), 1);
}

#[test]
fn feet() {
    assert_eq!(Foot::Left.other(), Foot::Right);
    assert_eq!(Foot::Right.other(), Foot::Left);
    assert_eq!(Foot::Left.index_self(), 0);
    assert_eq!(Foot::Left.index_other(), 1);
    assert_eq!(Foot::Right.index_other(), 0);
    assert_eq!(Foot::Left.side(), -1);
    assert_eq!(Foot::Right.side(), 1);
}

#[test]
fn step_follow_ups() {
    let s = AnimationState::Stepping;
    assert_eq!(finish_step(s, Some(Foot::Left), true), StepResult::Advance(Foot::Right));
    assert_eq!(finish_step(s, Some(Foot::Right), false), StepResult::Close(Foot::Left));
    assert_eq!(finish_step(AnimationState::Closing, Some(Foot::Left), true), StepResult::Idle);
    assert_eq!(finish_step(s, None, true), StepResult::Idle);
    assert_eq!(finish_step(AnimationState::Idle, Some(Foot::Left), true), StepResult::Idle);
}

#[test]
fn gait_cycle() {
    // standing still and told to walk: the left foot starts
    let g = gait_update(AnimationState::Idle, None, false, true);
    assert_eq!(g.state, AnimationState::Stepping);
    assert_eq!(g.step, Some(StepOrder { foot: Foot::Left, intent: StepIntent::Advance }));
    assert!(!g.go_idle);
    // mid-step nothing changes
    let g2 = gait_update(g.state, g.active, false, true);
    assert_eq!(g2.step, None);
    assert_eq!(g2.state, AnimationState::Stepping);
    // step done, key released: the right foot closes
    let g3 = gait_update(g2.state, g2.active, true, false);
    assert_eq!(g3.state, AnimationState::Closing);
    assert_eq!(g3.step, Some(StepOrder { foot: Foot::Right, intent: StepIntent::Close }));
    // closing done: idle
    let g4 = gait_update(g3.state, g3.active, true, false);
    assert_eq!(g4.state, AnimationState::Idle);
    assert!(g4.go_idle);
    assert_eq!(g4.active, None);
    // closing done while the key is held: settle, then start again
    let g5 = gait_update(g3.state, g3.active, true, true);
    assert!(g5.go_idle);
    assert_eq!(g5.state, AnimationState::Stepping);
    assert_eq!(g5.step, Some(StepOrder { foot: Foot::Left, intent: StepIntent::Advance }));
    assert_eq!(AnimationState::default(), AnimationState::Idle);
}

fn mesh(n: u32) -> GlMesh {
    GlMesh {
        vao_vertices: n,
        vbo_vertices: n + 1,
        vbo_indices: 0,
        num_indices: 0,
        num_vertices: 3,
        primitive_type: 4,
        has_indices: false,
        is_debug: false,
    }
}

#[test]
fn mesh_slots_are_reused_last_freed_first() {
    let mut meshes = GlMeshes::new(&[mesh(1), mesh(2)]);
    assert_eq!(meshes.get(0), Some(&mesh(1)));
    assert_eq!(meshes.get(2), None);
    assert_eq!(meshes.insert(mesh(3)), 2);
    assert_eq!(meshes.remove(0), Some(mesh(1)));
    assert_eq!(meshes.remove(0), None);
    assert_eq!(meshes.get(0), None);
    assert_eq!(meshes.remove(2), Some(mesh(3)));
    assert_eq!(meshes.remove(7), None);
    assert_eq!(meshes.insert(mesh(4)), 2);
    assert_eq!(meshes.insert(mesh(5)), 0);
    assert_eq!(meshes.insert(mesh(6)), 3);
    assert_eq!(meshes.get(0), Some(&mesh(5)));
    assert_eq!(meshes.get(1), Some(&mesh(2)));
}

#[test]
fn pipeline_slots() {
    assert_eq!(usize::from(GlPipelineType::Colored), 0);
    assert_eq!(usize::from(GlPipelineType::MSDFTex), 1);
    assert_eq!(usize::from(GlPipelineType::RGBATex), 2);
}
