use toy_physics::cell_sim::{CellSim, Material};
use toy_physics::falling::FallingEverything;
use toy_physics::game::Game;
use toy_physics::gravity_sim::GravitySim;
use toy_physics::inputs::{InputData, MouseInput};
use toy_physics::vec2::{vec2, Vec2, TextureSpace, WorldSpace};
use toy_physics::world::World;
use toy_physics::FP;

fn idle_inputs() -> InputData {
    let quiet = MouseInput { state: false, time_ms: 0, pos: vec2(0, 0) };
    InputData {
        mouse_pos: vec2(0, 0),
        mouse_down: false,
        mouse_pressed: quiet,
        mouse_released: quiet,
        now_ms: 1000,
        key_space_pressed: false,
        key_right_pressed: false,
        key_up_pressed: false,
        key_down_pressed: false,
        key_tab_pressed: false,
        key_c_pressed: false,
        key_r_pressed: false,
        key_w_held: false,
        key_a_held: false,
        key_s_held: false,
        key_d_held: false,
        key_alt_held: false,
    }
}

fn click_at(x: i64, y: i64) -> InputData {
    let mut inputs = idle_inputs();
    inputs.mouse_pressed = MouseInput { state: false, time_ms: 500, pos: vec2(x, y) };
    inputs.mouse_released = MouseInput { state: true, time_ms: 520, pos: vec2(x, y) };
    inputs
}

#[test]
fn resize_with_the_same_size_leaves_the_buffer_untouched() {
    let mut world = World::new(vec2(10u32, 10u32));
    world.draw_all(toy_physics::colour::red());
    let before = world.get_viewport_texture().clone();
    let size: Vec2<u32, TextureSpace> = vec2(10, 10);
    world.resize(size);
    assert_eq!(world.get_viewport_texture(), &before);
    world.resize(size);
    assert_eq!(world.get_viewport_texture(), &before);
    assert_eq!(before.len(), 4 * 10 * 10);
}

#[test]
fn resize_grows_with_zeroes_and_shrinks_by_truncation() {
    let mut world = World::new(vec2(4u32, 2u32));
    world.draw_all(toy_physics::colour::white());
    world.resize(vec2(4, 3));
    let buf = world.get_viewport_texture();
    assert_eq!(buf.len(), 4 * 4 * 3);
    assert_eq!(buf[0], 255);
    assert_eq!(buf[4 * 4 * 2], 0, "grown tail is zero filled");
    world.resize(vec2(4, 1));
    assert_eq!(world.get_viewport_texture().len(), 4 * 4 * 1);
    assert_eq!(world.get_viewport_texture()[0], 255);
}

#[test]
fn draw_cell_writes_four_bytes_through_the_camera() {
    let mut world = World::new(vec2(4u32, 4u32));
    let pos: Vec2<i64, WorldSpace> = vec2(1, 2);
    world.draw_cell(pos, toy_physics::colour::red());
    let buf = world.get_viewport_texture();
    let idx = 4 * (2 * 4 + 1);
    assert_eq!(&buf[idx..idx + 4], &[255, 40, 40, 255]);
    // Out-of-view writes are dropped silently.
    let off: Vec2<i64, WorldSpace> = vec2(100, 100);
    world.draw_cell(off, toy_physics::colour::red());
    assert_eq!(world.get_viewport_texture().len(), 4 * 16);
}

#[test]
fn camera_update_damps_and_moves() {
    let mut world = World::new(vec2(4u32, 4u32));
    let acc: Vec2<i64, WorldSpace> = vec2(1000, -2000);
    world.update_camera(acc, 97, 100);
    assert_eq!(world.camera_vel.x, 970);
    assert_eq!(world.camera_vel.y, -1940);
    assert_eq!(world.camera_pos.x, 970);
    assert_eq!(world.camera_pos.y, -1940);
    world.reset_viewport();
    assert_eq!(world.camera_pos.x, 0);
    assert_eq!(world.camera_vel.y, 0);
}

#[test]
fn gravity_click_spawns_a_resting_particle() {
    let mut sim = GravitySim::new(vec2(400, 300), 2);
    assert_eq!(sim.sim_size.x, 200);
    let inputs = click_at(100, 60);
    sim.handle_input_state(&inputs);
    let ps = sim.simulation.get_particles();
    assert_eq!(ps.len(), 1);
    // The press point in world units: window / scale, widened to fixed
    // point.
    assert_eq!(ps[0].pos.x, 50 * FP);
    assert_eq!(ps[0].pos.y, 30 * FP);
    assert_eq!(ps[0].vel.x, 0);
    assert_eq!(ps[0].vel.y, 0);
}

#[test]
fn gravity_drag_release_launches_towards_the_press_point() {
    let mut sim = GravitySim::new(vec2(400, 300), 2);
    let mut inputs = idle_inputs();
    inputs.mouse_pressed = MouseInput { state: false, time_ms: 0, pos: vec2(200, 100) };
    inputs.mouse_released = MouseInput { state: true, time_ms: 400, pos: vec2(100, 160) };
    sim.handle_input_state(&inputs);
    let ps = sim.simulation.get_particles();
    assert_eq!(ps.len(), 1);
    // The drag went left and down, so the launch goes right and up.
    assert!(ps[0].vel.x > 0);
    assert!(ps[0].vel.y < 0);
}

#[test]
fn gravity_keys_toggle_run_clear_and_brush() {
    let mut sim = GravitySim::new(vec2(400, 300), 2);
    let mut inputs = idle_inputs();
    inputs.key_space_pressed = true;
    inputs.key_up_pressed = true;
    sim.handle_input_state(&inputs);
    assert!(sim.state.running);
    assert_eq!(sim.state.draw_size, 9);
    let mut clear = idle_inputs();
    clear.key_c_pressed = true;
    sim.handle_input_state(&clear);
    assert_eq!(sim.simulation.get_particles().len(), 0);
    let mut reset = idle_inputs();
    reset.key_r_pressed = true;
    sim.handle_input_state(&reset);
    assert_eq!(sim.simulation.get_particles().len(), 2);
}

#[test]
fn gravity_frame_advances_and_step_clears() {
    let mut sim = GravitySim::new(vec2(64, 64), 1);
    let inputs = idle_inputs();
    sim.update(&inputs, FP);
    assert_eq!(sim.state.frame, 1);
    assert!(!sim.state.step_sim);
}

#[test]
fn falling_click_spawns_a_body_and_clear_empties() {
    let mut game = FallingEverything::new(vec2(400, 300), 2);
    let inputs = click_at(50, 50);
    game.handle_object_spawning(&inputs);
    assert_eq!(game.objects.len(), 1);
    let mut clear = idle_inputs();
    clear.key_c_pressed = true;
    game.handle_object_spawning(&clear);
    assert_eq!(game.objects.len(), 0);
}

#[test]
fn falling_paused_frame_only_draws_markers() {
    let mut game = FallingEverything::new(vec2(64, 64), 1);
    let inputs = click_at(32, 32);
    game.handle_object_spawning(&inputs);
    let idle = idle_inputs();
    let rotations: Vec<(i64, i64)> = Vec::new();
    game.update(&idle, FP, &rotations);
    assert_eq!(game.state.frame, 1);
    assert_eq!(game.objects.len(), 1);
    // Paused: the body has not moved.
    assert_eq!(game.objects[0].velocity.x, 0);
}

#[test]
fn falling_running_frame_steps_bodies() {
    let mut game = FallingEverything::new(vec2(64, 64), 1);
    game.spawn_rigidbody(vec2(10 * FP, 10 * FP), 2, vec2(FP, 0), vec2(0, 0));
    let mut run = idle_inputs();
    run.key_space_pressed = true;
    let rotations: Vec<(i64, i64)> = vec![(0, FP)];
    game.update(&run, FP, &rotations);
    assert!(game.state.is_running);
    // One second at one pixel per second.
    assert_eq!(game.objects[0].object.centre.x, 11 * FP);
}

#[test]
fn cell_grid_blinker_oscillates() {
    let mut sim = CellSim::new(vec2(5, 5), 1);
    sim.update_cell(vec2(1, 2), Material::Alive);
    sim.update_cell(vec2(2, 2), Material::Alive);
    sim.update_cell(vec2(3, 2), Material::Alive);
    sim.update_gol();
    sim.update();
    let alive = |s: &CellSim, x: i64, y: i64| s.get_cell(vec2(x, y)).mat == Material::Alive;
    assert!(alive(&sim, 2, 1));
    assert!(alive(&sim, 2, 2));
    assert!(alive(&sim, 2, 3));
    assert!(!alive(&sim, 1, 2));
    assert!(!alive(&sim, 3, 2));
}

#[test]
fn cell_grid_underpopulation_kills() {
    let mut sim = CellSim::new(vec2(6, 6), 1);
    sim.update_cell(vec2(2, 2), Material::Alive);
    sim.update_gol();
    sim.update();
    assert_eq!(sim.get_cell(vec2(2, 2)).mat, Material::Dead);
}

#[test]
fn cell_material_colours() {
    let dead = Material::Dead.get_rgb();
    assert_eq!((dead.r, dead.g, dead.b), (44, 44, 44));
    let alive = Material::Alive.get_rgb();
    assert_eq!((alive.r, alive.g, alive.b), (40, 255, 40));
}

#[test]
fn game_grid_basics() {
    let mut game = Game::new(40, 30, 2, 60);
    assert!(game.is_running());
    assert_eq!(game.get_index(3, 2), 2 * 20 + 3);
    let mut cell = game.get_cell(3, 2);
    assert_eq!(cell.mat, Material::Dead);
    cell.mat = Material::Alive;
    game.set_cell(3, 2, cell);
    assert_eq!(game.get_cell(3, 2).mat, Material::Alive);
    game.update();
    assert_eq!(game.frame_count, 1);
    assert_eq!(game.get_cell(3, 2).mat, Material::Alive);
}

#[test]
fn input_flags_follow_thresholds() {
    let mut inputs = idle_inputs();
    inputs.mouse_down = true;
    inputs.mouse_pressed = MouseInput { state: true, time_ms: 0, pos: vec2(10, 10) };
    inputs.mouse_pos = vec2(12, 10);
    assert!(!inputs.is_mouse_dragging(), "two pixels is not a drag");
    inputs.mouse_pos = vec2(16, 10);
    assert!(inputs.is_mouse_dragging());
    assert!(inputs.is_mouse_held(), "a second beats the hold threshold");
    inputs.mouse_released = MouseInput { state: true, time_ms: 100, pos: vec2(16, 10) };
    assert!(inputs.was_mouse_pressed());
    assert!(!inputs.was_mouse_held());
    assert!(inputs.was_mouse_dragging());
}

#[test]
fn gravity_resize_is_a_no_op_at_the_same_size() {
    let mut sim = GravitySim::new(vec2(100, 100), 2);
    let before = sim.buf.clone();
    let ws: Vec2<i64, toy_physics::vec2::ScreenSpace> = vec2(101, 101);
    // 101 / 2 == 50: the scaled size is unchanged, so the buffer stays.
    sim.resize_sim(ws);
    assert_eq!(sim.buf, before);
    let ws2: Vec2<i64, toy_physics::vec2::ScreenSpace> = vec2(64, 64);
    sim.resize_sim(ws2);
    assert_eq!(sim.buf.len(), 4 * 32 * 32);
}

#[test]
fn cell_sim_resize_keeps_overlapping_cells() {
    let mut sim = CellSim::new(vec2(6, 6), 1);
    sim.update_cell(vec2(1, 1), Material::Alive);
    sim.resize_sim(vec2(8, 8));
    assert_eq!(sim.sim_size.x, 8);
    assert!(sim.get_cell(vec2(1, 1)).mat == Material::Alive);
    assert!(sim.get_cell(vec2(7, 7)).mat == Material::Dead);
}
