use ray_tracing::scenes::get_scenes;

#[test]
fn scene_table_lists_every_scene() {
    let names = get_scenes();
    assert_eq!(
        names,
        [
            "spheres",
            "bouncing_spheres",
            "checker_ground",
            "checker_spheres",
            "perlin_spheres",
            "earth",
            "black",
            "simple_light",
            "cornell_box",
            "cornell_smoke",
            "final_scene",
        ]
    );
}
