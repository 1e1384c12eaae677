//! The table of scene names the renderer knows.
//!
//! Scene assembly itself — which primitives, materials and camera populate a
//! named scene — is the surrounding application's business; the core only
//! publishes which names exist, for the option layer to validate against.

use vstd::prelude::*;

verus! {

/// The names of the scenes that can be rendered, in the order the option
/// layer offers them.
pub fn get_scenes() -> (names: [&'static str; 11])
    ensures
        names@.len() == 11,
        names@[0]@ == "spheres"@,
        names@[1]@ == "bouncing_spheres"@,
        names@[2]@ == "checker_ground"@,
        names@[3]@ == "checker_spheres"@,
        names@[4]@ == "perlin_spheres"@,
        names@[5]@ == "earth"@,
        names@[6]@ == "black"@,
        names@[7]@ == "simple_light"@,
        names@[8]@ == "cornell_box"@,
        names@[9]@ == "cornell_smoke"@,
        names@[10]@ == "final_scene"@,
{
    [
        "spheres",
        "bouncing_spheres",
        "checker_ground",
        "checker_spheres",
        "perlin_spheres",
        "earth",
        "black",
        "simple_light",
        "cornell_box",
        "cornell_smoke",
        "final_scene",
    ]
}

} // verus!
