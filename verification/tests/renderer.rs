use raytracing::raycast::{
    DemoCheckerboard, Material, PointLight, Ray, Renderable, Scene, Sphere,
};
use raytracing::raycast::{ray_intersect, reflect, refract};
use raytracing::render::{channel, render_scene, RenderParams, Rgb8};
use raytracing::vec3::Vec3;

fn ivory() -> Material {
    Material {
        refractive_index: 1024,
        albedo: [614, 307, 0, 0],
        diffuse_color: Vec3 { x: 410, y: 410, z: 307 },
        specular_exponent: 50,
    }
}

fn pure_diffuse() -> Material {
    Material {
        refractive_index: 1024,
        albedo: [1024, 0, 0, 0],
        diffuse_color: Vec3 { x: 614, y: 307, z: 154 },
        specular_exponent: 1,
    }
}

#[test]
fn axial_sphere_hit_distance() {
    // A unit sphere 5 units ahead is hit at distance 4.
    let s = Sphere {
        center: Vec3 { x: 0, y: 0, z: -5120 },
        radius: 1024,
        material: ivory(),
    };
    let ray = Ray {
        origin: Vec3 { x: 0, y: 0, z: 0 },
        direction: Vec3 { x: 0, y: 0, z: -1024 },
    };
    let hit = s.ray_intersect(&ray).expect("sphere ahead must be hit");
    assert_eq!(hit.distance, 4096);
    assert_eq!(hit.point, Vec3 { x: 0, y: 0, z: -4096 });
    assert_eq!(hit.normal, Vec3 { x: 0, y: 0, z: 1024 });
}

#[test]
fn sphere_behind_is_missed() {
    let s = Sphere {
        center: Vec3 { x: 0, y: 0, z: -5120 },
        radius: 1024,
        material: ivory(),
    };
    let away = Ray {
        origin: Vec3 { x: 0, y: 0, z: 0 },
        direction: Vec3 { x: 0, y: 0, z: 1024 },
    };
    assert!(s.ray_intersect(&away).is_none());
}

#[test]
fn miss_gives_background_at_any_depth() {
    let scene = Scene {
        objects: vec![Renderable::Sphere(Sphere {
            center: Vec3 { x: 0, y: 0, z: -5120 },
            radius: 1024,
            material: ivory(),
        })],
        lights: vec![PointLight { position: Vec3 { x: 0, y: 0, z: 10240 }, intensity: 1536 }],
        clear_color: Vec3 { x: 205, y: 717, z: 819 },
    };
    let away = Ray {
        origin: Vec3 { x: 0, y: 0, z: 0 },
        direction: Vec3 { x: 0, y: 0, z: 1024 },
    };
    for depth in [0, 1, 5, 100] {
        assert_eq!(scene.cast_ray(&away, depth), Vec3 { x: 205, y: 717, z: 819 });
    }
}

#[test]
fn depth_zero_is_background_even_on_a_hit() {
    let scene = Scene {
        objects: vec![Renderable::Sphere(Sphere {
            center: Vec3 { x: 0, y: 0, z: -5120 },
            radius: 1024,
            material: ivory(),
        })],
        lights: vec![],
        clear_color: Vec3 { x: 205, y: 717, z: 819 },
    };
    let at = Ray {
        origin: Vec3 { x: 0, y: 0, z: 0 },
        direction: Vec3 { x: 0, y: 0, z: -1024 },
    };
    assert_eq!(scene.cast_ray(&at, 0), Vec3 { x: 205, y: 717, z: 819 });
    assert_eq!(scene.cast_ray(&at, -3), Vec3 { x: 205, y: 717, z: 819 });
}

#[test]
fn shadowed_light_contributes_nothing() {
    let target = Renderable::Sphere(Sphere {
        center: Vec3 { x: 0, y: 0, z: -5120 },
        radius: 1024,
        material: pure_diffuse(),
    });
    let light = PointLight { position: Vec3 { x: 12288, y: 0, z: 8192 }, intensity: 1536 };
    let at = Ray {
        origin: Vec3 { x: 0, y: 0, z: 0 },
        direction: Vec3 { x: 0, y: 0, z: -1024 },
    };
    let clear = Vec3 { x: 0, y: 0, z: 0 };

    // Unobstructed, the one light gives positive diffuse shading.
    let open_scene = Scene { objects: vec![target], lights: vec![light], clear_color: clear };
    let lit = open_scene.cast_ray(&at, 1);
    assert!(lit.x > 0 && lit.y > 0 && lit.z > 0);

    // A blocker strictly between the surface point and the light removes the
    // whole contribution; with zero reflect/refract albedo the point is black.
    let blocker = Renderable::Sphere(Sphere {
        center: Vec3 { x: 5793, y: 0, z: 1697 },
        radius: 2048,
        material: pure_diffuse(),
    });
    let dark_scene = Scene {
        objects: vec![target, blocker],
        lights: vec![light],
        clear_color: clear,
    };
    let dark = dark_scene.cast_ray(&at, 1);
    assert_eq!(dark, Vec3 { x: 0, y: 0, z: 0 });
}

#[test]
fn checkerboard_adjacent_cells_alternate() {
    let board = DemoCheckerboard;
    let down = Vec3 { x: 0, y: -1024, z: 0 };
    // Two rays one cell (two units) apart along x, onto the plane at y = -4.
    let a = board
        .ray_intersect(&Ray { origin: Vec3 { x: 0, y: 0, z: -20480 }, direction: down })
        .expect("inside the footprint");
    let b = board
        .ray_intersect(&Ray { origin: Vec3 { x: 2048, y: 0, z: -20480 }, direction: down })
        .expect("inside the footprint");
    assert_ne!(a.material.diffuse_color, b.material.diffuse_color);
    // And one cell apart along z.
    let c = board
        .ray_intersect(&Ray { origin: Vec3 { x: 0, y: 0, z: -22528 }, direction: down })
        .expect("inside the footprint");
    assert_ne!(a.material.diffuse_color, c.material.diffuse_color);
    // Both hits share the upward normal.
    assert_eq!(a.normal, Vec3 { x: 0, y: 1024, z: 0 });
}

#[test]
fn checkerboard_ignores_horizontal_rays() {
    let board = DemoCheckerboard;
    let level = Ray {
        origin: Vec3 { x: 0, y: 0, z: 0 },
        direction: Vec3 { x: 1024, y: 1, z: 0 },
    };
    assert!(board.ray_intersect(&level).is_none());
}

#[test]
fn nearest_hit_wins() {
    let near = Renderable::Sphere(Sphere {
        center: Vec3 { x: 0, y: 0, z: -5120 },
        radius: 1024,
        material: ivory(),
    });
    let far = Renderable::Sphere(Sphere {
        center: Vec3 { x: 0, y: 0, z: -10240 },
        radius: 1024,
        material: pure_diffuse(),
    });
    let ray = Ray {
        origin: Vec3 { x: 0, y: 0, z: 0 },
        direction: Vec3 { x: 0, y: 0, z: -1024 },
    };
    let hit = ray_intersect(&vec![far, near], &ray).expect("both spheres are ahead");
    assert_eq!(hit.distance, 4096);
}

#[test]
fn reflect_straight_on_bounces_back() {
    let r = reflect(
        &Vec3 { x: 0, y: 0, z: -1024 },
        Vec3 { x: 0, y: 0, z: 1024 },
    );
    assert_eq!(r, Vec3 { x: 0, y: 0, z: 1024 });
}

#[test]
fn total_internal_reflection_yields_sentinel() {
    // Leaving a dense medium at 45 degrees: the discriminant turns negative
    // and the historic sentinel direction comes back.
    let r = refract(
        &Vec3 { x: 724, y: 0, z: 724 },
        Vec3 { x: 0, y: 0, z: 1024 },
        1536,
        1024,
    );
    assert_eq!(r, Vec3 { x: 1024, y: 0, z: 0 });
}

#[test]
fn channel_clamps_and_scales() {
    assert_eq!(channel(-5), 0);
    assert_eq!(channel(0), 0);
    assert_eq!(channel(512), 127);
    assert_eq!(channel(1024), 255);
    assert_eq!(channel(2048), 255);
    assert_eq!(channel(i64::MAX), 255);
    assert_eq!(channel(i64::MIN + 1), 0);
}

#[test]
fn single_sphere_end_to_end() {
    // One pure-ish diffuse sphere ahead, one light behind the camera, a 1x1
    // image at depth 1: a lit, non-background pixel with no reflect or
    // refract contribution.
    let scene = Scene {
        objects: vec![Renderable::Sphere(Sphere {
            center: Vec3 { x: 0, y: 0, z: -5120 },
            radius: 1024,
            material: Material {
                refractive_index: 1024,
                albedo: [614, 307, 0, 0],
                diffuse_color: Vec3 { x: 410, y: 410, z: 307 },
                specular_exponent: 50,
            },
        })],
        lights: vec![PointLight { position: Vec3 { x: 0, y: 0, z: 10240 }, intensity: 1536 }],
        clear_color: Vec3 { x: 205, y: 717, z: 819 },
    };
    let params = RenderParams { half_fov_tan: 591, width: 1, height: 1, depth: 1 };
    let grid = render_scene(&scene, &params);
    assert_eq!(grid.len(), 1);
    let background = Rgb8 { r: channel(205), g: channel(717), b: channel(819) };
    assert_ne!(grid[0], background);
    assert_eq!(grid[0], Rgb8 { r: 206, g: 206, b: 183 });
}

#[test]
fn render_dimensions_are_respected() {
    let scene = Scene {
        objects: vec![],
        lights: vec![],
        clear_color: Vec3 { x: 205, y: 717, z: 819 },
    };
    let params = RenderParams { half_fov_tan: 591, width: 3, height: 2, depth: 5 };
    let grid = render_scene(&scene, &params);
    assert_eq!(grid.len(), 6);
    let background = Rgb8 { r: 51, g: 178, b: 203 };
    for px in grid {
        assert_eq!(px, background);
    }
}

#[test]
fn deep_reflective_recursion_terminates() {
    // A mirror-heavy scene still returns within the depth budget: the
    // recursion is bounded by the strictly decreasing depth counter alone.
    let mirror = Material {
        refractive_index: 1024,
        albedo: [0, 10240, 819, 0],
        diffuse_color: Vec3 { x: 1024, y: 1024, z: 1024 },
        specular_exponent: 1425,
    };
    let scene = Scene {
        objects: vec![
            Renderable::Sphere(Sphere {
                center: Vec3 { x: 0, y: 0, z: -5120 },
                radius: 2048,
                material: mirror,
            }),
            Renderable::Sphere(Sphere {
                center: Vec3 { x: 0, y: 0, z: 5120 },
                radius: 2048,
                material: mirror,
            }),
        ],
        lights: vec![PointLight { position: Vec3 { x: 0, y: 10240, z: 0 }, intensity: 1536 }],
        clear_color: Vec3 { x: 205, y: 717, z: 819 },
    };
    let ray = Ray {
        origin: Vec3 { x: 0, y: 0, z: 0 },
        direction: Vec3 { x: 0, y: 0, z: -1024 },
    };
    let _ = scene.cast_ray(&ray, 10);
}

#[test]
fn exiting_ray_equals_flipped_swapped_call() {
    // An exiting ray refracts exactly as the call with the normal flipped
    // and the indices swapped — even for a normal at the integer extreme,
    // where the flip saturates and must be taken twice.
    let i = Vec3 { x: -500, y: -500, z: 1024 };
    let n = Vec3 { x: i64::MIN, y: i64::MIN, z: -9007199254740991999 };
    let flipped = n.scale(-1024);
    assert_eq!(refract(&i, n, 2048, 1024), refract(&i, flipped, 1024, 2048));

    // The same identity on an ordinary exiting ray.
    let i2 = Vec3 { x: 724, y: 0, z: 724 };
    let n2 = Vec3 { x: 0, y: 0, z: 1024 };
    assert_eq!(refract(&i2, n2, 1536, 1024), refract(&i2, n2.scale(-1024), 1024, 1536));
}
