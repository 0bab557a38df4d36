use objscene::lights::CommonLightData;
use objscene::lights::Light;
use objscene::lights::PointLight;
use objscene::lights::ProjectorLight;
use objscene::lights::SceneLights;
use objscene::lights::Vec3Bits;

fn at(x: u32, y: u32, z: u32) -> Vec3Bits {
    Vec3Bits { x, y, z }
}

#[test]
fn new_lights_start_turned_on() {
    let p = PointLight::new(at(1, 2, 3), 10, 20, 30);
    assert!(p.is_turned());
    assert_eq!(p.data.location, at(1, 2, 3));
    assert_eq!((p.data.ambient, p.data.diffuse, p.data.specular), (10, 20, 30));
    let pr = ProjectorLight::new(at(0, 0, 0), at(4, 5, 6), 1, 2, 3);
    assert!(pr.is_turned());
    assert_eq!(pr.direction, at(4, 5, 6));
}

#[test]
fn uniform_mode_is_the_kind_while_on_and_zero_while_off() {
    let mut p = Light::Point(PointLight::new(at(0, 0, 0), 1, 2, 3));
    assert_eq!(p.uniform_mode(), 1);
    p.turn(false);
    assert_eq!(p.uniform_mode(), 0);
    let mut pr = Light::Projector(ProjectorLight::new(at(0, 0, 0), at(1, 0, 0), 1, 2, 3));
    assert_eq!(pr.uniform_mode(), 2);
    pr.turn(false);
    assert_eq!(pr.uniform_mode(), 0);
    let d = CommonLightData::new(at(0, 0, 0), 1, 2, 3);
    assert_eq!(d.uniform_mode(7), 7);
}

#[test]
fn set_location_moves_only_the_location() {
    let mut l = Light::Point(PointLight::new(at(1, 1, 1), 1, 2, 3));
    l.set_location(at(9, 9, 9));
    match l {
        Light::Point(p) => {
            assert_eq!(p.data.location, at(9, 9, 9));
            assert!(p.data.turned_on);
            assert_eq!(p.data.ambient, 1);
        },
        _ => panic!("kind changed"),
    }
}

#[test]
fn turn_sun_toggles_only_the_first_light() {
    let mut scene = SceneLights::new(vec![
        Light::Point(PointLight::new(at(0, 0, 0), 1, 2, 3)),
        Light::Projector(ProjectorLight::new(at(0, 0, 0), at(1, 0, 0), 1, 2, 3)),
        Light::Point(PointLight::new(at(5, 5, 5), 1, 2, 3)),
    ]);
    scene.turn_sun();
    assert!(!scene.all[0].is_turned());
    assert!(scene.all[1].is_turned());
    assert!(scene.all[2].is_turned());
    scene.turn_sun();
    assert!(scene.all[0].is_turned());
}

#[test]
fn turn_projector_toggles_only_the_second_light() {
    let mut scene = SceneLights::new(vec![
        Light::Point(PointLight::new(at(0, 0, 0), 1, 2, 3)),
        Light::Projector(ProjectorLight::new(at(0, 0, 0), at(1, 0, 0), 1, 2, 3)),
    ]);
    scene.turn_projector();
    assert!(scene.all[0].is_turned());
    assert!(!scene.all[1].is_turned());
    scene.turn_projector();
    assert!(scene.all[1].is_turned());
}
