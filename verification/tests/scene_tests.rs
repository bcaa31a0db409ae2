use ray_tracing::color::Color;
use ray_tracing::common::{ground_color, random_billiard_color};
use ray_tracing::material::NumberType;
use ray_tracing::scene_builder::{
    build_custom_scene, ground_texture_name_to_index, parse_background_color, parse_color_or_count,
    parse_ground_color, parse_number_type, plan_custom_scene, texture_index_for_lowercase_name,
    BallPlan, CustomScene, GroundPlan, SceneObject,
};

fn strings(words: &[&str]) -> Vec<String> {
    words.iter().map(|w| w.to_string()).collect()
}

fn floats(args: &[String]) -> Vec<bool> {
    args.iter().map(|a| a.parse::<f64>().is_ok()).collect()
}

fn plan(words: &[&str], coin: bool) -> Option<CustomScene> {
    let args = strings(words);
    let fl = floats(&args);
    let coins = vec![coin; args.len()];
    plan_custom_scene(&args, &fl, &coins)
}

fn purple() -> Color {
    random_billiard_color(2).color
}

#[test]
fn color_argument_by_number_or_name() {
    assert_eq!(parse_color_or_count("5"), Some((random_billiard_color(5).color, false)));
    assert_eq!(parse_color_or_count(" 12 "), Some((random_billiard_color(12).color, true)));
    assert_eq!(parse_color_or_count("16"), Some((Color::new(720, 500, 350), false)));
    assert_eq!(parse_color_or_count("purple2"), Some((purple(), true)));
    assert_eq!(parse_color_or_count("  Yellow "), Some((random_billiard_color(5).color, false)));
    assert_eq!(parse_color_or_count("+3"), Some((random_billiard_color(3).color, false)));
}

#[test]
fn color_argument_number_and_name_agree() {
    assert_eq!(parse_color_or_count("5"), parse_color_or_count("yellow"));
    assert_eq!(parse_color_or_count("15"), parse_color_or_count("black2"));
    assert_eq!(parse_color_or_count("16"), parse_color_or_count("cue"));
}

#[test]
fn color_argument_refused() {
    assert_eq!(parse_color_or_count("17"), None);
    assert_eq!(parse_color_or_count("-1"), None);
    assert_eq!(parse_color_or_count("pink"), None);
    assert_eq!(parse_color_or_count(""), None);
}

#[test]
fn background_argument() {
    assert_eq!(parse_background_color("16"), Some(Color::new(720, 500, 350)));
    assert_eq!(parse_background_color("white"), Some(Color::new(720, 500, 350)));
    assert_eq!(parse_background_color("maroon2"), Some(Color::new(220, 40, 30)));
    assert_eq!(parse_background_color("17"), None);
    assert_eq!(parse_background_color("0.5"), None);
}

#[test]
fn number_type_argument() {
    assert_eq!(parse_number_type("0"), Some(NumberType::Circle));
    assert_eq!(parse_number_type("1"), Some(NumberType::Line));
    assert_eq!(parse_number_type(" 1 "), Some(NumberType::Line));
    assert_eq!(parse_number_type("2"), None);
    assert_eq!(parse_number_type("01"), None);
    assert_eq!(parse_number_type(""), None);
}

#[test]
fn ground_color_argument() {
    assert_eq!(parse_ground_color("0"), Some(ground_color(0)));
    assert_eq!(parse_ground_color("3"), Some(Color::new(90, 300, 110)));
    assert_eq!(parse_ground_color(" 5"), Some(ground_color(5)));
    assert_eq!(parse_ground_color("6"), None);
    assert_eq!(parse_ground_color("-1"), None);
    assert_eq!(parse_ground_color("green"), None);
}

#[test]
fn texture_names() {
    assert_eq!(ground_texture_name_to_index("Tournament Green"), Some(0));
    assert_eq!(ground_texture_name_to_index("green"), Some(0));
    assert_eq!(ground_texture_name_to_index("Electric Blue"), Some(1));
    assert_eq!(ground_texture_name_to_index("blue"), Some(1));
    assert_eq!(ground_texture_name_to_index("  Burgundy "), Some(2));
    assert_eq!(ground_texture_name_to_index("Wine Red"), Some(2));
    assert_eq!(ground_texture_name_to_index("red"), Some(2));
    assert_eq!(ground_texture_name_to_index("PAF green"), Some(3));
    assert_eq!(ground_texture_name_to_index("PAF dark"), Some(4));
    assert_eq!(ground_texture_name_to_index("PAF dark smooth"), Some(5));
    assert_eq!(ground_texture_name_to_index("PAF darker"), Some(5));
    assert_eq!(ground_texture_name_to_index("purple"), None);
    assert_eq!(texture_index_for_lowercase_name("PAF green"), None);
}

#[test]
fn texture_names_ignore_case_and_spacing() {
    assert_eq!(ground_texture_name_to_index("paf GREEN"), ground_texture_name_to_index("  PAF green\t"));
}

#[test]
fn readme_full_example() {
    let words = [
        "prog", "1", "--custom", "--table", "--texture", "PAF", "green", "--ball", "0", "0.2", "1",
        "purple", "1", "0", "1", "0", "--bg", "16",
    ];
    let scene = plan(&words, false).unwrap();
    assert_eq!(
        scene.world,
        vec![
            SceneObject::Ground(GroundPlan { color: ground_color(3), noise: true }),
            SceneObject::Ball(BallPlan {
                x_arg: 8,
                y_arg: 9,
                z_arg: 10,
                color: purple(),
                is_spots: false,
                number_type: NumberType::Line,
                orientation_arg: Some(13),
            }),
        ]
    );
    assert_eq!(scene.background_color, Some(Color::new(720, 500, 350)));
}

#[test]
fn ball_without_number_type_uses_the_coin() {
    let words = ["--ball", "1", "0.2", "2", "purple2", "30", "15"];
    let line = plan(&words, true).unwrap();
    let circle = plan(&words, false).unwrap();
    let expect = |nt| BallPlan {
        x_arg: 1,
        y_arg: 2,
        z_arg: 3,
        color: purple(),
        is_spots: true,
        number_type: nt,
        orientation_arg: Some(5),
    };
    assert_eq!(line.world, vec![SceneObject::Ball(expect(NumberType::Line))]);
    assert_eq!(circle.world, vec![SceneObject::Ball(expect(NumberType::Circle))]);
}

#[test]
fn ball_with_number_type_ignores_the_coin() {
    let words = ["--ball", "0", "0.2", "1", "blue", "0"];
    for coin in [false, true] {
        let scene = plan(&words, coin).unwrap();
        assert_eq!(
            scene.world,
            vec![SceneObject::Ball(BallPlan {
                x_arg: 1,
                y_arg: 2,
                z_arg: 3,
                color: random_billiard_color(1).color,
                is_spots: false,
                number_type: NumberType::Circle,
                orientation_arg: None,
            })]
        );
    }
}

#[test]
fn ball_with_one_angle_has_no_orientation() {
    let scene = plan(&["--ball", "0", "0", "0", "red", "1", "45"], false).unwrap();
    match scene.world[0] {
        SceneObject::Ball(b) => assert_eq!(b.orientation_arg, None),
        _ => panic!("expected a ball"),
    }
}

#[test]
fn malformed_balls_refuse_the_scene() {
    assert!(plan(&["--ball", "0", "0.2", "1"], false).is_none());
    assert!(plan(&["--ball", "0", "x", "1", "red"], false).is_none());
    assert!(plan(&["--ball", "0", "0.2", "1", "pink"], false).is_none());
    assert!(plan(&["--table", "--ball"], false).is_none());
}

#[test]
fn background_needs_a_value() {
    assert!(plan(&["--bg"], false).is_none());
    let scene = plan(&["--bg", "pink"], false).unwrap();
    assert_eq!(scene.background_color, None);
    let scene = plan(&["--bg", "3", "--bg", "nothing"], false).unwrap();
    assert_eq!(scene.background_color, None);
    let scene = plan(&["--bg", "nothing", "--bg", "3"], false).unwrap();
    assert_eq!(scene.background_color, Some(random_billiard_color(3).color));
}

#[test]
fn empty_arguments_give_an_empty_scene() {
    let scene = plan(&[], false).unwrap();
    assert!(scene.world.is_empty());
    assert_eq!(scene.background_color, None);
    let scene = plan(&["prog", "--plane", "1", "2", "3", "--custom"], false).unwrap();
    assert!(scene.world.is_empty());
}

#[test]
fn ground_variants() {
    let g = |words: &[&str]| plan(words, false).unwrap().world;
    assert_eq!(g(&["--ground"]), vec![SceneObject::Ground(GroundPlan { color: ground_color(0), noise: true })]);
    assert_eq!(g(&["x", "x", "--ground"]), vec![SceneObject::Ground(GroundPlan { color: ground_color(0), noise: true })]);
    assert_eq!(g(&["--ground", "3"]), vec![SceneObject::Ground(GroundPlan { color: ground_color(3), noise: false })]);
    assert_eq!(g(&["--ground", "--noise", "3"]), vec![SceneObject::Ground(GroundPlan { color: ground_color(3), noise: true })]);
    assert_eq!(g(&["--ground", "--noise"]), vec![SceneObject::Ground(GroundPlan { color: ground_color(0), noise: true })]);
    assert_eq!(g(&["--ground", "9"]), vec![SceneObject::Ground(GroundPlan { color: ground_color(0), noise: true })]);
}

#[test]
fn table_variants() {
    let g = |words: &[&str]| plan(words, false).unwrap().world;
    assert_eq!(g(&["--table"]), vec![SceneObject::Ground(GroundPlan { color: ground_color(0), noise: false })]);
    assert_eq!(g(&["--table", "--texture", "Electric", "Blue"]), vec![SceneObject::Ground(GroundPlan { color: ground_color(1), noise: true })]);
    assert_eq!(g(&["--table", "--texture", "Burgundy"]), vec![SceneObject::Ground(GroundPlan { color: ground_color(2), noise: true })]);
    assert_eq!(g(&["--table", "--texture", "PAF", "darker"]), vec![SceneObject::Ground(GroundPlan { color: ground_color(5), noise: true })]);
    assert_eq!(g(&["--table", "--texture", "velvet"]), vec![SceneObject::Ground(GroundPlan { color: ground_color(0), noise: false })]);
    assert_eq!(g(&["--table", "--texture"]), vec![SceneObject::Ground(GroundPlan { color: ground_color(0), noise: false })]);
    let w = g(&["--table", "--texture", "Burgundy", "--ball", "0", "0", "0", "7", "1"]);
    assert_eq!(w.len(), 2);
    assert_eq!(w[0], SceneObject::Ground(GroundPlan { color: ground_color(2), noise: true }));
}

#[test]
fn only_the_first_table_counts() {
    let w = plan(&["--ground", "3", "--table", "--ground", "--noise", "2", "--table", "--texture", "red"], false).unwrap().world;
    assert_eq!(w, vec![SceneObject::Ground(GroundPlan { color: ground_color(3), noise: false })]);
}

#[test]
fn balls_read_float_arguments() {
    let words = ["--ball", "1e2", "inf", "-0.5", "3", "1", "NaN", "45", "--ball", "0", "0", "0", "16"];
    let args = strings(&words);
    let fl = floats(&args);
    let scene = plan(&words, true).unwrap();
    assert_eq!(scene.world.len(), 2);
    for obj in &scene.world {
        if let SceneObject::Ball(b) = obj {
            assert!(fl[b.x_arg] && fl[b.y_arg] && fl[b.z_arg]);
            if let Some(k) = b.orientation_arg {
                assert!(fl[k] && fl[k + 1]);
            }
        }
    }
}

#[test]
fn acceptance_does_not_depend_on_coins() {
    let cases: [&[&str]; 4] = [
        &["--ball", "0", "0", "0", "red"],
        &["--ball", "0", "0", "0", "red", "--bg"],
        &["--ball", "0", "0"],
        &["--table", "--ball", "1", "2", "3", "4", "5", "6"],
    ];
    for words in cases {
        assert_eq!(plan(words, true).is_some(), plan(words, false).is_some());
    }
}

#[test]
fn build_custom_scene_keeps_given_number_types() {
    let words = ["--table", "--ball", "0", "0.2", "1", "3", "1", "--ball", "1", "0.2", "1", "4", "0", "--bg", "white"];
    let args = strings(&words);
    let fl = floats(&args);
    for _ in 0..8 {
        let scene = build_custom_scene(&args, &fl).unwrap();
        assert_eq!(scene.world, plan(&words, false).unwrap().world);
        assert_eq!(scene.background_color, Some(Color::new(720, 500, 350)));
    }
}

#[test]
fn build_custom_scene_refuses_what_plan_refuses() {
    let args = strings(&["--ball", "0", "0.2"]);
    let fl = floats(&args);
    assert!(build_custom_scene(&args, &fl).is_none());
}

#[test]
fn build_custom_scene_draws_both_figures() {
    let args = strings(&["--ball", "0", "0", "0", "red"]);
    let fl = floats(&args);
    let mut seen_line = false;
    let mut seen_circle = false;
    for _ in 0..200 {
        match build_custom_scene(&args, &fl).unwrap().world[0] {
            SceneObject::Ball(b) => match b.number_type {
                NumberType::Line => seen_line = true,
                NumberType::Circle => seen_circle = true,
            },
            _ => panic!("expected a ball"),
        }
    }
    assert!(seen_line && seen_circle);
}

#[test]
fn stripe_suffix_color_argument() {
    assert_eq!(parse_color_or_count("yellow-stripe"), Some((Color::new(850, 300, 40), true)));
    assert_eq!(parse_color_or_count("yellow-stripe"), parse_color_or_count("yellow2"));
}

#[test]
fn background_as_three_channels() {
    assert_eq!(parse_background_color("0.5 0.5 0.5"), Some(Color::new(500, 500, 500)));
    assert_eq!(parse_background_color("0.1 0.2 0.3"), Some(Color::new(100, 200, 300)));
    assert_eq!(parse_background_color("  1 0\t.25 "), Some(Color::new(1000, 0, 250)));
    assert_eq!(parse_background_color("0.0005 0.00049 0.9996"), Some(Color::new(1, 0, 1000)));
    assert_eq!(parse_background_color("1. 1.000 0."), Some(Color::new(1000, 1000, 0)));
}

#[test]
fn background_channels_refused() {
    assert_eq!(parse_background_color("1.5 0 0"), None);
    assert_eq!(parse_background_color("1.0001 0 0"), None);
    assert_eq!(parse_background_color("0.5 0.5"), None);
    assert_eq!(parse_background_color("0.5 0.5 0.5 0.5"), None);
    assert_eq!(parse_background_color("a b c"), None);
    assert_eq!(parse_background_color(". 0 0"), None);
    assert_eq!(parse_background_color("0.5 -0.5 0"), None);
    assert_eq!(parse_background_color("0..5 0 0"), None);
}

#[test]
fn background_channels_in_a_scene() {
    let scene = plan(&["--bg", "0.5 0.25 1"], false).unwrap();
    assert_eq!(scene.background_color, Some(Color::new(500, 250, 1000)));
}

#[test]
fn background_channels_round_to_thousandths_and_refuse_signs() {
    assert_eq!(parse_background_color("0.1234 0.1235 0"), Some(Color::new(123, 124, 0)));
    assert_eq!(parse_background_color("+0.5 0 0"), None);
    assert_eq!(parse_background_color("5e-1 0 0"), None);
}
