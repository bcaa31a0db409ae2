use ray_tracing::color::Color;
use ray_tracing::common::{
    ball_color_name_to_index, color_index_for_lowercase_name, ground_color, random_billiard_color,
    Albedo,
};

fn albedo(r: u16, g: u16, b: u16, is_spots: bool) -> Albedo {
    Albedo { color: Color::new(r, g, b), is_spots }
}

#[test]
fn color_new_keeps_channels() {
    let c = Color::new(1, 2, 3);
    assert_eq!((c.r, c.g, c.b), (1, 2, 3));
}

#[test]
fn solid_balls_have_solid_palette_colors() {
    assert_eq!(random_billiard_color(0), albedo(20, 20, 20, false));
    assert_eq!(random_billiard_color(1), albedo(50, 40, 140, false));
    assert_eq!(random_billiard_color(2), albedo(130, 50, 110, false));
    assert_eq!(random_billiard_color(3), albedo(30, 120, 50, false));
    assert_eq!(random_billiard_color(4), albedo(850, 170, 50, false));
    assert_eq!(random_billiard_color(5), albedo(850, 300, 40, false));
    assert_eq!(random_billiard_color(6), albedo(730, 70, 30, false));
    assert_eq!(random_billiard_color(7), albedo(220, 40, 30, false));
}

#[test]
fn striped_balls_are_spotted() {
    assert_eq!(random_billiard_color(8), albedo(850, 300, 40, true));
    assert_eq!(random_billiard_color(9), albedo(50, 40, 140, true));
    assert_eq!(random_billiard_color(10), albedo(730, 70, 30, true));
    assert_eq!(random_billiard_color(11), albedo(130, 50, 110, true));
    assert_eq!(random_billiard_color(12), albedo(850, 170, 50, true));
    assert_eq!(random_billiard_color(13), albedo(30, 120, 50, true));
    assert_eq!(random_billiard_color(14), albedo(220, 40, 30, true));
    assert_eq!(random_billiard_color(15), albedo(20, 20, 20, true));
}

#[test]
fn cue_ball_is_white_and_solid() {
    assert_eq!(random_billiard_color(16), albedo(720, 500, 350, false));
}

#[test]
fn large_ball_numbers_wrap_and_are_solid() {
    assert_eq!(random_billiard_color(17), albedo(50, 40, 140, false));
    assert_eq!(random_billiard_color(24), albedo(850, 300, 40, false));
    assert_eq!(random_billiard_color(32), albedo(20, 20, 20, false));
    assert_eq!(random_billiard_color(31), albedo(20, 20, 20, false));
    let m = random_billiard_color(usize::MAX);
    assert_eq!(m.color, random_billiard_color(usize::MAX % 16).color);
    assert!(!m.is_spots);
}

#[test]
fn stripe_colors_repeat_solid_colors() {
    for k in 8..16 {
        let c = random_billiard_color(k).color;
        assert!((0..8).any(|j| random_billiard_color(j).color == c));
    }
    for j in 0..8 {
        let c = random_billiard_color(j).color;
        assert!((8..16).any(|k| random_billiard_color(k).color == c));
    }
}

#[test]
fn color_names_map_to_indices() {
    let names = [
        ("black", 0), ("blue", 1), ("purple", 2), ("green", 3), ("orange", 4), ("yellow", 5),
        ("red", 6), ("maroon", 7), ("yellow2", 8), ("blue2", 9), ("red2", 10), ("purple2", 11),
        ("orange2", 12), ("green2", 13), ("maroon2", 14), ("black2", 15), ("white", 16),
        ("cue", 16), ("cue-ball", 16), ("cue_ball", 16),
    ];
    for (name, index) in names {
        assert_eq!(ball_color_name_to_index(name), Some(index), "{}", name);
    }
}

#[test]
fn color_names_ignore_case() {
    assert_eq!(ball_color_name_to_index("BLACK"), Some(0));
    assert_eq!(ball_color_name_to_index("Yellow2"), Some(8));
    assert_eq!(ball_color_name_to_index("Cue_Ball"), Some(16));
    assert_eq!(ball_color_name_to_index("blac\u{212A}"), Some(0));
}

#[test]
fn unknown_color_names_are_refused() {
    assert_eq!(ball_color_name_to_index("pink"), None);
    assert_eq!(ball_color_name_to_index(""), None);
    assert_eq!(ball_color_name_to_index(" black"), None);
    assert_eq!(ball_color_name_to_index("black3"), None);
    assert_eq!(ball_color_name_to_index("5"), None);
}

#[test]
fn lowercase_lookup_is_exact() {
    assert_eq!(color_index_for_lowercase_name("maroon2"), Some(14));
    assert_eq!(color_index_for_lowercase_name("Maroon2"), None);
}

#[test]
fn striped_names_share_solid_colors() {
    for name in ["black", "blue", "purple", "green", "orange", "yellow", "red", "maroon"] {
        let solid = ball_color_name_to_index(name).unwrap();
        let striped = ball_color_name_to_index(&format!("{}2", name)).unwrap();
        assert_eq!(random_billiard_color(solid).color, random_billiard_color(striped).color);
        assert!(!random_billiard_color(solid).is_spots);
        assert!(random_billiard_color(striped).is_spots);
    }
}

#[test]
fn ground_colors_by_index() {
    assert_eq!(ground_color(0), Color::new(99, 172, 95));
    assert_eq!(ground_color(1), Color::new(99, 172, 195));
    assert_eq!(ground_color(2), Color::new(360, 60, 70));
    assert_eq!(ground_color(3), Color::new(90, 300, 110));
    assert_eq!(ground_color(4), Color::new(38, 88, 68));
    assert_eq!(ground_color(5), Color::new(12, 43, 32));
}

#[test]
fn ground_color_out_of_range_is_tournament_green() {
    assert_eq!(ground_color(6), ground_color(0));
    assert_eq!(ground_color(100), ground_color(0));
    assert_eq!(ground_color(usize::MAX), ground_color(0));
}

#[test]
fn stripe_suffix_names_striped_balls() {
    let names = [
        ("yellow-stripe", 8), ("blue-stripe", 9), ("red-stripe", 10), ("purple-stripe", 11),
        ("orange-stripe", 12), ("green-stripe", 13), ("maroon-stripe", 14), ("black-stripe", 15),
    ];
    for (name, index) in names {
        assert_eq!(ball_color_name_to_index(name), Some(index), "{}", name);
        assert_eq!(color_index_for_lowercase_name(name), Some(index), "{}", name);
    }
    assert_eq!(ball_color_name_to_index("Yellow-Stripe"), Some(8));
    assert_eq!(ball_color_name_to_index("white-stripe"), None);
    assert_eq!(ball_color_name_to_index("yellow-stripes"), None);
}

#[test]
fn stripe_suffix_and_two_agree() {
    for name in ["black", "blue", "purple", "green", "orange", "yellow", "red", "maroon"] {
        assert_eq!(
            ball_color_name_to_index(&format!("{}-stripe", name)),
            ball_color_name_to_index(&format!("{}2", name))
        );
    }
}
