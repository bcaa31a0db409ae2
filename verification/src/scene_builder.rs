use vstd::prelude::*;

use crate::color::Color;
use crate::common::{
    ball_color_name_to_index, billiard_albedo, color_index_of_name, ground_color, ground_color_of,
    random_billiard_color, Albedo,
};
use crate::material::NumberType;
use crate::random::random_coin;
use crate::text::{
    parse_unit_thousandths, parse_usize, split_words, starts_with_dashes, str_eq, to_lowercase, trim,
};

verus! {

// ------------------------------------------------------------------------
// Single arguments
// ------------------------------------------------------------------------

/// The felt index that a lower-case texture name selects. The documented
/// names (Tournament Green, Electric Blue, Burgundy or Wine Red, PAF green,
/// PAF dark, PAF dark smooth) and the short forms `green`, `blue`, `red` and
/// `paf darker` are accepted.
pub open spec fn texture_index_of_name(n: Seq<char>) -> Option<usize> {
    if n == "tournament green"@ || n == "green"@ { Some(0) }
    else if n == "electric blue"@ || n == "blue"@ { Some(1) }
    else if n == "burgundy"@ || n == "wine red"@ || n == "red"@ { Some(2) }
    else if n == "paf green"@ { Some(3) }
    else if n == "paf dark"@ { Some(4) }
    else if n == "paf dark smooth"@ || n == "paf darker"@ { Some(5) }
    else { None }
}

/// Looks a felt texture name up once it has been trimmed and lowered.
pub fn texture_index_for_lowercase_name(n: &str) -> (r: Option<usize>)
    ensures
        r == texture_index_of_name(n@),
{
    if str_eq(n, "tournament green") || str_eq(n, "green") { Some(0) }
    else if str_eq(n, "electric blue") || str_eq(n, "blue") { Some(1) }
    else if str_eq(n, "burgundy") || str_eq(n, "wine red") || str_eq(n, "red") { Some(2) }
    else if str_eq(n, "paf green") { Some(3) }
    else if str_eq(n, "paf dark") { Some(4) }
    else if str_eq(n, "paf dark smooth") || str_eq(n, "paf darker") { Some(5) }
    else { None }
}

/// Maps a felt texture name, ignoring surrounding whitespace and case, to
/// its felt index 0-5.
pub fn ground_texture_name_to_index(name: &str) -> (r: Option<usize>)
    ensures
        r == texture_index_of_name(crate::text::lowercase(crate::text::trimmed(name@))),
{
    let n = to_lowercase(trim(name));
    texture_index_for_lowercase_name(n.as_str())
}

/// The ball that a colour argument names: a ball number 0-16, or else a
/// colour name in any case; surrounding whitespace is ignored.
pub open spec fn ball_albedo_of_text(s: Seq<char>) -> Option<Albedo> {
    let t = crate::text::trimmed(s);
    let number = crate::text::parsed_usize(t);
    if number is Some && number->0 <= 16 {
        Some(billiard_albedo(number->0))
    } else {
        match color_index_of_name(crate::text::lowercase(t)) {
            Some(k) => Some(billiard_albedo(k as nat)),
            None => None,
        }
    }
}

/// Parses a ball colour argument: a ball index 0-16 or a colour name such
/// as `purple2`; gives the colour and whether the ball is striped.
pub fn parse_color_or_count(s: &str) -> (r: Option<(Color, bool)>)
    ensures
        r == (match ball_albedo_of_text(s@) {
            Some(a) => Some((a.color, a.is_spots)),
            None => None,
        }),
{
    let s = trim(s);
    if let Some(count) = parse_usize(s) {
        if count <= 16 {
            let albedo = random_billiard_color(count);
            return Some((albedo.color, albedo.is_spots));
        }
    }
    if let Some(index) = ball_color_name_to_index(s) {
        let albedo = random_billiard_color(index);
        return Some((albedo.color, albedo.is_spots));
    }
    None
}

/// The colour written as three whitespace-separated channels `r g b`, each
/// a decimal between 0 and 1 (see `unit_thousandths`).
pub open spec fn rgb_of_text(s: Seq<char>) -> Option<Color> {
    let w = crate::text::words(s);
    if w.len() == 3 {
        let r = crate::text::unit_thousandths(w[0]);
        let g = crate::text::unit_thousandths(w[1]);
        let b = crate::text::unit_thousandths(w[2]);
        if r is Some && g is Some && b is Some {
            Some(Color { r: r->0 as u16, g: g->0 as u16, b: b->0 as u16 })
        } else {
            None
        }
    } else {
        None
    }
}

/// Parses a colour written as three channels `r g b` between 0 and 1.
pub fn parse_rgb(s: &str) -> (r: Option<Color>)
    ensures
        r == rgb_of_text(s@),
{
    let w = split_words(s);
    if w.len() != 3 {
        return None;
    }
    let r = parse_unit_thousandths(w[0]);
    let g = parse_unit_thousandths(w[1]);
    let b = parse_unit_thousandths(w[2]);
    match (r, g, b) {
        (Some(r), Some(g), Some(b)) => Some(Color { r, g, b }),
        _ => None,
    }
}

/// The background colour that a `--bg` argument selects: the colour of the
/// ball it names (a ball index 0-16 or a colour name), or else the colour
/// written as three channels `r g b` between 0 and 1.
pub open spec fn background_of_text(s: Seq<char>) -> Option<Color> {
    match ball_albedo_of_text(s) {
        Some(a) => Some(a.color),
        None => rgb_of_text(s),
    }
}

/// Parses a background colour argument: a ball index 0-16 or a ball colour
/// name gives that ball's colour; three whitespace-separated decimals
/// `r g b` between 0 and 1 give that colour, each channel rounded to the
/// nearest thousandth. The channels are read in plain decimal notation only
/// (digits and one `.`); signs and exponents are refused.
pub fn parse_background_color(s: &str) -> (r: Option<Color>)
    ensures
        r == background_of_text(s@),
{
    let t = trim(s);
    if let Some(count) = parse_usize(t) {
        if count <= 16 {
            let albedo = random_billiard_color(count);
            return Some(albedo.color);
        }
    }
    if let Some(index) = ball_color_name_to_index(t) {
        let albedo = random_billiard_color(index);
        return Some(albedo.color);
    }
    parse_rgb(s)
}

/// The figure that a number-type argument selects: `0` a circle, `1` a line.
pub open spec fn number_type_of_text(s: Seq<char>) -> Option<NumberType> {
    let t = crate::text::trimmed(s);
    if t == "1"@ {
        Some(NumberType::Line)
    } else if t == "0"@ {
        Some(NumberType::Circle)
    } else {
        None
    }
}

/// Parses a number-type argument: `0` = Circle, `1` = Line, surrounding
/// whitespace ignored.
pub fn parse_number_type(s: &str) -> (r: Option<NumberType>)
    ensures
        r == number_type_of_text(s@),
{
    let s = trim(s);
    if str_eq(s, "1") {
        Some(NumberType::Line)
    } else if str_eq(s, "0") {
        Some(NumberType::Circle)
    } else {
        None
    }
}

/// The felt colour that a ground-colour argument selects: an index 0-5.
pub open spec fn felt_of_text(s: Seq<char>) -> Option<Color> {
    let number = crate::text::parsed_usize(crate::text::trimmed(s));
    if number is Some && number->0 <= 5 {
        Some(ground_color_of(number->0))
    } else {
        None
    }
}

/// Parses a ground colour index 0-5 to its felt colour.
pub fn parse_ground_color(s: &str) -> (r: Option<Color>)
    ensures
        r == felt_of_text(s@),
{
    let s = trim(s);
    if let Some(index) = parse_usize(s) {
        if index <= 5 {
            return Some(ground_color(index));
        }
    }
    None
}

// ------------------------------------------------------------------------
// Whole scenes
// ------------------------------------------------------------------------

/// A billiard ball of a custom scene. Its centre is the point whose
/// coordinates are written at `args[x_arg]`, `args[y_arg]` and `args[z_arg]`;
/// when `orientation_arg` is `Some(k)` the yaw and pitch (in degrees) of its
/// spot are written at `args[k]` and `args[k + 1]`, and otherwise the
/// orientation is left to chance.
#[derive(Clone, Copy, Debug, PartialEq, Eq)]
pub struct BallPlan {
    pub x_arg: usize,
    pub y_arg: usize,
    pub z_arg: usize,
    pub color: Color,
    pub is_spots: bool,
    pub number_type: NumberType,
    pub orientation_arg: Option<usize>,
}

/// The horizontal table plane through the origin: its felt colour, and
/// whether the felt carries the Perlin noise texture or is plain.
#[derive(Clone, Copy, Debug, PartialEq, Eq)]
pub struct GroundPlan {
    pub color: Color,
    pub noise: bool,
}

/// One object of a custom scene.
#[derive(Clone, Copy, Debug, PartialEq, Eq)]
pub enum SceneObject {
    Ball(BallPlan),
    Ground(GroundPlan),
}

/// A custom scene: its objects in the order of the arguments, and the
/// optional solid background colour.
pub struct CustomScene {
    pub world: Vec<SceneObject>,
    pub background_color: Option<Color>,
}

impl View for CustomScene {
    type V = (Seq<SceneObject>, Option<Color>);

    open spec fn view(&self) -> (Seq<SceneObject>, Option<Color>) {
        (self.world@, self.background_color)
    }
}

/// An argument that starts with `--` (a flag).
pub open spec fn is_flag(s: Seq<char>) -> bool {
    s.len() >= 2 && s[0] == '-' && s[1] == '-'
}

/// The ball that `--ball` at position `i` describes, with the number of
/// arguments it takes. `fl[k]` says whether `args[k]` reads as a float.
/// The form is `--ball x y z color [number_type] [yaw pitch]`; the ball is
/// refused (`None`) when fewer than four values follow, a coordinate is not
/// a float, or the colour is unknown. Without a number type the figure is
/// `coins[i]` (true: Line, false: Circle).
pub open spec fn ball_at(args: Seq<String>, fl: Seq<bool>, coins: Seq<bool>, i: int) -> Option<(BallPlan, int)> {
    if i + 4 >= args.len() || !fl[i + 1] || !fl[i + 2] || !fl[i + 3] {
        None
    } else {
        match ball_albedo_of_text(args[i + 4]@) {
            None => None,
            Some(albedo) => {
                let given = if i + 5 < args.len() { number_type_of_text(args[i + 5]@) } else { None };
                let c: int = if given is Some { 6 } else { 5 };
                let number_type = match given {
                    Some(t) => t,
                    None => if coins[i] { NumberType::Line } else { NumberType::Circle },
                };
                let oriented = i + c + 1 < args.len() && fl[i + c] && fl[i + c + 1];
                let ball = BallPlan {
                    x_arg: (i + 1) as usize,
                    y_arg: (i + 2) as usize,
                    z_arg: (i + 3) as usize,
                    color: albedo.color,
                    is_spots: albedo.is_spots,
                    number_type,
                    orientation_arg: if oriented { Some((i + c) as usize) } else { None },
                };
                Some((ball, if oriented { c + 2 } else { c }))
            },
        }
    }
}

/// The table that `--ground [--noise] [color]` at position `i` describes,
/// with the number of arguments it takes. The felt colour is the index that
/// follows (default Tournament Green); the felt is textured with `--noise`,
/// and also when no colour index is given.
pub open spec fn ground_at(args: Seq<String>, i: int) -> (GroundPlan, int) {
    let noise = i + 1 < args.len() && args[i + 1]@ == "--noise"@;
    let c: int = if noise { 2 } else { 1 };
    let felt = if i + c < args.len() { felt_of_text(args[i + c]@) } else { None };
    match felt {
        Some(color) => (GroundPlan { color, noise }, c + 1),
        None => (GroundPlan { color: ground_color_of(0), noise: true }, c),
    }
}

/// The texture name that `--table --texture` takes: one word, or two when
/// the second is not a flag.
pub open spec fn texture_words(args: Seq<String>, i: int) -> Seq<char> {
    if i + 3 < args.len() && !is_flag(args[i + 3]@) {
        args[i + 2]@ + " "@ + args[i + 3]@
    } else {
        args[i + 2]@
    }
}

/// The table that `--table [--texture <felt name>]` at position `i`
/// describes, with the number of arguments it takes: plain Tournament Green
/// felt, or the named felt with the noise texture when the name is known.
pub open spec fn table_at(args: Seq<String>, i: int) -> (GroundPlan, int) {
    let plain = GroundPlan { color: ground_color_of(0), noise: false };
    if i + 1 < args.len() && args[i + 1]@ == "--texture"@ {
        if i + 2 < args.len() {
            let c: int = if i + 3 < args.len() && !is_flag(args[i + 3]@) { 4 } else { 3 };
            match texture_index_of_name(crate::text::lowercase(crate::text::trimmed(texture_words(args, i)))) {
                Some(k) => (GroundPlan { color: ground_color_of(k as nat), noise: true }, c),
                None => (plain, c),
            }
        } else {
            (plain, 2)
        }
    } else {
        (plain, 1)
    }
}

/// The scene that the arguments from position `i` on add to the objects
/// `objs` and background `bg` found so far; `ground` says whether a table
/// was already made (only the first `--ground` or `--table` counts, later
/// ones are skipped alone). Unknown arguments and the legacy `--plane` are
/// skipped; `--bg color` sets the background (an unknown colour clears it).
/// `None` when a ball is refused or `--bg` is the last argument.
pub open spec fn scene_from(
    args: Seq<String>,
    fl: Seq<bool>,
    coins: Seq<bool>,
    i: int,
    ground: bool,
    objs: Seq<SceneObject>,
    bg: Option<Color>,
) -> Option<(Seq<SceneObject>, Option<Color>)>
    decreases args.len() - i,
{
    if i < 0 || i >= args.len() {
        Some((objs, bg))
    } else if args[i]@ == "--ball"@ {
        match ball_at(args, fl, coins, i) {
            None => None,
            Some((ball, c)) => scene_from(args, fl, coins, i + c, ground, objs.push(SceneObject::Ball(ball)), bg),
        }
    } else if args[i]@ == "--ground"@ && !ground {
        let (g, c) = ground_at(args, i);
        scene_from(args, fl, coins, i + c, true, objs.push(SceneObject::Ground(g)), bg)
    } else if args[i]@ == "--table"@ && !ground {
        let (g, c) = table_at(args, i);
        scene_from(args, fl, coins, i + c, true, objs.push(SceneObject::Ground(g)), bg)
    } else if args[i]@ == "--bg"@ {
        if i + 1 >= args.len() {
            None
        } else {
            scene_from(args, fl, coins, i + 2, ground, objs, background_of_text(args[i + 1]@))
        }
    } else {
        scene_from(args, fl, coins, i + 1, ground, objs, bg)
    }
}

/// The custom scene that the command-line arguments describe, the figures of
/// balls without a number type being given by `coins`.
pub open spec fn custom_scene(args: Seq<String>, fl: Seq<bool>, coins: Seq<bool>) -> Option<(Seq<SceneObject>, Option<Color>)> {
    scene_from(args, fl, coins, 0, false, Seq::empty(), None)
}

/// Reads the ball that `--ball` at position `i` describes (see `ball_at`).
fn parse_ball(args: &[String], is_float: &[bool], coins: &[bool], i: usize) -> (r: Option<(BallPlan, usize)>)
    requires
        i < args@.len(),
        is_float@.len() == args@.len(),
        coins@.len() == args@.len(),
    ensures
        r is None <==> ball_at(args@, is_float@, coins@, i as int) is None,
        r matches Some((b, c)) ==> ball_at(args@, is_float@, coins@, i as int) == Some((b, c as int)),
{
    let n = args.len();
    if n - i <= 4 {
        return None;
    }
    if !is_float[i + 1] || !is_float[i + 2] || !is_float[i + 3] {
        return None;
    }
    let (color, is_spots) = match parse_color_or_count(args[i + 4].as_str()) {
        Some(found) => found,
        None => return None,
    };
    let mut consumed: usize = 5;
    let given = if n - i > 5 { parse_number_type(args[i + 5].as_str()) } else { None };
    let number_type = match given {
        Some(t) => {
            consumed = 6;
            t
        },
        None => if coins[i] { NumberType::Line } else { NumberType::Circle },
    };
    let mut orientation_arg: Option<usize> = None;
    if n - i > consumed + 1 && is_float[i + consumed] && is_float[i + consumed + 1] {
        orientation_arg = Some(i + consumed);
        consumed = consumed + 2;
    }
    let ball = BallPlan {
        x_arg: i + 1,
        y_arg: i + 2,
        z_arg: i + 3,
        color,
        is_spots,
        number_type,
        orientation_arg,
    };
    Some((ball, consumed))
}

/// Reads the table that `--ground` at position `i` describes (see `ground_at`).
fn parse_ground(args: &[String], i: usize) -> (r: (GroundPlan, usize))
    requires
        i < args@.len(),
    ensures
        ground_at(args@, i as int) == (r.0, r.1 as int),
{
    let n = args.len();
    let mut consumed: usize = 1;
    let noise = n - i > 1 && str_eq(args[i + 1].as_str(), "--noise");
    if noise {
        consumed = 2;
    }
    let felt = if n - i > consumed { parse_ground_color(args[i + consumed].as_str()) } else { None };
    match felt {
        Some(color) => (GroundPlan { color, noise }, consumed + 1),
        None => (GroundPlan { color: ground_color(0), noise: true }, consumed),
    }
}

/// Reads the table that `--table` at position `i` describes (see `table_at`).
fn parse_table(args: &[String], i: usize) -> (r: (GroundPlan, usize))
    requires
        i < args@.len(),
    ensures
        table_at(args@, i as int) == (r.0, r.1 as int),
{
    let n = args.len();
    let plain = GroundPlan { color: ground_color(0), noise: false };
    if n - i > 1 && str_eq(args[i + 1].as_str(), "--texture") {
        if n - i > 2 {
            let two = n - i > 3 && !starts_with_dashes(args[i + 3].as_str());
            let mut texture_name = args[i + 2].clone();
            let mut consumed: usize = 3;
            if two {
                texture_name.append(" ");
                texture_name.append(args[i + 3].as_str());
                consumed = 4;
            }
            assert(texture_name@ == texture_words(args@, i as int));
            match ground_texture_name_to_index(texture_name.as_str()) {
                Some(k) => (GroundPlan { color: ground_color(k), noise: true }, consumed),
                None => (plain, consumed),
            }
        } else {
            (plain, 2)
        }
    } else {
        (plain, 1)
    }
}

/// Builds the custom scene that the command-line arguments describe, with
/// the figure of each ball that names no number type given by the coin at
/// the position of its `--ball` (true: Line). `is_float[k]` says whether
/// `args[k]` reads as a floating-point number.
///
/// Arguments: `--ball x y z color [number_type] [yaw pitch]`,
/// `--ground [--noise] [color]`, `--table [--texture <felt name>]`,
/// `--bg color`; anything else is skipped. Gives `None` when a ball is
/// malformed or `--bg` has no value.
pub fn plan_custom_scene(args: &[String], is_float: &[bool], coins: &[bool]) -> (r: Option<CustomScene>)
    requires
        is_float@.len() == args@.len(),
        coins@.len() == args@.len(),
    ensures
        r is None <==> custom_scene(args@, is_float@, coins@) is None,
        r matches Some(scene) ==> custom_scene(args@, is_float@, coins@) == Some(scene@),
{
    let n = args.len();
    let mut world: Vec<SceneObject> = Vec::new();
    let mut background_color: Option<Color> = None;
    let mut ground_created = false;
    let mut i: usize = 0;
    while i < n
        invariant
            i <= n,
            n == args@.len(),
            is_float@.len() == n,
            coins@.len() == n,
            custom_scene(args@, is_float@, coins@) == scene_from(
                args@,
                is_float@,
                coins@,
                i as int,
                ground_created,
                world@,
                background_color,
            ),
        decreases n - i,
    {
        let arg = args[i].as_str();
        if str_eq(arg, "--ball") {
            match parse_ball(args, is_float, coins, i) {
                None => return None,
                Some((ball, consumed)) => {
                    world.push(SceneObject::Ball(ball));
                    i = i + consumed;
                },
            }
        } else if str_eq(arg, "--ground") && !ground_created {
            let (g, consumed) = parse_ground(args, i);
            world.push(SceneObject::Ground(g));
            ground_created = true;
            i = i + consumed;
        } else if str_eq(arg, "--table") && !ground_created {
            let (g, consumed) = parse_table(args, i);
            world.push(SceneObject::Ground(g));
            ground_created = true;
            i = i + consumed;
        } else if str_eq(arg, "--bg") {
            if n - i <= 1 {
                return None;
            }
            background_color = parse_background_color(args[i + 1].as_str());
            i = i + 2;
        } else {
            i = i + 1;
        }
    }
    Some(CustomScene { world, background_color })
}

/// Whether the arguments describe a scene at all. The random figures of
/// the balls never decide this (see `lemma_acceptance_ignores_coins`).
pub open spec fn custom_scene_accepted(args: Seq<String>, fl: Seq<bool>) -> bool {
    custom_scene(args, fl, Seq::new(args.len(), |k: int| false)) is Some
}

proof fn lemma_scene_from_success_ignores_coins(
    args: Seq<String>,
    fl: Seq<bool>,
    c1: Seq<bool>,
    c2: Seq<bool>,
    i: int,
    ground: bool,
    o1: Seq<SceneObject>,
    o2: Seq<SceneObject>,
    bg: Option<Color>,
)
    ensures
        scene_from(args, fl, c1, i, ground, o1, bg) is Some
            <==> scene_from(args, fl, c2, i, ground, o2, bg) is Some,
    decreases args.len() - i,
{
    if i < 0 || i >= args.len() {
    } else if args[i]@ == "--ball"@ {
        match ball_at(args, fl, c1, i) {
            None => {},
            Some((b1, k)) => {
                let (b2, k2) = ball_at(args, fl, c2, i)->0;
                assert(k == k2);
                lemma_scene_from_success_ignores_coins(
                    args, fl, c1, c2, i + k, ground,
                    o1.push(SceneObject::Ball(b1)), o2.push(SceneObject::Ball(b2)), bg,
                );
            },
        }
    } else if args[i]@ == "--ground"@ && !ground {
        let (g, k) = ground_at(args, i);
        lemma_scene_from_success_ignores_coins(
            args, fl, c1, c2, i + k, true,
            o1.push(SceneObject::Ground(g)), o2.push(SceneObject::Ground(g)), bg,
        );
    } else if args[i]@ == "--table"@ && !ground {
        let (g, k) = table_at(args, i);
        lemma_scene_from_success_ignores_coins(
            args, fl, c1, c2, i + k, true,
            o1.push(SceneObject::Ground(g)), o2.push(SceneObject::Ground(g)), bg,
        );
    } else if args[i]@ == "--bg"@ {
        if i + 1 < args.len() {
            lemma_scene_from_success_ignores_coins(
                args, fl, c1, c2, i + 2, ground, o1, o2, background_of_text(args[i + 1]@),
            );
        }
    } else {
        lemma_scene_from_success_ignores_coins(args, fl, c1, c2, i + 1, ground, o1, o2, bg);
    }
}

/// Whether a custom scene is accepted does not depend on the figures drawn
/// for balls that name no number type: any two draws accept or refuse the
/// same arguments.
pub proof fn lemma_acceptance_ignores_coins(args: Seq<String>, fl: Seq<bool>, c1: Seq<bool>, c2: Seq<bool>)
    ensures
        custom_scene(args, fl, c1) is Some <==> custom_scene(args, fl, c2) is Some,
{
    lemma_scene_from_success_ignores_coins(args, fl, c1, c2, 0, false, Seq::empty(), Seq::empty(), None);
}

/// Builds the custom scene that the command-line arguments describe
/// (see `plan_custom_scene`), drawing at random, as a fair coin, the figure
/// of each ball that names no number type. `is_float[k]` says whether
/// `args[k]` reads as a floating-point number.
pub fn build_custom_scene(args: &[String], is_float: &[bool]) -> (r: Option<CustomScene>)
    requires
        is_float@.len() == args@.len(),
    ensures
        r is Some <==> custom_scene_accepted(args@, is_float@),
        r matches Some(scene) ==> exists|coins: Seq<bool>|
            coins.len() == args@.len() && custom_scene(args@, is_float@, coins) == Some(scene@),
{
    let n = args.len();
    let mut coins: Vec<bool> = Vec::new();
    let mut k: usize = 0;
    while k < n
        invariant
            k <= n,
            n == args@.len(),
            coins@.len() == k,
        decreases n - k,
    {
        coins.push(random_coin());
        k = k + 1;
    }
    let r = plan_custom_scene(args, is_float, coins.as_slice());
    proof {
        lemma_acceptance_ignores_coins(args@, is_float@, coins@, Seq::new(args@.len(), |k: int| false));
    }
    r
}

// ------------------------------------------------------------------------
// Laws of custom scenes
// ------------------------------------------------------------------------

/// No object of `objs` is a table.
pub open spec fn has_no_ground(objs: Seq<SceneObject>) -> bool {
    forall|a: int| 0 <= a < objs.len() ==> !(#[trigger] objs[a] is Ground)
}

/// At most one object of `objs` is a table.
pub open spec fn has_at_most_one_ground(objs: Seq<SceneObject>) -> bool {
    forall|a: int, b: int|
        0 <= a < objs.len() && 0 <= b < objs.len() && #[trigger] objs[a] is Ground
            && #[trigger] objs[b] is Ground ==> a == b
}

proof fn lemma_scene_from_one_ground(
    args: Seq<String>,
    fl: Seq<bool>,
    coins: Seq<bool>,
    i: int,
    ground: bool,
    objs: Seq<SceneObject>,
    bg: Option<Color>,
)
    requires
        ground || has_no_ground(objs),
        has_at_most_one_ground(objs),
    ensures
        scene_from(args, fl, coins, i, ground, objs, bg) matches Some((w, _)) ==> has_at_most_one_ground(w),
    decreases args.len() - i,
{
    if i < 0 || i >= args.len() {
    } else if args[i]@ == "--ball"@ {
        match ball_at(args, fl, coins, i) {
            None => {},
            Some((b, k)) => {
                let o = objs.push(SceneObject::Ball(b));
                assert(o[o.len() - 1] is Ball);
                assert forall|a: int| 0 <= a < o.len() && !ground implies !(#[trigger] o[a] is Ground) by {
                    if a < objs.len() { assert(o[a] == objs[a]); }
                }
                assert forall|a: int, c: int|
                    0 <= a < o.len() && 0 <= c < o.len() && #[trigger] o[a] is Ground && #[trigger] o[c] is Ground
                    implies a == c by {
                    if a < objs.len() && c < objs.len() {
                        assert(o[a] == objs[a] && o[c] == objs[c]);
                    }
                }
                lemma_scene_from_one_ground(args, fl, coins, i + k, ground, o, bg);
            },
        }
    } else if (args[i]@ == "--ground"@ || args[i]@ == "--table"@) && !ground {
        let (g, k) = if args[i]@ == "--ground"@ { ground_at(args, i) } else { table_at(args, i) };
        let o = objs.push(SceneObject::Ground(g));
        assert forall|a: int, c: int|
            0 <= a < o.len() && 0 <= c < o.len() && #[trigger] o[a] is Ground && #[trigger] o[c] is Ground
            implies a == c by {
            if a < objs.len() { assert(o[a] == objs[a]); }
            if c < objs.len() { assert(o[c] == objs[c]); }
        }
        lemma_scene_from_one_ground(args, fl, coins, i + k, true, o, bg);
    } else if args[i]@ == "--bg"@ {
        if i + 1 < args.len() {
            lemma_scene_from_one_ground(args, fl, coins, i + 2, ground, objs, background_of_text(args[i + 1]@));
        }
    } else {
        lemma_scene_from_one_ground(args, fl, coins, i + 1, ground, objs, bg);
    }
}

/// A custom scene holds at most one table: only the first `--ground` or
/// `--table` makes one.
pub proof fn lemma_custom_scene_has_at_most_one_table(args: Seq<String>, fl: Seq<bool>, coins: Seq<bool>)
    ensures
        custom_scene(args, fl, coins) matches Some((w, _)) ==> has_at_most_one_ground(w),
{
    lemma_scene_from_one_ground(args, fl, coins, 0, false, Seq::empty(), None);
}

/// The ball refers to arguments that exist and read as floats for its centre
/// and, when it has one, for its orientation.
pub open spec fn ball_reads_floats(args: Seq<String>, fl: Seq<bool>, b: BallPlan) -> bool {
    &&& b.x_arg < args.len() && b.y_arg < args.len() && b.z_arg < args.len()
    &&& fl[b.x_arg as int] && fl[b.y_arg as int] && fl[b.z_arg as int]
    &&& (b.orientation_arg matches Some(k) ==> k + 1 < args.len() && fl[k as int] && fl[k + 1])
}

/// Every ball of `objs` reads its numbers from float arguments.
pub open spec fn balls_read_floats(args: Seq<String>, fl: Seq<bool>, objs: Seq<SceneObject>) -> bool {
    forall|a: int| 0 <= a < objs.len() ==> (#[trigger] objs[a] matches SceneObject::Ball(b) ==> ball_reads_floats(args, fl, b))
}

proof fn lemma_scene_from_balls_read_floats(
    args: Seq<String>,
    fl: Seq<bool>,
    coins: Seq<bool>,
    i: int,
    ground: bool,
    objs: Seq<SceneObject>,
    bg: Option<Color>,
)
    requires
        args.len() <= usize::MAX,
        balls_read_floats(args, fl, objs),
    ensures
        scene_from(args, fl, coins, i, ground, objs, bg) matches Some((w, _)) ==> balls_read_floats(args, fl, w),
    decreases args.len() - i,
{
    if i < 0 || i >= args.len() {
    } else if args[i]@ == "--ball"@ {
        match ball_at(args, fl, coins, i) {
            None => {},
            Some((b, k)) => {
                let o = objs.push(SceneObject::Ball(b));
                assert forall|a: int| 0 <= a < o.len() implies
                    (#[trigger] o[a] matches SceneObject::Ball(bb) ==> ball_reads_floats(args, fl, bb)) by {
                    if a < objs.len() { assert(o[a] == objs[a]); }
                }
                lemma_scene_from_balls_read_floats(args, fl, coins, i + k, ground, o, bg);
            },
        }
    } else if (args[i]@ == "--ground"@ || args[i]@ == "--table"@) && !ground {
        let (g, k) = if args[i]@ == "--ground"@ { ground_at(args, i) } else { table_at(args, i) };
        let o = objs.push(SceneObject::Ground(g));
        assert forall|a: int| 0 <= a < o.len() implies
            (#[trigger] o[a] matches SceneObject::Ball(bb) ==> ball_reads_floats(args, fl, bb)) by {
            if a < objs.len() { assert(o[a] == objs[a]); }
        }
        lemma_scene_from_balls_read_floats(args, fl, coins, i + k, true, o, bg);
    } else if args[i]@ == "--bg"@ {
        if i + 1 < args.len() {
            lemma_scene_from_balls_read_floats(args, fl, coins, i + 2, ground, objs, background_of_text(args[i + 1]@));
        }
    } else {
        lemma_scene_from_balls_read_floats(args, fl, coins, i + 1, ground, objs, bg);
    }
}

/// Every ball of a custom scene takes its centre, and its orientation when
/// it has one, from arguments that exist and read as floats.
pub proof fn lemma_custom_scene_balls_read_floats(args: Seq<String>, fl: Seq<bool>, coins: Seq<bool>)
    requires
        args.len() <= usize::MAX,
    ensures
        custom_scene(args, fl, coins) matches Some((w, _)) ==> balls_read_floats(args, fl, w),
{
    lemma_scene_from_balls_read_floats(args, fl, coins, 0, false, Seq::empty(), None);
}

// ------------------------------------------------------------------------
// Laws of single scene elements
// ------------------------------------------------------------------------

/// A `--bg` argument that names a ball (by number or by colour name, in any
/// case) gives that ball's colour, exactly as the colour argument of
/// `--ball` does.
pub proof fn lemma_background_names_balls_like_ball_colors(s: Seq<char>)
    ensures
        ball_albedo_of_text(s) matches Some(a) ==> background_of_text(s) == Some(a.color),
        ball_albedo_of_text(s) is None ==> background_of_text(s) == rgb_of_text(s),
{
}

/// The argument that `--ground` at `i` reads as a number, after `--noise`
/// when that flag follows.
pub open spec fn ground_index_position(args: Seq<String>, i: int) -> int {
    if i + 1 < args.len() && args[i + 1]@ == "--noise"@ { i + 2 } else { i + 1 }
}

/// `--ground` followed by a felt index `k` in `0..=5` makes a table of felt
/// `k` that takes the index; the felt is textured exactly when `--noise`
/// was written, whatever the index. Without such an index the table is the
/// textured Tournament Green felt and the following argument is left alone.
pub proof fn lemma_ground_index_selects_felt(args: Seq<String>, i: int)
    requires
        0 <= i < args.len(),
    ensures
        ({
            let noise = i + 1 < args.len() && args[i + 1]@ == "--noise"@;
            let at = ground_index_position(args, i);
            let index = if at < args.len() {
                crate::text::parsed_usize(crate::text::trimmed(args[at]@))
            } else {
                None
            };
            &&& (index matches Some(k) && k <= 5) ==> ground_at(args, i) == (
                GroundPlan { color: ground_color_of(index->0), noise },
                at + 1 - i,
            )
            &&& !(index matches Some(k) && k <= 5) ==> ground_at(args, i) == (
                GroundPlan { color: ground_color_of(0), noise: true },
                at - i,
            )
        }),
{
}

/// A number-type argument: `0` or `1`, surrounding whitespace ignored.
pub open spec fn is_number_type_text(s: Seq<char>) -> bool {
    crate::text::trimmed(s) == "0"@ || crate::text::trimmed(s) == "1"@
}

/// A ball takes exactly its four values, its optional number type (`1` a
/// line, `0` a circle, else the coin) and, only when it reads an
/// orientation, the two angles: the orientation is read
/// exactly when the two arguments after the colour (and number type) exist
/// and read as floats. So an argument after a ball without orientation,
/// such as a second `--ball`, is read on its own.
pub proof fn lemma_ball_takes_exactly_its_arguments(args: Seq<String>, fl: Seq<bool>, coins: Seq<bool>, i: int)
    requires
        0 <= i,
        args.len() <= usize::MAX,
        ball_at(args, fl, coins, i) is Some,
    ensures
        ({
            let (b, c) = ball_at(args, fl, coins, i)->0;
            let g: int = if i + 5 < args.len() && is_number_type_text(args[i + 5]@) { 1 } else { 0 };
            let o = i + 5 + g;
            let oriented = o + 1 < args.len() && fl[o] && fl[o + 1];
            &&& c == 5 + g + (if b.orientation_arg is Some { 2int } else { 0 })
            &&& (b.orientation_arg is Some <==> oriented)
            &&& (oriented ==> b.orientation_arg == Some(o as usize))
            &&& b.x_arg == i + 1 && b.y_arg == i + 2 && b.z_arg == i + 3
            &&& g == 1 ==> b.number_type == (if crate::text::trimmed(args[i + 5]@) == "1"@ {
                NumberType::Line
            } else {
                NumberType::Circle
            })
            &&& g == 0 ==> b.number_type == (if coins[i] { NumberType::Line } else { NumberType::Circle })
        }),
{
}

// ------------------------------------------------------------------------
// The first table does not depend on the balls before it
// ------------------------------------------------------------------------

/// The scan only adds objects: the objects found so far start the result.
proof fn lemma_scene_from_extends(
    args: Seq<String>,
    fl: Seq<bool>,
    coins: Seq<bool>,
    i: int,
    ground: bool,
    objs: Seq<SceneObject>,
    bg: Option<Color>,
)
    ensures
        scene_from(args, fl, coins, i, ground, objs, bg) matches Some((w, _)) ==> objs.len() <= w.len()
            && forall|k: int| 0 <= k < objs.len() ==> #[trigger] w[k] == objs[k],
    decreases args.len() - i,
{
    if i < 0 || i >= args.len() {
    } else if args[i]@ == "--ball"@ {
        match ball_at(args, fl, coins, i) {
            None => {},
            Some((b, k)) => {
                let o = objs.push(SceneObject::Ball(b));
                lemma_scene_from_extends(args, fl, coins, i + k, ground, o, bg);
                assert forall|m: int| 0 <= m < objs.len() implies o[m] == objs[m] by {}
            },
        }
    } else if (args[i]@ == "--ground"@ || args[i]@ == "--table"@) && !ground {
        let (g, k) = if args[i]@ == "--ground"@ { ground_at(args, i) } else { table_at(args, i) };
        let o = objs.push(SceneObject::Ground(g));
        lemma_scene_from_extends(args, fl, coins, i + k, true, o, bg);
        assert forall|m: int| 0 <= m < objs.len() implies o[m] == objs[m] by {}
    } else if args[i]@ == "--bg"@ {
        if i + 1 < args.len() {
            lemma_scene_from_extends(args, fl, coins, i + 2, ground, objs, background_of_text(args[i + 1]@));
        }
    } else {
        lemma_scene_from_extends(args, fl, coins, i + 1, ground, objs, bg);
    }
}

/// What the argument `--table` is not: another flag, or a number type.
proof fn lemma_table_flag_text(t: Seq<char>)
    requires
        t == "--table"@,
    ensures
        t != "--ball"@,
        t != "--ground"@,
        t == "--table"@,
        number_type_of_text(t) is None,
{
    reveal_strlit("--table");
    reveal_strlit("--ball");
    reveal_strlit("--ground");
    reveal_strlit("0");
    reveal_strlit("1");
    assert(!crate::text::is_white_space(t[0]));
    assert(!crate::text::is_white_space(t.last()));
    assert(crate::text::trim_start(t) == t);
    assert(crate::text::trim_end(t) == t);
    assert(crate::text::trimmed(t) == t);
}

/// The plain Tournament Green table that a bare `--table` makes.
pub open spec fn plain_table() -> SceneObject {
    SceneObject::Ground(GroundPlan { color: ground_color_of(0), noise: false })
}

proof fn lemma_scene_from_append_table(
    args: Seq<String>,
    fl: Seq<bool>,
    coins: Seq<bool>,
    t: String,
    x: bool,
    i: int,
    objs: Seq<SceneObject>,
    bg: Option<Color>,
)
    requires
        t@ == "--table"@,
        fl.len() == args.len(),
        coins.len() == args.len(),
        0 <= i <= args.len(),
    ensures
        scene_from(args, fl, coins, i, false, objs, bg) matches Some((w, b)) ==> (has_no_ground(w)
            ==> scene_from(args.push(t), fl.push(false), coins.push(x), i, false, objs, bg)
                == Some((w.push(plain_table()), b))),
    decreases args.len() - i,
{
    let a2 = args.push(t);
    let f2 = fl.push(false);
    let c2 = coins.push(x);
    lemma_table_flag_text(t@);
    lemma_scene_from_extends(args, fl, coins, i, false, objs, bg);
    if i == args.len() {
        assert(a2[i] == t);
        let (g, k) = table_at(a2, i);
        assert(k == 1);
        assert(SceneObject::Ground(g) == plain_table());
        assert(scene_from(a2, f2, c2, i + 1, true, objs.push(plain_table()), bg) == Some((objs.push(plain_table()), bg)));
        assert(scene_from(a2, f2, c2, i, false, objs, bg) == Some((objs.push(plain_table()), bg)));
    } else {
        assert(a2[i] == args[i]);
        if args[i]@ == "--ball"@ {
            match ball_at(args, fl, coins, i) {
                None => {},
                Some((b, k)) => {
                    assert(i + 4 < args.len());
                    assert(f2[i + 1] == fl[i + 1] && f2[i + 2] == fl[i + 2] && f2[i + 3] == fl[i + 3]);
                    assert(a2[i + 4] == args[i + 4]);
                    assert(c2[i] == coins[i]);
                    if i + 5 < args.len() {
                        assert(a2[i + 5] == args[i + 5]);
                    } else {
                        assert(a2[i + 5] == t);
                    }
                    let given = if i + 5 < args.len() { number_type_of_text(args[i + 5]@) } else { None };
                    let c: int = if given is Some { 6 } else { 5 };
                    if i + c + 1 < args.len() {
                        assert(f2[i + c] == fl[i + c] && f2[i + c + 1] == fl[i + c + 1]);
                    } else if i + c + 1 == args.len() {
                        assert(f2[i + c + 1] == false);
                    }
                    assert(ball_at(a2, f2, c2, i) == ball_at(args, fl, coins, i));
                    let o = objs.push(SceneObject::Ball(b));
                    lemma_scene_from_extends(args, fl, coins, i + k, false, o, bg);
                    lemma_scene_from_append_table(args, fl, coins, t, x, i + k, o, bg);
                },
            }
        } else if (args[i]@ == "--ground"@ || args[i]@ == "--table"@) {
            let (g, k) = if args[i]@ == "--ground"@ { ground_at(args, i) } else { table_at(args, i) };
            let o = objs.push(SceneObject::Ground(g));
            lemma_scene_from_extends(args, fl, coins, i + k, true, o, bg);
            match scene_from(args, fl, coins, i, false, objs, bg) {
                None => {},
                Some((w, _)) => {
                    assert(w[objs.len() as int] == o[objs.len() as int]);
                    assert(w[objs.len() as int] is Ground);
                },
            }
        } else if args[i]@ == "--bg"@ {
            if i + 1 < args.len() {
                assert(a2[i + 1] == args[i + 1]);
                lemma_scene_from_append_table(args, fl, coins, t, x, i + 2, objs, background_of_text(args[i + 1]@));
            }
        } else {
            lemma_scene_from_append_table(args, fl, coins, t, x, i + 1, objs, bg);
        }
    }
}

/// The first `--table` makes a table wherever it stands, whatever balls come
/// before it: appending `--table` to accepted arguments that made no table
/// gives the same scene with a plain Tournament Green table added.
pub proof fn lemma_trailing_table_is_made(args: Seq<String>, fl: Seq<bool>, coins: Seq<bool>, t: String, x: bool)
    requires
        t@ == "--table"@,
        fl.len() == args.len(),
        coins.len() == args.len(),
    ensures
        custom_scene(args, fl, coins) matches Some((w, b)) ==> (has_no_ground(w)
            ==> custom_scene(args.push(t), fl.push(false), coins.push(x)) == Some((w.push(plain_table()), b))),
{
    lemma_scene_from_append_table(args, fl, coins, t, x, 0, Seq::empty(), None);
}

} // verus!
