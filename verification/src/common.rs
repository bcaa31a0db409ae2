use vstd::prelude::*;

use crate::color::Color;
use crate::text::{str_eq, to_lowercase};

verus! {

/// The colour of a billiard ball and whether it is a striped ("spots") ball.
#[derive(Clone, Copy, Debug, PartialEq, Eq, Structural)]
pub struct Albedo {
    pub color: Color,
    pub is_spots: bool,
}

/// The billiard palette: solids 0-7, the same eight colours in another order
/// for the striped balls 8-15, and the cue ball 16.
pub open spec fn billiard_palette(k: nat) -> Color {
    if k == 0 { Color { r: 20, g: 20, b: 20 } }            // black
    else if k == 1 { Color { r: 50, g: 40, b: 140 } }      // blue
    else if k == 2 { Color { r: 130, g: 50, b: 110 } }     // purple
    else if k == 3 { Color { r: 30, g: 120, b: 50 } }      // green
    else if k == 4 { Color { r: 850, g: 170, b: 50 } }     // orange
    else if k == 5 { Color { r: 850, g: 300, b: 40 } }     // yellow
    else if k == 6 { Color { r: 730, g: 70, b: 30 } }      // red
    else if k == 7 { Color { r: 220, g: 40, b: 30 } }      // maroon
    else if k == 8 { Color { r: 850, g: 300, b: 40 } }     // yellow (stripe)
    else if k == 9 { Color { r: 50, g: 40, b: 140 } }      // blue (stripe)
    else if k == 10 { Color { r: 730, g: 70, b: 30 } }     // red (stripe)
    else if k == 11 { Color { r: 130, g: 50, b: 110 } }    // purple (stripe)
    else if k == 12 { Color { r: 850, g: 170, b: 50 } }    // orange (stripe)
    else if k == 13 { Color { r: 30, g: 120, b: 50 } }     // green (stripe)
    else if k == 14 { Color { r: 220, g: 40, b: 30 } }     // maroon (stripe)
    else if k == 15 { Color { r: 20, g: 20, b: 20 } }      // black (stripe)
    else { Color { r: 720, g: 500, b: 350 } }              // white (cue ball)
}

/// The palette entry that a ball number selects: numbers above 16 wrap
/// around modulo 16.
pub open spec fn billiard_slot(count: nat) -> nat {
    if count <= 16 { count } else { count % 16 }
}

/// The albedo that `random_billiard_color` gives for a ball number.
pub open spec fn billiard_albedo(count: nat) -> Albedo {
    Albedo {
        color: billiard_palette(billiard_slot(count)),
        is_spots: 8 <= count && count <= 15,
    }
}

fn palette_entry(k: usize) -> (c: Color)
    requires
        k <= 16,
    ensures
        c == billiard_palette(k as nat),
{
    if k == 0 { Color::new(20, 20, 20) }
    else if k == 1 { Color::new(50, 40, 140) }
    else if k == 2 { Color::new(130, 50, 110) }
    else if k == 3 { Color::new(30, 120, 50) }
    else if k == 4 { Color::new(850, 170, 50) }
    else if k == 5 { Color::new(850, 300, 40) }
    else if k == 6 { Color::new(730, 70, 30) }
    else if k == 7 { Color::new(220, 40, 30) }
    else if k == 8 { Color::new(850, 300, 40) }
    else if k == 9 { Color::new(50, 40, 140) }
    else if k == 10 { Color::new(730, 70, 30) }
    else if k == 11 { Color::new(130, 50, 110) }
    else if k == 12 { Color::new(850, 170, 50) }
    else if k == 13 { Color::new(30, 120, 50) }
    else if k == 14 { Color::new(220, 40, 30) }
    else if k == 15 { Color::new(20, 20, 20) }
    else { Color::new(720, 500, 350) }
}

/// The colour of billiard ball number `count`: 0-7 are solid balls, 8-15
/// striped balls, 16 the cue ball; larger numbers wrap around modulo 16 and
/// always give a solid ball.
pub fn random_billiard_color(count: usize) -> (a: Albedo)
    ensures
        a == billiard_albedo(count as nat),
{
    if count <= 7 || count == 16 {
        Albedo { color: palette_entry(count), is_spots: false }
    } else if count < 16 {
        Albedo { color: palette_entry(count), is_spots: true }
    } else {
        let new_count = count % 16;
        Albedo { color: palette_entry(new_count), is_spots: false }
    }
}

/// The ball index that a lower-case colour name selects: the solid colours
/// 0-7, their striped variants 8-15 (written `yellow2` or `yellow-stripe`,
/// and so on), and the cue ball 16 (`white`, `cue`, `cue-ball`, `cue_ball`).
pub open spec fn color_index_of_name(n: Seq<char>) -> Option<usize> {
    if n == "black"@ { Some(0) }
    else if n == "blue"@ { Some(1) }
    else if n == "purple"@ { Some(2) }
    else if n == "green"@ { Some(3) }
    else if n == "orange"@ { Some(4) }
    else if n == "yellow"@ { Some(5) }
    else if n == "red"@ { Some(6) }
    else if n == "maroon"@ { Some(7) }
    else if n == "yellow2"@ || n == "yellow-stripe"@ { Some(8) }
    else if n == "blue2"@ || n == "blue-stripe"@ { Some(9) }
    else if n == "red2"@ || n == "red-stripe"@ { Some(10) }
    else if n == "purple2"@ || n == "purple-stripe"@ { Some(11) }
    else if n == "orange2"@ || n == "orange-stripe"@ { Some(12) }
    else if n == "green2"@ || n == "green-stripe"@ { Some(13) }
    else if n == "maroon2"@ || n == "maroon-stripe"@ { Some(14) }
    else if n == "black2"@ || n == "black-stripe"@ { Some(15) }
    else if n == "white"@ || n == "cue"@ || n == "cue-ball"@ || n == "cue_ball"@ { Some(16) }
    else { None }
}

/// Looks a colour name up once it has been lowered: the index 0-16 of the
/// ball it names, or `None` for any other text.
pub fn color_index_for_lowercase_name(name_lower: &str) -> (r: Option<usize>)
    ensures
        r == color_index_of_name(name_lower@),
{
    let n = name_lower;
    if str_eq(n, "black") { Some(0) }
    else if str_eq(n, "blue") { Some(1) }
    else if str_eq(n, "purple") { Some(2) }
    else if str_eq(n, "green") { Some(3) }
    else if str_eq(n, "orange") { Some(4) }
    else if str_eq(n, "yellow") { Some(5) }
    else if str_eq(n, "red") { Some(6) }
    else if str_eq(n, "maroon") { Some(7) }
    else if str_eq(n, "yellow2") || str_eq(n, "yellow-stripe") { Some(8) }
    else if str_eq(n, "blue2") || str_eq(n, "blue-stripe") { Some(9) }
    else if str_eq(n, "red2") || str_eq(n, "red-stripe") { Some(10) }
    else if str_eq(n, "purple2") || str_eq(n, "purple-stripe") { Some(11) }
    else if str_eq(n, "orange2") || str_eq(n, "orange-stripe") { Some(12) }
    else if str_eq(n, "green2") || str_eq(n, "green-stripe") { Some(13) }
    else if str_eq(n, "maroon2") || str_eq(n, "maroon-stripe") { Some(14) }
    else if str_eq(n, "black2") || str_eq(n, "black-stripe") { Some(15) }
    else if str_eq(n, "white") || str_eq(n, "cue") || str_eq(n, "cue-ball") || str_eq(n, "cue_ball") { Some(16) }
    else { None }
}

/// Parses a ball colour name, ignoring case, to its index 0-16; `None` for
/// a name that is not one of the palette's.
pub fn ball_color_name_to_index(name: &str) -> (r: Option<usize>)
    ensures
        r == color_index_of_name(crate::text::lowercase(name@)),
        r matches Some(i) ==> i <= 16,
{
    let name_lower = to_lowercase(name);
    color_index_for_lowercase_name(name_lower.as_str())
}

/// The felt palette of the table: 0 Tournament Green, 1 Electric Blue,
/// 2 Burgundy, 3 PAF green, 4 PAF dark, 5 PAF dark smooth.
pub open spec fn felt_palette(k: nat) -> Color {
    if k == 0 { Color { r: 99, g: 172, b: 95 } }
    else if k == 1 { Color { r: 99, g: 172, b: 195 } }
    else if k == 2 { Color { r: 360, g: 60, b: 70 } }
    else if k == 3 { Color { r: 90, g: 300, b: 110 } }
    else if k == 4 { Color { r: 38, g: 88, b: 68 } }
    else { Color { r: 12, g: 43, b: 32 } }
}

/// The number of felt colours.
pub const FELT_COUNT: usize = 6;

/// The felt colour that `ground_color` gives: an index past the palette
/// falls back to Tournament Green.
pub open spec fn ground_color_of(index: nat) -> Color {
    if index < FELT_COUNT { felt_palette(index) } else { felt_palette(0) }
}

/// The table felt colour with the given index; indices past the palette
/// give the default Tournament Green.
pub fn ground_color(index: usize) -> (c: Color)
    ensures
        c == ground_color_of(index as nat),
{
    if index == 1 { Color::new(99, 172, 195) }
    else if index == 2 { Color::new(360, 60, 70) }
    else if index == 3 { Color::new(90, 300, 110) }
    else if index == 4 { Color::new(38, 88, 68) }
    else if index == 5 { Color::new(12, 43, 32) }
    else { Color::new(99, 172, 95) }
}

/// The name `name` selects a solid ball, and `name` followed by `2`, or by
/// `-stripe`, selects a striped ball of the same colour.
pub open spec fn is_striped_twin(name: Seq<char>) -> bool {
    let solid = color_index_of_name(name);
    let striped = color_index_of_name(name + "2"@);
    &&& solid is Some && striped is Some
    &&& color_index_of_name(name + "-stripe"@) == striped
    &&& billiard_albedo(solid->0 as nat).color == billiard_albedo(striped->0 as nat).color
    &&& !billiard_albedo(solid->0 as nat).is_spots
    &&& billiard_albedo(striped->0 as nat).is_spots
}

/// Each of the eight solid colour names has a striped variant, the name
/// followed by `2` or by `-stripe`, that gives a striped ball of the same
/// colour.
pub proof fn lemma_striped_names_share_solid_colors()
    ensures
        is_striped_twin("black"@),
        is_striped_twin("blue"@),
        is_striped_twin("purple"@),
        is_striped_twin("green"@),
        is_striped_twin("orange"@),
        is_striped_twin("yellow"@),
        is_striped_twin("red"@),
        is_striped_twin("maroon"@),
{
    reveal_strlit("black");
    reveal_strlit("blue");
    reveal_strlit("purple");
    reveal_strlit("green");
    reveal_strlit("orange");
    reveal_strlit("yellow");
    reveal_strlit("red");
    reveal_strlit("maroon");
    reveal_strlit("yellow2");
    reveal_strlit("yellow-stripe");
    reveal_strlit("blue2");
    reveal_strlit("blue-stripe");
    reveal_strlit("red2");
    reveal_strlit("red-stripe");
    reveal_strlit("purple2");
    reveal_strlit("purple-stripe");
    reveal_strlit("orange2");
    reveal_strlit("orange-stripe");
    reveal_strlit("green2");
    reveal_strlit("green-stripe");
    reveal_strlit("maroon2");
    reveal_strlit("maroon-stripe");
    reveal_strlit("black2");
    reveal_strlit("black-stripe");
    reveal_strlit("white");
    reveal_strlit("cue");
    reveal_strlit("cue-ball");
    reveal_strlit("cue_ball");
    reveal_strlit("2");
    reveal_strlit("-stripe");
    assert("black"@ + "2"@ =~= "black2"@);
    assert("black"@ + "-stripe"@ =~= "black-stripe"@);
    assert("blue"@ + "2"@ =~= "blue2"@);
    assert("blue"@ + "-stripe"@ =~= "blue-stripe"@);
    assert("purple"@ + "2"@ =~= "purple2"@);
    assert("purple"@ + "-stripe"@ =~= "purple-stripe"@);
    assert("green"@ + "2"@ =~= "green2"@);
    assert("green"@ + "-stripe"@ =~= "green-stripe"@);
    assert("orange"@ + "2"@ =~= "orange2"@);
    assert("orange"@ + "-stripe"@ =~= "orange-stripe"@);
    assert("yellow"@ + "2"@ =~= "yellow2"@);
    assert("yellow"@ + "-stripe"@ =~= "yellow-stripe"@);
    assert("red"@ + "2"@ =~= "red2"@);
    assert("red"@ + "-stripe"@ =~= "red-stripe"@);
    assert("maroon"@ + "2"@ =~= "maroon2"@);
    assert("maroon"@ + "-stripe"@ =~= "maroon-stripe"@);
    assert(color_index_of_name("black"@) == Some(0usize));
    assert(color_index_of_name("black2"@) == Some(15usize)) by {
        assert("black2"@[0] != "purple"@[0]);
        assert("black2"@[0] != "orange"@[0]);
        assert("black2"@[0] != "yellow"@[0]);
        assert("black2"@[0] != "maroon"@[0]);
        assert("black2"@[0] != "green2"@[0]);
    }
    assert(color_index_of_name("black-stripe"@) == Some(15usize)) by {
        assert("black-stripe"@[0] != "green-stripe"@[0]);
    }
    assert(color_index_of_name("blue"@) == Some(1usize));
    assert(color_index_of_name("blue2"@) == Some(9usize)) by {
        assert("blue2"@[2] != "black"@[2]);
        assert("blue2"@[0] != "green"@[0]);
    }
    assert(color_index_of_name("blue-stripe"@) == Some(9usize));
    assert(color_index_of_name("purple"@) == Some(2usize));
    assert(color_index_of_name("purple2"@) == Some(11usize)) by {
        assert("purple2"@[0] != "yellow2"@[0]);
    }
    assert(color_index_of_name("purple-stripe"@) == Some(11usize)) by {
        assert("purple-stripe"@[0] != "yellow-stripe"@[0]);
    }
    assert(color_index_of_name("green"@) == Some(3usize)) by {
        assert("green"@[0] != "black"@[0]);
    }
    assert(color_index_of_name("green2"@) == Some(13usize)) by {
        assert("green2"@[0] != "purple"@[0]);
        assert("green2"@[0] != "orange"@[0]);
        assert("green2"@[0] != "yellow"@[0]);
        assert("green2"@[0] != "maroon"@[0]);
    }
    assert(color_index_of_name("green-stripe"@) == Some(13usize));
    assert(color_index_of_name("orange"@) == Some(4usize)) by {
        assert("orange"@[0] != "purple"@[0]);
    }
    assert(color_index_of_name("orange2"@) == Some(12usize)) by {
        assert("orange2"@[0] != "yellow2"@[0]);
        assert("orange2"@[0] != "purple2"@[0]);
    }
    assert(color_index_of_name("orange-stripe"@) == Some(12usize)) by {
        assert("orange-stripe"@[0] != "yellow-stripe"@[0]);
        assert("orange-stripe"@[0] != "purple-stripe"@[0]);
    }
    assert(color_index_of_name("yellow"@) == Some(5usize)) by {
        assert("yellow"@[0] != "purple"@[0]);
        assert("yellow"@[0] != "orange"@[0]);
    }
    assert(color_index_of_name("yellow2"@) == Some(8usize));
    assert(color_index_of_name("yellow-stripe"@) == Some(8usize));
    assert(color_index_of_name("red"@) == Some(6usize));
    assert(color_index_of_name("red2"@) == Some(10usize)) by {
        assert("red2"@[0] != "blue"@[0]);
    }
    assert(color_index_of_name("red-stripe"@) == Some(10usize));
    assert(color_index_of_name("maroon"@) == Some(7usize)) by {
        assert("maroon"@[0] != "purple"@[0]);
        assert("maroon"@[0] != "orange"@[0]);
        assert("maroon"@[0] != "yellow"@[0]);
    }
    assert(color_index_of_name("maroon2"@) == Some(14usize)) by {
        assert("maroon2"@[0] != "yellow2"@[0]);
        assert("maroon2"@[0] != "purple2"@[0]);
        assert("maroon2"@[0] != "orange2"@[0]);
    }
    assert(color_index_of_name("maroon-stripe"@) == Some(14usize)) by {
        assert("maroon-stripe"@[0] != "yellow-stripe"@[0]);
        assert("maroon-stripe"@[0] != "purple-stripe"@[0]);
        assert("maroon-stripe"@[0] != "orange-stripe"@[0]);
    }
}

/// The striped balls 8-15 use exactly the colours of the solid balls 0-7:
/// each striped colour is a solid colour and each solid colour is a striped
/// one.
pub proof fn lemma_stripes_repeat_solid_colors()
    ensures
        forall|k: nat| #![trigger billiard_palette(k)] 8 <= k <= 15 ==> exists|j: nat| #![trigger billiard_palette(j)] j <= 7 && billiard_palette(j) == billiard_palette(k),
        forall|j: nat| #![trigger billiard_palette(j)] j <= 7 ==> exists|k: nat| #![trigger billiard_palette(k)] 8 <= k <= 15 && billiard_palette(k) == billiard_palette(j),
{
    assert(billiard_palette(8) == billiard_palette(5));
    assert(billiard_palette(9) == billiard_palette(1));
    assert(billiard_palette(10) == billiard_palette(6));
    assert(billiard_palette(11) == billiard_palette(2));
    assert(billiard_palette(12) == billiard_palette(4));
    assert(billiard_palette(13) == billiard_palette(3));
    assert(billiard_palette(14) == billiard_palette(7));
    assert(billiard_palette(15) == billiard_palette(0));
}

} // verus!
