//! The slot mapper: selects 16 colors from fixed positions in the sorted
//! working set, grades them with the caller-supplied brightness and
//! saturation, and overwrites two slots with a grayscale-derived value.

use vstd::prelude::*;
use vstd::pervasive::VecAdditionalExecFns;

use crate::builder::MIN_WORKING_SET;
use crate::color::{adjust_color_spec, adjust_rgb_wide, to_gray, to_gray_spec};
use crate::PaletteError;

verus! {

/// The palette always holds exactly 16 colors.
pub const PALETTE_SIZE: usize = 16;

/// The grading every mapped slot gets, relative to the caller-supplied
/// values: brightness reduced by 5, saturation increased by 80.
pub const GRADE_BRIGHTNESS: i16 = -5;

pub const GRADE_SATURATION: i16 = 80;

/// The distinct grading of the grayscale override taken from sorted index
/// 20: +45 brightness, +65 saturation, then gray with +25.
pub const FOREGROUND_BRIGHTNESS: i16 = 45;

pub const FOREGROUND_SATURATION: i16 = 65;

pub const FOREGROUND_GRAY_ADD: u8 = 25;

/// The fixed index sequence the 16 slots are drawn from, out of the sorted
/// working set: the low half mirrors onto the high half, echoing the
/// normal/bright ANSI color split.
pub open spec fn slot_indices() -> Seq<int> {
    seq![0, 13, 15, 16, 17, 21, 20, 19, 9, 13, 15, 16, 17, 21, 20, 19]
}

fn slot_index(i: usize) -> (r: usize)
    requires
        i < PALETTE_SIZE,
    ensures
        r as int == slot_indices()[i as int],
        r < MIN_WORKING_SET,
{
    match i {
        0 => 0,
        1 => 13,
        2 => 15,
        3 => 16,
        4 => 17,
        5 => 21,
        6 => 20,
        7 => 19,
        8 => 9,
        9 => 13,
        10 => 15,
        11 => 16,
        12 => 17,
        13 => 21,
        14 => 20,
        _ => 19,
    }
}

/// A mapped slot: the selected color graded with the caller-supplied values,
/// offset by the fixed grading constants.
pub open spec fn graded(c: (u8, u8, u8), br: int, sat: int) -> (u8, u8, u8) {
    adjust_color_spec(c, br + GRADE_BRIGHTNESS, sat + GRADE_SATURATION)
}

/// The grayscale override: the color at sorted index 20, graded with the
/// fixed foreground constants and converted to an achromatic triple.
pub open spec fn foreground_gray(c: (u8, u8, u8)) -> (u8, u8, u8) {
    let g = adjust_color_spec(c, FOREGROUND_BRIGHTNESS as int, FOREGROUND_SATURATION as int);
    to_gray_spec(g.0, g.1, g.2, FOREGROUND_GRAY_ADD)
}

/// The final palette: the 16 graded slot colors, with slots 7 and 15
/// overwritten by the identical grayscale value derived from sorted index
/// 20.
pub open spec fn palette_spec(s: Seq<(u8, u8, u8)>, br: int, sat: int) -> Seq<(u8, u8, u8)>
    recommends
        s.len() >= MIN_WORKING_SET,
{
    let base = Seq::new(16, |i: int| graded(s[slot_indices()[i]], br, sat));
    base.update(7, foreground_gray(s[20])).update(15, foreground_gray(s[20]))
}

/// Slots 7 and 15 of any mapped palette are bitwise identical and
/// achromatic: they carry the grayscale-derived default-foreground value.
pub proof fn lemma_foreground_slots_gray(s: Seq<(u8, u8, u8)>, br: int, sat: int)
    ensures
        palette_spec(s, br, sat).len() == 16,
        palette_spec(s, br, sat)[7] == palette_spec(s, br, sat)[15],
        palette_spec(s, br, sat)[7].0 == palette_spec(s, br, sat)[7].1,
        palette_spec(s, br, sat)[7].1 == palette_spec(s, br, sat)[7].2,
{
}

/// Maps the sorted working set onto the fixed 16-slot palette.
///
/// Fails with `InvariantViolation`, and with nothing else, exactly where the
/// working set is below its minimum size — never reached through the
/// pipeline, whose builder guarantees the minimum.
pub fn map_slots(colors: &Vec<(u8, u8, u8)>, brightness: i8, saturation: i8) -> (r: Result<
    Vec<(u8, u8, u8)>,
    PaletteError,
>)
    ensures
        r is Ok <==> colors@.len() >= MIN_WORKING_SET,
        r matches Ok(v) ==> v@ == palette_spec(colors@, brightness as int, saturation as int)
            && v@.len() == PALETTE_SIZE,
        r matches Err(e) ==> e == PaletteError::InvariantViolation,
{
    if colors.len() < MIN_WORKING_SET {
        return Err(PaletteError::InvariantViolation);
    }
    let mut done: Vec<(u8, u8, u8)> = Vec::new();
    let mut i: usize = 0;
    while i < PALETTE_SIZE
        invariant
            colors@.len() >= MIN_WORKING_SET,
            i <= PALETTE_SIZE,
            done@.len() == i,
            forall|j: int|
                0 <= j < i ==> done@[j] == graded(
                    colors@[slot_indices()[j]],
                    brightness as int,
                    saturation as int,
                ),
        decreases PALETTE_SIZE - i,
    {
        let idx = slot_index(i);
        let c = colors[idx];
        let g = adjust_rgb_wide(
            c.0,
            c.1,
            c.2,
            brightness as i16 + GRADE_BRIGHTNESS,
            saturation as i16 + GRADE_SATURATION,
        );
        done.push(g);
        i += 1;
    }
    let c20 = colors[20];
    let g = adjust_rgb_wide(c20.0, c20.1, c20.2, FOREGROUND_BRIGHTNESS, FOREGROUND_SATURATION);
    let fg = to_gray(g.0, g.1, g.2, FOREGROUND_GRAY_ADD);
    done.set(7, fg);
    done.set(15, fg);
    proof {
        assert(done@ =~= palette_spec(colors@, brightness as int, saturation as int));
    }
    Ok(done)
}

} // verus!
