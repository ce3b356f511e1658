use vstd::prelude::*;

verus! {

/// The instrument exposes 21 keys, arranged as three rows of seven:
/// a low, a mid and a high octave row.
pub const KEY_COUNT: usize = 21;

/// The name of each of the 21 keys, by index: indices 0..7 are the low
/// octave row, 7..14 the mid row, 14..21 the high row.
pub open spec fn key_name_spec(i: int) -> Seq<char> {
    if i == 0 {
        "z"@
    } else if i == 1 {
        "x"@
    } else if i == 2 {
        "c"@
    } else if i == 3 {
        "v"@
    } else if i == 4 {
        "b"@
    } else if i == 5 {
        "n"@
    } else if i == 6 {
        "m"@
    } else if i == 7 {
        "a"@
    } else if i == 8 {
        "s"@
    } else if i == 9 {
        "d"@
    } else if i == 10 {
        "f"@
    } else if i == 11 {
        "g"@
    } else if i == 12 {
        "h"@
    } else if i == 13 {
        "j"@
    } else if i == 14 {
        "q"@
    } else if i == 15 {
        "w"@
    } else if i == 16 {
        "e"@
    } else if i == 17 {
        "r"@
    } else if i == 18 {
        "t"@
    } else if i == 19 {
        "y"@
    } else {
        "u"@
    }
}

/// Key index to key name, the executable side of `key_name_spec`.
pub fn key_name(i: usize) -> (r: &'static str)
    requires
        i < KEY_COUNT,
    ensures
        r@ == key_name_spec(i as int),
{
    match i {
        0 => "z",
        1 => "x",
        2 => "c",
        3 => "v",
        4 => "b",
        5 => "n",
        6 => "m",
        7 => "a",
        8 => "s",
        9 => "d",
        10 => "f",
        11 => "g",
        12 => "h",
        13 => "j",
        14 => "q",
        15 => "w",
        16 => "e",
        17 => "r",
        18 => "t",
        19 => "y",
        _ => "u",
    }
}

} // verus!
