//! Output file naming for the per-page image export.
//!
//! In image-export mode every thresholded page becomes an independent raster
//! file named `{base}-page-{index}.jpg`, where `index` is the zero-based
//! position of the page within its source document, written in decimal.

use vstd::prelude::*;
use vstd::arithmetic::div_mod::lemma_div_is_strictly_smaller;

verus! {

/// The decimal digit character for a value below ten.
pub open spec fn digit_char(d: int) -> char {
    if d == 0 {
        '0'
    } else if d == 1 {
        '1'
    } else if d == 2 {
        '2'
    } else if d == 3 {
        '3'
    } else if d == 4 {
        '4'
    } else if d == 5 {
        '5'
    } else if d == 6 {
        '6'
    } else if d == 7 {
        '7'
    } else if d == 8 {
        '8'
    } else {
        '9'
    }
}

/// The decimal notation of a number, most significant digit first, with no
/// leading zero except for the number zero itself.
pub open spec fn spec_decimal(n: nat) -> Seq<char>
    decreases n,
    via spec_decimal_decreases
{
    if n < 10 {
        seq![digit_char(n as int)]
    } else {
        spec_decimal(n / 10).push(digit_char((n % 10) as int))
    }
}

#[via_fn]
proof fn spec_decimal_decreases(n: nat) {
    if n >= 10 {
        lemma_div_is_strictly_smaller(n as int, 10);
    }
}

/// The name of the exported raster file for one page:
/// `{base}-page-{index}.jpg`.
pub open spec fn spec_export_name(base: Seq<char>, index: nat) -> Seq<char> {
    base + seq!['-', 'p', 'a', 'g', 'e', '-'] + spec_decimal(index) + seq!['.', 'j', 'p', 'g']
}

/// The character for one decimal digit.
fn digit_str(d: usize) -> (r: &'static str)
    requires
        d < 10,
    ensures
        r@ == seq![digit_char(d as int)],
{
    if d == 0 {
        proof {
            reveal_strlit("0");
            assert("0"@ =~= seq!['0']);
        }
        "0"
    } else if d == 1 {
        proof {
            reveal_strlit("1");
            assert("1"@ =~= seq!['1']);
        }
        "1"
    } else if d == 2 {
        proof {
            reveal_strlit("2");
            assert("2"@ =~= seq!['2']);
        }
        "2"
    } else if d == 3 {
        proof {
            reveal_strlit("3");
            assert("3"@ =~= seq!['3']);
        }
        "3"
    } else if d == 4 {
        proof {
            reveal_strlit("4");
            assert("4"@ =~= seq!['4']);
        }
        "4"
    } else if d == 5 {
        proof {
            reveal_strlit("5");
            assert("5"@ =~= seq!['5']);
        }
        "5"
    } else if d == 6 {
        proof {
            reveal_strlit("6");
            assert("6"@ =~= seq!['6']);
        }
        "6"
    } else if d == 7 {
        proof {
            reveal_strlit("7");
            assert("7"@ =~= seq!['7']);
        }
        "7"
    } else if d == 8 {
        proof {
            reveal_strlit("8");
            assert("8"@ =~= seq!['8']);
        }
        "8"
    } else {
        proof {
            reveal_strlit("9");
            assert("9"@ =~= seq!['9']);
        }
        "9"
    }
}

/// Writes a number in decimal notation.
pub fn format_decimal(n: usize) -> (r: String)
    ensures
        r@ == spec_decimal(n as nat),
    decreases n,
{
    if n < 10 {
        digit_str(n).to_owned()
    } else {
        proof {
            lemma_div_is_strictly_smaller(n as int, 10);
        }
        let high = format_decimal(n / 10);
        let r = high.concat(digit_str(n % 10));
        proof {
            assert(r@ =~= spec_decimal(n as nat));
        }
        r
    }
}

/// The exported raster file name for one page of a source document:
/// `{base}-page-{index}.jpg`.
pub fn export_page_file_name(base: &String, page_index: usize) -> (r: String)
    ensures
        r@ == spec_export_name(base@, page_index as nat),
{
    proof {
        reveal_strlit("-page-");
        reveal_strlit(".jpg");
        assert("-page-"@ =~= seq!['-', 'p', 'a', 'g', 'e', '-']);
        assert(".jpg"@ =~= seq!['.', 'j', 'p', 'g']);
    }
    let num = format_decimal(page_index);
    let r = base.as_str().to_owned().concat("-page-").concat(num.as_str()).concat(".jpg");
    proof {
        assert(r@ =~= spec_export_name(base@, page_index as nat));
    }
    r
}

} // verus!
