//! Human-readable byte sizes: binary, base-1024 units B/KB/MB/GB/TB with one
//! decimal place, rounded to the nearest tenth, and `0` printed as `"0B"`.

use vstd::prelude::*;
use vstd::string::StringExecFns;

verus! {

/// The decimal digit character for `d` (defined for `d < 10`).
pub open spec fn digit_char(d: nat) -> char {
    if d == 0 {
        '0'
    } else if d == 1 {
        '1'
    } else if d == 2 {
        '2'
    } else if d == 3 {
        '3'
    } else if d == 4 {
        '4'
    } else if d == 5 {
        '5'
    } else if d == 6 {
        '6'
    } else if d == 7 {
        '7'
    } else if d == 8 {
        '8'
    } else {
        '9'
    }
}

/// The usual decimal rendering of `n`, most significant digit first,
/// without leading zeros (`0` itself is rendered as `"0"`).
pub open spec fn spec_decimal(n: nat) -> Seq<char>
    decreases n,
{
    if n < 10 {
        seq![digit_char(n)]
    } else {
        spec_decimal(n / 10) + seq![digit_char(n % 10)]
    }
}

fn digit_str(d: u64) -> (r: &'static str)
    requires
        d < 10,
    ensures
        r@ == seq![digit_char(d as nat)],
{
    proof {
        reveal_strlit("0");
        reveal_strlit("1");
        reveal_strlit("2");
        reveal_strlit("3");
        reveal_strlit("4");
        reveal_strlit("5");
        reveal_strlit("6");
        reveal_strlit("7");
        reveal_strlit("8");
        reveal_strlit("9");
    }
    let r: &'static str = if d == 0 {
        "0"
    } else if d == 1 {
        "1"
    } else if d == 2 {
        "2"
    } else if d == 3 {
        "3"
    } else if d == 4 {
        "4"
    } else if d == 5 {
        "5"
    } else if d == 6 {
        "6"
    } else if d == 7 {
        "7"
    } else if d == 8 {
        "8"
    } else {
        "9"
    };
    proof {
        assert(r@ =~= seq![digit_char(d as nat)]);
    }
    r
}

/// Renders `n` in decimal, exactly as `spec_decimal` describes.
pub fn u64_to_decimal(n: u64) -> (r: String)
    ensures
        r@ == spec_decimal(n as nat),
    decreases n,
{
    if n < 10 {
        String::from_str(digit_str(n))
    } else {
        let mut s = u64_to_decimal(n / 10);
        s.append(digit_str(n % 10));
        s
    }
}

/// Index of the unit `bytes` is displayed in: 0 for B up to 4 for TB;
/// the largest unit whose threshold `bytes` reaches.
pub open spec fn spec_unit_index(bytes: nat) -> nat {
    if bytes >= 1099511627776 {
        4
    } else if bytes >= 1073741824 {
        3
    } else if bytes >= 1048576 {
        2
    } else if bytes >= 1024 {
        1
    } else {
        0
    }
}

/// `1024^k` for the five supported units.
pub open spec fn spec_unit_divisor(k: nat) -> nat {
    if k == 0 {
        1
    } else if k == 1 {
        1024
    } else if k == 2 {
        1048576
    } else if k == 3 {
        1073741824
    } else {
        1099511627776
    }
}

/// The unit suffix for unit index `k`.
pub open spec fn spec_unit_suffix(k: nat) -> Seq<char> {
    if k == 0 {
        seq!['B']
    } else if k == 1 {
        seq!['K', 'B']
    } else if k == 2 {
        seq!['M', 'B']
    } else if k == 3 {
        seq!['G', 'B']
    } else {
        seq!['T', 'B']
    }
}

/// `bytes` scaled to its display unit, in tenths, rounded to the nearest
/// tenth with halves rounded up.
pub open spec fn spec_size_tenths(bytes: nat) -> nat {
    (bytes * 20 / spec_unit_divisor(spec_unit_index(bytes)) + 1) / 2
}

/// The full human-readable rendering of a byte count: the scaled value with
/// one decimal place followed by its unit suffix, with `0` special-cased.
pub open spec fn spec_human_readable(bytes: nat) -> Seq<char> {
    if bytes == 0 {
        seq!['0', 'B']
    } else {
        spec_decimal(spec_size_tenths(bytes) / 10) + seq!['.'] + seq![
            digit_char(spec_size_tenths(bytes) % 10),
        ] + spec_unit_suffix(spec_unit_index(bytes))
    }
}

fn unit_suffix_str(k: usize) -> (r: &'static str)
    requires
        k <= 4,
    ensures
        r@ == spec_unit_suffix(k as nat),
{
    proof {
        reveal_strlit("B");
        reveal_strlit("KB");
        reveal_strlit("MB");
        reveal_strlit("GB");
        reveal_strlit("TB");
    }
    let r: &'static str = if k == 0 {
        "B"
    } else if k == 1 {
        "KB"
    } else if k == 2 {
        "MB"
    } else if k == 3 {
        "GB"
    } else {
        "TB"
    };
    proof {
        assert(r@ =~= spec_unit_suffix(k as nat));
    }
    r
}

/// Formats a byte count for people: base-1024 units with one decimal place,
/// `"0B"` for zero, e.g. `1023` is `"1023.0B"` and `1024` is `"1.0KB"`.
pub fn human_readable_size(bytes: u64) -> (r: String)
    ensures
        r@ == spec_human_readable(bytes as nat),
{
    if bytes == 0 {
        proof {
            reveal_strlit("0B");
        }
        let z = String::from_str("0B");
        proof {
            assert(z@ =~= spec_human_readable(0));
        }
        return z;
    }
    let (k, p): (usize, u64) = if bytes >= 1099511627776 {
        (4, 1099511627776)
    } else if bytes >= 1073741824 {
        (3, 1073741824)
    } else if bytes >= 1048576 {
        (2, 1048576)
    } else if bytes >= 1024 {
        (1, 1024)
    } else {
        (0, 1)
    };
    proof {
        assert(k as nat == spec_unit_index(bytes as nat));
        assert(p as nat == spec_unit_divisor(k as nat));
    }
    let scaled: u128 = (bytes as u128) * 20 / (p as u128);
    let tenths128: u128 = (scaled + 1) / 2;
    proof {
        assert(tenths128 as nat == spec_size_tenths(bytes as nat));
    }
    let tenths: u64 = tenths128 as u64;
    let mut s = u64_to_decimal(tenths / 10);
    proof {
        reveal_strlit(".");
    }
    s.append(".");
    s.append(digit_str(tenths % 10));
    s.append(unit_suffix_str(k));
    proof {
        assert(s@ =~= spec_human_readable(bytes as nat));
    }
    s
}

} // verus!
