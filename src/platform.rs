use vstd::prelude::*;
use crate::chassis::{asic_marker, contains, contains_text};

verus! {

/// What `str::to_lowercase` returns for a string.
pub uninterp spec fn lowercase_of(s: Seq<char>) -> Seq<char>;

/// Relies on `str::to_lowercase`: the result depends on the characters alone.
#[verifier::external_body]
fn lowercase(s: &str) -> (r: String)
    ensures
        r@ == lowercase_of(s@),
{
    s.to_lowercase()
}

pub open spec fn mellanox_word() -> Seq<char> {
    seq!['m', 'e', 'l', 'l', 'a', 'n', 'o', 'x']
}

pub open spec fn nvidia_word() -> Seq<char> {
    seq!['n', 'v', 'i', 'd', 'i', 'a']
}

/// The platform is this vendor's when the (lowercased) board vendor names it,
/// or the (lowercased) system vendor names it or its parent company, or a
/// hardware-monitoring directory is the switch ASIC's.
pub open spec fn vendor_platform(
    board_lower: Option<Seq<char>>,
    sys_lower: Option<Seq<char>>,
    hwmon_names: Seq<Seq<char>>,
) -> bool {
    ||| (board_lower is Some && contains_text(board_lower->0, mellanox_word()))
    ||| (sys_lower is Some && (contains_text(sys_lower->0, mellanox_word()) || contains_text(
        sys_lower->0,
        nvidia_word(),
    )))
    ||| exists|i: int| 0 <= i < hwmon_names.len() && contains_text(#[trigger] hwmon_names[i], asic_marker())
}

pub open spec fn opt_chars(s: Option<&str>) -> Option<Seq<char>> {
    match s {
        Some(t) => Some(t@),
        None => None,
    }
}

pub open spec fn opt_lower(s: Option<&str>) -> Option<Seq<char>> {
    match s {
        Some(t) => Some(lowercase_of(t@)),
        None => None,
    }
}

/// Decides from vendor strings that are already lowercased (`None`:
/// unreadable) and the declared names of the hardware-monitoring directories.
pub fn is_vendor_platform(board_lower: Option<&str>, sys_lower: Option<&str>, hwmon_names: &Vec<String>) -> (r: bool)
    ensures
        r == vendor_platform(
            opt_chars(board_lower),
            opt_chars(sys_lower),
            hwmon_names@.map_values(|s: String| s@),
        ),
{
    proof {
        reveal_strlit("mellanox");
        reveal_strlit("nvidia");
        reveal_strlit("mlxsw");
        assert("mellanox"@ =~= mellanox_word());
        assert("nvidia"@ =~= nvidia_word());
        assert("mlxsw"@ =~= asic_marker());
    }
    if let Some(b) = board_lower {
        if contains(b, "mellanox") {
            return true;
        }
    }
    if let Some(s) = sys_lower {
        if contains(s, "mellanox") || contains(s, "nvidia") {
            return true;
        }
    }
    let ghost names = hwmon_names@.map_values(|s: String| s@);
    let marker = "mlxsw";
    let n = hwmon_names.len();
    let mut i: usize = 0;
    while i < n
        invariant
            i <= n,
            n == hwmon_names@.len(),
            names == hwmon_names@.map_values(|s: String| s@),
            marker@ == asic_marker(),
            forall|j: int| 0 <= j < i ==> !contains_text(#[trigger] names[j], asic_marker()),
        decreases n - i,
    {
        assert(names[i as int] == hwmon_names@[i as int]@);
        if contains(hwmon_names[i].as_str(), marker) {
            assert(contains_text(names[i as int], asic_marker()));
            return true;
        }
        i = i + 1;
    }
    false
}

/// Whether this is the vendor's platform, from the raw board and system
/// vendor strings (`None`: unreadable) and the hardware-monitoring names.
pub fn detect_platform(board_vendor: Option<&str>, sys_vendor: Option<&str>, hwmon_names: &Vec<String>) -> (r: bool)
    ensures
        r == vendor_platform(
            opt_lower(board_vendor),
            opt_lower(sys_vendor),
            hwmon_names@.map_values(|s: String| s@),
        ),
{
    let board = match board_vendor {
        Some(b) => Some(lowercase(b)),
        None => None,
    };
    let sys = match sys_vendor {
        Some(s) => Some(lowercase(s)),
        None => None,
    };
    let board_ref: Option<&str> = match &board {
        Some(b) => Some(b.as_str()),
        None => None,
    };
    let sys_ref: Option<&str> = match &sys {
        Some(s) => Some(s.as_str()),
        None => None,
    };
    is_vendor_platform(board_ref, sys_ref, hwmon_names)
}

} // verus!
