use vstd::prelude::*;
use vstd::string::StringExecFns;
use vstd::string::StrSliceExecFns;

verus! {

/// Whether two strings hold the same characters.
pub fn str_eq(a: &str, b: &str) -> (r: bool)
    ensures
        r == (a@ == b@),
{
    let la = a.unicode_len();
    let lb = b.unicode_len();
    if la != lb {
        return false;
    }
    let mut i: usize = 0;
    while i < la
        invariant
            a@.len() == la,
            b@.len() == la,
            i <= la,
            forall|j: int| 0 <= j < i ==> a@[j] == b@[j],
        decreases la - i,
    {
        if a.get_char(i) != b.get_char(i) {
            return false;
        }
        i = i + 1;
    }
    proof {
        assert(a@ =~= b@);
    }
    true
}

pub open spec fn spec_digit_char(d: int) -> char {
    if d == 0 {
        '0'
    } else if d == 1 {
        '1'
    } else if d == 2 {
        '2'
    } else if d == 3 {
        '3'
    } else if d == 4 {
        '4'
    } else if d == 5 {
        '5'
    } else if d == 6 {
        '6'
    } else if d == 7 {
        '7'
    } else if d == 8 {
        '8'
    } else {
        '9'
    }
}

/// The decimal digits of `n`, most significant first.
pub open spec fn spec_decimal(n: nat) -> Seq<char>
    decreases n,
{
    if n < 10 {
        seq![spec_digit_char(n as int)]
    } else {
        spec_decimal(n / 10).push(spec_digit_char((n % 10) as int))
    }
}

fn digit_str(d: u32) -> (r: &'static str)
    requires
        d < 10,
    ensures
        r@ =~= seq![spec_digit_char(d as int)],
{
    proof {
        reveal_strlit("0");
        reveal_strlit("1");
        reveal_strlit("2");
        reveal_strlit("3");
        reveal_strlit("4");
        reveal_strlit("5");
        reveal_strlit("6");
        reveal_strlit("7");
        reveal_strlit("8");
        reveal_strlit("9");
    }
    match d {
        0 => "0",
        1 => "1",
        2 => "2",
        3 => "3",
        4 => "4",
        5 => "5",
        6 => "6",
        7 => "7",
        8 => "8",
        _ => "9",
    }
}

/// `n` rendered in decimal.
pub fn u32_to_string(n: u32) -> (r: String)
    ensures
        r@ == spec_decimal(n as nat),
    decreases n,
{
    if n < 10 {
        digit_str(n).to_owned()
    } else {
        let mut s = u32_to_string(n / 10);
        s.append(digit_str(n % 10));
        s
    }
}

/// The label synthesized when a display's human-readable name cannot be
/// resolved.
pub open spec fn spec_unknown_display_name(id: u32) -> Seq<char> {
    "Unknown Display "@ + spec_decimal(id as nat)
}

pub fn unknown_display_name(id: u32) -> (r: String)
    ensures
        r@ == spec_unknown_display_name(id),
{
    let mut s = "Unknown Display ".to_owned();
    let digits = u32_to_string(id);
    s.append(digits.as_str());
    s
}

/// The device name synthesized for backends that expose only a numeric
/// display identifier.
pub open spec fn spec_display_name(id: u32) -> Seq<char> {
    "Display "@ + spec_decimal(id as nat)
}

pub fn display_name(id: u32) -> (r: String)
    ensures
        r@ == spec_display_name(id),
{
    let mut s = "Display ".to_owned();
    let digits = u32_to_string(id);
    s.append(digits.as_str());
    s
}

/// The characters the 16-bit units decode to under UTF-16.
pub uninterp spec fn utf16_decoded(units: Seq<u16>) -> Seq<char>;

/// Whether the 16-bit units are valid UTF-16.
pub uninterp spec fn utf16_wellformed(units: Seq<u16>) -> bool;

/// Relies on widestring's `U16Str::to_string`: decodes the units as UTF-16
/// and returns `Ok` exactly when they contain no invalid data, so in
/// particular an empty slice decodes to the empty string
/// (`U16Str::from_slice` only reinterprets the slice).
#[verifier::external_body]
fn decode_utf16_units(units: &[u16]) -> (r: Option<String>)
    ensures
        r is Some <==> utf16_wellformed(units@),
        r is Some ==> r->0@ == utf16_decoded(units@),
        units@.len() == 0 ==> r is Some && r->0@.len() == 0,
{
    widestring::U16Str::from_slice(units).to_string().ok()
}

/// The index of the first nul unit, or the length when there is none.
pub open spec fn spec_nul_len(units: Seq<u16>) -> int
    decreases units.len(),
{
    if units.len() == 0 {
        0
    } else if units[0] == 0 {
        0
    } else {
        1 + spec_nul_len(units.skip(1))
    }
}

pub proof fn lemma_nul_len_bounds(units: Seq<u16>)
    ensures
        0 <= spec_nul_len(units) <= units.len(),
        forall|j: int| 0 <= j < spec_nul_len(units) ==> units[j] != 0,
    decreases units.len(),
{
    if units.len() > 0 && units[0] != 0 {
        lemma_nul_len_bounds(units.skip(1));
        assert forall|j: int| 0 <= j < spec_nul_len(units) implies units[j] != 0 by {
            if j > 0 {
                assert(units.skip(1)[j - 1] != 0);
            }
        }
    }
}

fn nul_len(units: &Vec<u16>) -> (r: usize)
    ensures
        r == spec_nul_len(units@),
{
    proof {
        lemma_nul_len_bounds(units@);
    }
    let n = units.len();
    let mut i: usize = 0;
    while i < n
        invariant
            n == units@.len(),
            i <= n,
            forall|j: int| 0 <= j < i ==> units@[j] != 0,
            spec_nul_len(units@) >= i,
        decreases n - i,
    {
        if units[i] == 0 {
            proof {
                lemma_nul_len_prefix(units@, i as int);
            }
            return i;
        }
        proof {
            lemma_nul_len_step(units@, i as int);
        }
        i = i + 1;
    }
    proof {
        lemma_nul_len_bounds(units@);
    }
    i
}

/// If everything before `i` is non-nul and `units[i]` is nul, the first nul
/// stands at `i`.
proof fn lemma_nul_len_prefix(units: Seq<u16>, i: int)
    requires
        0 <= i < units.len(),
        units[i] == 0,
        forall|j: int| 0 <= j < i ==> units[j] != 0,
    ensures
        spec_nul_len(units) == i,
    decreases i,
{
    if i > 0 {
        lemma_nul_len_prefix(units.skip(1), i - 1);
    }
}

/// If everything up to and including `i` is non-nul, the first nul stands
/// beyond `i`.
proof fn lemma_nul_len_step(units: Seq<u16>, i: int)
    requires
        0 <= i < units.len(),
        forall|j: int| 0 <= j <= i ==> units[j] != 0,
    ensures
        spec_nul_len(units) >= i + 1,
    decreases i,
{
    if i == 0 {
        lemma_nul_len_bounds(units.skip(1));
    } else {
        assert forall|j: int| 0 <= j <= i - 1 implies units.skip(1)[j] != 0 by {
            assert(units[j + 1] != 0);
        }
        lemma_nul_len_step(units.skip(1), i - 1);
    }
}

/// The units of a nul-padded native name: everything before the first nul.
pub open spec fn spec_name_units(units: Seq<u16>) -> Seq<u16> {
    units.take(spec_nul_len(units))
}

/// Decodes a nul-padded UTF-16 device name: the units before the first nul,
/// decoded; `None` when they are not valid UTF-16.
pub fn decode_device_name(units: &Vec<u16>) -> (r: Option<String>)
    ensures
        r is Some <==> utf16_wellformed(spec_name_units(units@)),
        r matches Some(s) ==> s@ == utf16_decoded(spec_name_units(units@)),
{
    proof {
        lemma_nul_len_bounds(units@);
    }
    let k = nul_len(units);
    let mut prefix: Vec<u16> = Vec::new();
    let mut i: usize = 0;
    while i < k
        invariant
            k == spec_nul_len(units@),
            k <= units@.len(),
            i <= k,
            prefix@ =~= units@.take(i as int),
        decreases k - i,
    {
        prefix.push(units[i]);
        proof {
            assert(prefix@ =~= units@.take(i + 1 as int));
        }
        i = i + 1;
    }
    proof {
        assert(prefix@ =~= spec_name_units(units@));
    }
    decode_utf16_units(prefix.as_slice())
}

} // verus!
