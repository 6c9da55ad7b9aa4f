use vstd::prelude::*;
use vstd::string::StrSliceExecFns;

verus! {

/// Case-insensitive match of one character against a letter, given in both
/// cases.
pub open spec fn spec_ci(c: char, lo: char, up: char) -> bool {
    c == lo || c == up
}

/// Whether the word "wayland" stands at position `i`, ASCII
/// case-insensitively.
pub open spec fn spec_wayland_at(s: Seq<char>, i: int) -> bool {
    &&& 0 <= i
    &&& i + 7 <= s.len()
    &&& spec_ci(s[i], 'w', 'W')
    &&& spec_ci(s[i + 1], 'a', 'A')
    &&& spec_ci(s[i + 2], 'y', 'Y')
    &&& spec_ci(s[i + 3], 'l', 'L')
    &&& spec_ci(s[i + 4], 'a', 'A')
    &&& spec_ci(s[i + 5], 'n', 'N')
    &&& spec_ci(s[i + 6], 'd', 'D')
}

pub open spec fn spec_contains_wayland(s: Seq<char>) -> bool {
    exists|i: int| spec_wayland_at(s, i)
}

/// Whether the string holds the word "wayland", ASCII case-insensitively.
pub fn contains_wayland(s: &str) -> (r: bool)
    ensures
        r == spec_contains_wayland(s@),
{
    let n = s.unicode_len();
    if n < 7 {
        proof {
            assert(forall|i: int| !spec_wayland_at(s@, i));
        }
        return false;
    }
    let mut i: usize = 0;
    while i <= n - 7
        invariant
            n == s@.len(),
            7 <= n,
            i <= n - 7 + 1,
            forall|j: int| 0 <= j < i ==> !spec_wayland_at(s@, j),
        decreases n - i,
    {
        let hit = (s.get_char(i) == 'w' || s.get_char(i) == 'W') && (s.get_char(i + 1) == 'a'
            || s.get_char(i + 1) == 'A') && (s.get_char(i + 2) == 'y' || s.get_char(i + 2) == 'Y')
            && (s.get_char(i + 3) == 'l' || s.get_char(i + 3) == 'L') && (s.get_char(i + 4) == 'a'
            || s.get_char(i + 4) == 'A') && (s.get_char(i + 5) == 'n' || s.get_char(i + 5) == 'N')
            && (s.get_char(i + 6) == 'd' || s.get_char(i + 6) == 'D');
        if hit {
            proof {
                assert(spec_wayland_at(s@, i as int));
            }
            return true;
        }
        i = i + 1;
    }
    proof {
        assert forall|j: int| !spec_wayland_at(s@, j) by {
            if 0 <= j <= n - 7 {
                assert(!spec_wayland_at(s@, j));
            }
        }
    }
    false
}

/// Which session value decides: the Wayland display name when set, else the
/// session type.
pub open spec fn spec_session_value(
    wayland_display: Option<Seq<char>>,
    xdg_session_type: Option<Seq<char>>,
) -> Option<Seq<char>> {
    match wayland_display {
        Some(v) => Some(v),
        None => xdg_session_type,
    }
}

/// The one-shot choice between the two display-server protocols a desktop
/// may run: a session is a Wayland session when the deciding environment
/// value names Wayland (ASCII case-insensitively); otherwise the X server
/// is assumed.
pub open spec fn spec_is_wayland_session(
    wayland_display: Option<Seq<char>>,
    xdg_session_type: Option<Seq<char>>,
) -> bool {
    match spec_session_value(wayland_display, xdg_session_type) {
        Some(v) => spec_contains_wayland(v),
        None => false,
    }
}

/// Decides the session kind from the values of the `WAYLAND_DISPLAY` and
/// `XDG_SESSION_TYPE` environment variables, as the caller read them.
pub fn is_wayland_session(wayland_display: Option<&str>, xdg_session_type: Option<&str>) -> (r:
    bool)
    ensures
        r == spec_is_wayland_session(
            match wayland_display {
                Some(s) => Some(s@),
                None => None,
            },
            match xdg_session_type {
                Some(s) => Some(s@),
                None => None,
            },
        ),
{
    match wayland_display {
        Some(v) => contains_wayland(v),
        None => match xdg_session_type {
            Some(v) => contains_wayland(v),
            None => false,
        },
    }
}

} // verus!
