use vstd::prelude::*;
use vstd::string::StringSliceAdditionalSpecFns;

verus! {

/// Protocol identifiers of the modem engine: family index times three plus speed index.
pub const PROTOCOL_AUDIBLE_NORMAL: i32 = 0;
pub const PROTOCOL_AUDIBLE_FAST: i32 = 1;
pub const PROTOCOL_AUDIBLE_FASTEST: i32 = 2;
pub const PROTOCOL_ULTRASOUND_NORMAL: i32 = 3;
pub const PROTOCOL_ULTRASOUND_FAST: i32 = 4;
pub const PROTOCOL_ULTRASOUND_FASTEST: i32 = 5;
pub const PROTOCOL_DT_NORMAL: i32 = 6;
pub const PROTOCOL_DT_FAST: i32 = 7;
pub const PROTOCOL_DT_FASTEST: i32 = 8;
pub const PROTOCOL_MT_NORMAL: i32 = 9;
pub const PROTOCOL_MT_FAST: i32 = 10;
pub const PROTOCOL_MT_FASTEST: i32 = 11;

/// ASCII `':'`.
pub const COLON: u8 = 58;

/// An ASCII upper-case letter made lower case; any other byte unchanged.
pub open spec fn ascii_lower(c: u8) -> u8 {
    if 65 <= c <= 90 {
        (c + 32) as u8
    } else {
        c
    }
}

pub open spec fn lower(s: Seq<u8>) -> Seq<u8> {
    s.map_values(|c: u8| ascii_lower(c))
}

/// Index of the first `x` in `s`, or `s.len()` when there is none.
pub open spec fn first_index(s: Seq<u8>, x: u8) -> int
    decreases s.len(),
{
    if s.len() == 0 {
        0
    } else if s[0] == x {
        0
    } else {
        1 + first_index(s.drop_first(), x)
    }
}

/// "audible", "ultrasound", "dt", "mt".
pub open spec fn family_index(w: Seq<u8>) -> Option<int> {
    if w == seq![97u8, 117, 100, 105, 98, 108, 101] {
        Some(0)
    } else if w == seq![117u8, 108, 116, 114, 97, 115, 111, 117, 110, 100] {
        Some(1)
    } else if w == seq![100u8, 116] {
        Some(2)
    } else if w == seq![109u8, 116] {
        Some(3)
    } else {
        None
    }
}

/// "normal", "fast", "fastest".
pub open spec fn speed_index(w: Seq<u8>) -> Option<int> {
    if w == normal_word() {
        Some(0)
    } else if w == seq![102u8, 97, 115, 116] {
        Some(1)
    } else if w == seq![102u8, 97, 115, 116, 101, 115, 116] {
        Some(2)
    } else {
        None
    }
}

pub open spec fn normal_word() -> Seq<u8> {
    seq![110u8, 111, 114, 109, 97, 108]
}

/// The family part of `family:speed`: everything before the first colon.
pub open spec fn family_part(s: Seq<u8>) -> Seq<u8> {
    s.subrange(0, first_index(s, COLON))
}

/// The speed part of `family:speed`: everything after the first colon, or
/// "normal" when there is no colon.
pub open spec fn speed_part(s: Seq<u8>) -> Seq<u8> {
    let i = first_index(s, COLON);
    if i < s.len() {
        s.subrange(i + 1, s.len() as int)
    } else {
        normal_word()
    }
}

/// The protocol that a `family:speed` selector names, letter case ignored;
/// audible:fast when it names none.
pub open spec fn protocol_of(s: Seq<u8>) -> i32 {
    match (family_index(lower(family_part(s))), speed_index(lower(speed_part(s)))) {
        (Some(f), Some(v)) => (3 * f + v) as i32,
        _ => PROTOCOL_AUDIBLE_FAST,
    }
}

proof fn lemma_first_index_bounds(s: Seq<u8>, x: u8)
    ensures
        0 <= first_index(s, x) <= s.len(),
        first_index(s, x) < s.len() ==> s[first_index(s, x)] == x,
        forall|j: int| 0 <= j < first_index(s, x) ==> s[j] != x,
    decreases s.len(),
{
    if s.len() > 0 && s[0] != x {
        lemma_first_index_bounds(s.drop_first(), x);
        assert forall|j: int| 0 <= j < first_index(s, x) implies s[j] != x by {
            if j > 0 {
                assert(s[j] == s.drop_first()[j - 1]);
            }
        }
    }
}

proof fn lemma_first_index_is(s: Seq<u8>, x: u8, i: int)
    requires
        0 <= i <= s.len(),
        i < s.len() ==> s[i] == x,
        forall|j: int| 0 <= j < i ==> s[j] != x,
    ensures
        first_index(s, x) == i,
    decreases s.len(),
{
    if s.len() > 0 && s[0] != x {
        assert forall|j: int| 0 <= j < i - 1 implies s.drop_first()[j] != x by {
            assert(s.drop_first()[j] == s[j + 1]);
        }
        lemma_first_index_is(s.drop_first(), x, i - 1);
    }
}

fn find_colon(s: &[u8]) -> (r: usize)
    ensures
        r == first_index(s@, COLON),
{
    let mut i: usize = 0;
    while i < s.len() && s[i] != COLON
        invariant
            i <= s@.len(),
            forall|j: int| 0 <= j < i ==> s@[j] != COLON,
        decreases s@.len() - i,
    {
        i = i + 1;
    }
    proof {
        lemma_first_index_is(s@, COLON, i as int);
    }
    i
}

fn ascii_lower_exec(c: u8) -> (r: u8)
    ensures
        r == ascii_lower(c),
{
    if 65 <= c && c <= 90 {
        c + 32
    } else {
        c
    }
}

/// Whether `s[lo..hi]`, made lower case, is `word`.
fn lower_eq(s: &[u8], lo: usize, hi: usize, word: &[u8]) -> (r: bool)
    requires
        lo <= hi <= s@.len(),
    ensures
        r == (lower(s@.subrange(lo as int, hi as int)) == word@),
{
    let ghost part = lower(s@.subrange(lo as int, hi as int));
    if hi - lo != word.len() {
        assert(part.len() != word@.len());
        return false;
    }
    let mut i: usize = 0;
    while i < word.len()
        invariant
            hi - lo == word@.len(),
            lo <= hi <= s@.len(),
            part == lower(s@.subrange(lo as int, hi as int)),
            i <= word@.len(),
            forall|j: int| 0 <= j < i ==> part[j] == word@[j],
        decreases word@.len() - i,
    {
        if ascii_lower_exec(s[lo + i]) != word[i] {
            assert(part[i as int] != word@[i as int]);
            return false;
        }
        i = i + 1;
    }
    assert(part =~= word@);
    true
}

fn family_index_exec(s: &[u8], lo: usize, hi: usize) -> (r: Option<i32>)
    requires
        lo <= hi <= s@.len(),
    ensures
        r matches Some(x) ==> family_index(lower(s@.subrange(lo as int, hi as int))) == Some(x as int),
        r is None ==> family_index(lower(s@.subrange(lo as int, hi as int))) is None,
{
    if lower_eq(s, lo, hi, &[97u8, 117, 100, 105, 98, 108, 101]) {
        Some(0)
    } else if lower_eq(s, lo, hi, &[117u8, 108, 116, 114, 97, 115, 111, 117, 110, 100]) {
        Some(1)
    } else if lower_eq(s, lo, hi, &[100u8, 116]) {
        Some(2)
    } else if lower_eq(s, lo, hi, &[109u8, 116]) {
        Some(3)
    } else {
        None
    }
}

fn speed_index_exec(s: &[u8], lo: usize, hi: usize) -> (r: Option<i32>)
    requires
        lo <= hi <= s@.len(),
    ensures
        r matches Some(x) ==> speed_index(lower(s@.subrange(lo as int, hi as int))) == Some(x as int),
        r is None ==> speed_index(lower(s@.subrange(lo as int, hi as int))) is None,
{
    if lower_eq(s, lo, hi, &[110u8, 111, 114, 109, 97, 108]) {
        Some(0)
    } else if lower_eq(s, lo, hi, &[102u8, 97, 115, 116]) {
        Some(1)
    } else if lower_eq(s, lo, hi, &[102u8, 97, 115, 116, 101, 115, 116]) {
        Some(2)
    } else {
        None
    }
}

/// The protocol named by a `family:speed` selector (letter case ignored; the speed
/// defaults to normal without a colon); audible:fast for anything unrecognised.
pub fn parse_protocol(s: &str) -> (r: i32)
    ensures
        r == protocol_of(s.spec_bytes()),
{
    let b = s.as_bytes();
    let n = b.len();
    let i = find_colon(b);
    proof {
        lemma_first_index_bounds(b@, COLON);
    }
    let family = family_index_exec(b, 0, i);
    let speed = if i < n {
        speed_index_exec(b, i + 1, n)
    } else {
        proof {
            assert(lower(normal_word()) =~= normal_word());
        }
        Some(0)
    };
    match (family, speed) {
        (Some(f), Some(v)) => 3 * f + v,
        _ => PROTOCOL_AUDIBLE_FAST,
    }
}

} // verus!
