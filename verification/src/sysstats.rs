//! Reading the round-trip time out of what the system's `ping` prints.
use vstd::prelude::*;

verus! {

pub open spec fn digit(b: u8) -> bool {
    0x30 <= b <= 0x39
}

/// That the letters "ms" stand at byte `i`, directly behind a digit.
pub open spec fn ends_time(text: Seq<u8>, i: int) -> bool {
    &&& 0 < i
    &&& i + 1 < text.len()
    &&& text[i] == 0x6D
    &&& text[i + 1] == 0x73
    &&& digit(text[i - 1])
}

/// That the bytes from `j` to `i` are all the digits before byte `i`.
pub open spec fn digit_run(text: Seq<u8>, j: int, i: int) -> bool {
    &&& 0 <= j < i
    &&& forall|k: int| j <= k < i ==> digit(#[trigger] text[k])
    &&& j > 0 ==> !digit(text[j - 1])
}

fn is_digit(b: u8) -> (d: bool)
    ensures
        d == digit(b),
{
    0x30 <= b && b <= 0x39
}

/// Where the digits of the last time in milliseconds stand: the output's
/// language varies, the unit behind the number does not.
pub fn last_ping_ms(text: &[u8]) -> (r: Option<(usize, usize)>)
    ensures
        match r {
            Some((j, i)) => ends_time(text@, i as int) && digit_run(text@, j as int, i as int)
                && forall|k: int| k > i ==> !#[trigger] ends_time(text@, k),
            None => forall|k: int| !#[trigger] ends_time(text@, k),
        },
{
    let total: usize = text.len();
    let mut last: Option<(usize, usize)> = None;
    let mut i: usize = 0;
    while total >= 2 && i < total - 1
        invariant
            total == text@.len(),
            i <= total,
            match last {
                Some((j, e)) => e < i && ends_time(text@, e as int) && digit_run(
                    text@,
                    j as int,
                    e as int,
                ) && forall|k: int| e < k < i ==> !#[trigger] ends_time(text@, k),
                None => forall|k: int| k < i ==> !#[trigger] ends_time(text@, k),
            },
        decreases total - i,
    {
        if text[i] == 0x6D && text[i + 1] == 0x73 {
            let mut j: usize = i;
            while j > 0 && is_digit(text[j - 1])
                invariant
                    j <= i < total,
                    total == text@.len(),
                    forall|k: int| j <= k < i ==> digit(#[trigger] text@[k]),
                decreases j,
            {
                j = j - 1;
            }
            if j < i {
                assert(digit(text@[i - 1]));
                last = Some((j, i));
            }
        }
        i = i + 1;
    }
    last
}

/// Each time found ends in one place, and its digits start in one place.
pub proof fn law_time_is_determined(text: Seq<u8>, i: int, j1: int, j2: int)
    requires
        digit_run(text, j1, i),
        digit_run(text, j2, i),
    ensures
        j1 == j2,
{
    if j1 < j2 {
        assert(digit(text[j2 - 1]));
    } else if j2 < j1 {
        assert(digit(text[j1 - 1]));
    }
}

/// Digits directly in front of "ms" are a time, from the first of them on,
/// and it is the last one where no further "m" follows.
pub proof fn law_time_is_found(front: Seq<u8>, ds: Seq<u8>, back: Seq<u8>)
    requires
        ds.len() > 0,
        forall|k: int| 0 <= k < ds.len() ==> 48 <= #[trigger] ds[k] <= 57,
        front.len() > 0 ==> !(48 <= front.last() <= 57),
        forall|k: int| 0 <= k < back.len() ==> #[trigger] back[k] != 109,
    ensures
        ({
            let text = front + ds + seq![109u8, 115u8] + back;
            let j = front.len() as int;
            let i = (front.len() + ds.len()) as int;
            &&& ends_time(text, i)
            &&& digit_run(text, j, i)
            &&& forall|k: int| k > i ==> !#[trigger] ends_time(text, k)
            &&& text.subrange(j, i) == ds
        }),
{
    let text = front + ds + seq![109u8, 115u8] + back;
    let j = front.len() as int;
    let i = (front.len() + ds.len()) as int;
    assert(text.subrange(j, i) =~= ds);
    assert(text[i] == 109 && text[i + 1] == 115);
    assert(text[i - 1] == ds[ds.len() - 1]);
    assert forall|k: int| j <= k < i implies digit(#[trigger] text[k]) by {
        assert(text[k] == ds[k - j]);
    }
    if j > 0 {
        assert(text[j - 1] == front[j - 1]);
    }
    assert forall|k: int| k > i implies !#[trigger] ends_time(text, k) by {
        if i + 2 <= k < text.len() {
            assert(text[k] == back[k - i - 2]);
        }
    }
}

/// Without digits in front of it, "ms" is no time.
pub proof fn law_no_time_without_digits(text: Seq<u8>, k: int)
    requires
        forall|i: int| 0 <= i < text.len() ==> !(48 <= #[trigger] text[i] <= 57),
    ensures
        !ends_time(text, k),
{
}

/// A time lies inside the text: a digit, and behind it both letters.
pub proof fn law_times_lie_inside(text: Seq<u8>, j: int, i: int)
    requires
        ends_time(text, i),
        digit_run(text, j, i),
    ensures
        0 <= j < i && i + 2 <= text.len(),
        48 <= text[i - 1] <= 57 && text[i] == 109 && text[i + 1] == 115,
        48 <= text[j] <= 57,
        j > 0 ==> !(48 <= text[j - 1] <= 57),
{
    assert(digit(text[j]));
}

} // verus!
