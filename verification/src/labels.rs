//! Labels and small drawings for the interface.
use crate::case::{lower_form, to_lowercase};
use crate::model::{ConversationItem, ConversationItemView, ItemKind};
use crate::text::{cat, cat3, contains, decimal, decimal_text, has_text, same_text};
use vstd::prelude::*;
use vstd::string::*;

verus! {

/// Nine times the sine of each hundredth of a turn up to a quarter, in
/// thousandths.
pub open spec fn quarter_sine(k: int) -> int {
    seq![
        0int, 565, 1128, 1686, 2238, 2781, 3313, 3832, 4336, 4822, 5290, 5737, 6161, 6561, 6935,
        7281, 7599, 7887, 8143, 8368, 8560, 8717, 8841, 8929, 8982, 9000,
    ][k]
}

/// Nine times the sine of a hundredth of a turn, in thousandths.
pub open spec fn ring_sine(k: int) -> int {
    let k = k % 100;
    if k <= 25 {
        quarter_sine(k)
    } else if k <= 50 {
        quarter_sine(50 - k)
    } else if k <= 75 {
        -quarter_sine(k - 50)
    } else {
        -quarter_sine(100 - k)
    }
}

/// Three digits.
pub open spec fn padded3(n: nat) -> Seq<char> {
    if n < 10 {
        "00"@ + decimal(n)
    } else if n < 100 {
        "0"@ + decimal(n)
    } else {
        decimal(n)
    }
}

/// A number of thousandths with three decimals.
pub open spec fn with_three_decimals(n: nat) -> Seq<char> {
    decimal(n / 1000) + "."@ + padded3(n % 1000)
}

/// The arc of a ring of radius nine round (10, 10) that starts at its top and
/// covers so many hundredths of it.
pub open spec fn ring_path(percent: nat) -> Seq<char> {
    if percent == 0 {
        Seq::empty()
    } else if percent >= 100 {
        "M 10 1 A 9 9 0 0 1 10 19 A 9 9 0 0 1 10 1"@
    } else {
        (if percent > 50 {
            "M 10 1 A 9 9 0 1 1 "@
        } else {
            "M 10 1 A 9 9 0 0 1 "@
        }) + with_three_decimals((10000 + ring_sine(percent as int)) as nat) + " "@
            + with_three_decimals((10000 - ring_sine(percent as int + 25)) as nat)
    }
}

fn quarter_sine_of(k: u32) -> (r: u32)
    requires
        k <= 25,
    ensures
        r == quarter_sine(k as int),
        r <= 9000,
{
    match k {
        0 => 0,
        1 => 565,
        2 => 1128,
        3 => 1686,
        4 => 2238,
        5 => 2781,
        6 => 3313,
        7 => 3832,
        8 => 4336,
        9 => 4822,
        10 => 5290,
        11 => 5737,
        12 => 6161,
        13 => 6561,
        14 => 6935,
        15 => 7281,
        16 => 7599,
        17 => 7887,
        18 => 8143,
        19 => 8368,
        20 => 8560,
        21 => 8717,
        22 => 8841,
        23 => 8929,
        24 => 8982,
        _ => 9000,
    }
}

/// A coordinate on the ring: ten and nine times the sine.
fn ring_coordinate(k: u32, negate: bool) -> (r: u32)
    requires
        k < 200,
    ensures
        r == if negate {
            10000 - ring_sine(k as int)
        } else {
            10000 + ring_sine(k as int)
        },
        1000 <= r <= 19000,
{
    let k: u32 = k % 100;
    let (size, below): (u32, bool) = if k <= 25 {
        (quarter_sine_of(k), false)
    } else if k <= 50 {
        (quarter_sine_of(50 - k), false)
    } else if k <= 75 {
        (quarter_sine_of(k - 50), true)
    } else {
        (quarter_sine_of(100 - k), true)
    };
    if below != negate {
        10000 - size
    } else {
        10000 + size
    }
}

/// The end of the arc lies within a hundredth of a pixel of the ring.
pub proof fn lemma_ring_path_ends_on_the_ring(percent: int)
    requires
        0 < percent < 100,
    ensures
        ({
            let x = ring_sine(percent);
            let y = ring_sine(percent + 25);
            8990 * 8990 <= x * x + y * y <= 9010 * 9010
        }),
{
    let k = percent % 25;
    lemma_quarter(k);
    let q = percent / 25;
    assert(percent == 25 * q + k && 0 <= q < 4);
    if q == 0 {
        assert(ring_sine(percent) == quarter_sine(k));
        assert(ring_sine(percent + 25) == quarter_sine(25 - k));
    } else if q == 1 {
        assert(ring_sine(percent) == quarter_sine(25 - k));
        assert(ring_sine(percent + 25) == -quarter_sine(k));
    } else if q == 2 {
        assert(ring_sine(percent) == -quarter_sine(k));
        assert(ring_sine(percent + 25) == -quarter_sine(25 - k));
    } else {
        assert(ring_sine(percent) == -quarter_sine(25 - k));
        assert(ring_sine(percent + 25) == quarter_sine(k));
    }
    let a = quarter_sine(k);
    let b = quarter_sine(25 - k);
    assert((-a) * (-a) == a * a) by (nonlinear_arith);
    assert((-b) * (-b) == b * b) by (nonlinear_arith);
}

proof fn lemma_quarter(k: int)
    requires
        0 <= k <= 25,
    ensures
        8990 * 8990 <= quarter_sine(k) * quarter_sine(k) + quarter_sine(25 - k) * quarter_sine(
            25 - k,
        ) <= 9010 * 9010,
{
    if k == 0 || k == 25 {
        assert(quarter_sine(0) == 0 && quarter_sine(25) == 9000);
    } else if k == 1 || k == 24 {
        assert(quarter_sine(1) == 565 && quarter_sine(24) == 8982);
    } else if k == 2 || k == 23 {
        assert(quarter_sine(2) == 1128 && quarter_sine(23) == 8929);
    } else if k == 3 || k == 22 {
        assert(quarter_sine(3) == 1686 && quarter_sine(22) == 8841);
    } else if k == 4 || k == 21 {
        assert(quarter_sine(4) == 2238 && quarter_sine(21) == 8717);
    } else if k == 5 || k == 20 {
        assert(quarter_sine(5) == 2781 && quarter_sine(20) == 8560);
    } else if k == 6 || k == 19 {
        assert(quarter_sine(6) == 3313 && quarter_sine(19) == 8368);
    } else if k == 7 || k == 18 {
        assert(quarter_sine(7) == 3832 && quarter_sine(18) == 8143);
    } else if k == 8 || k == 17 {
        assert(quarter_sine(8) == 4336 && quarter_sine(17) == 7887);
    } else if k == 9 || k == 16 {
        assert(quarter_sine(9) == 4822 && quarter_sine(16) == 7599);
    } else if k == 10 || k == 15 {
        assert(quarter_sine(10) == 5290 && quarter_sine(15) == 7281);
    } else if k == 11 || k == 14 {
        assert(quarter_sine(11) == 5737 && quarter_sine(14) == 6935);
    } else if k == 12 || k == 13 {
        assert(quarter_sine(12) == 6161 && quarter_sine(13) == 6561);
    }
}

fn thousandths(n: u32) -> (r: String)
    ensures
        r@ == with_three_decimals(n as nat),
{
    let rest: u32 = n % 1000;
    let digits = decimal_text(rest as u128);
    let padded = if rest < 10 {
        cat("00", digits.as_str())
    } else if rest < 100 {
        cat("0", digits.as_str())
    } else {
        digits
    };
    cat3(decimal_text((n / 1000) as u128).as_str(), ".", padded.as_str())
}

pub fn context_ring_path(percent: u32) -> (r: String)
    ensures
        r@ == ring_path(percent as nat),
{
    if percent == 0 {
        return String::new();
    }
    if percent >= 100 {
        return "M 10 1 A 9 9 0 0 1 10 19 A 9 9 0 0 1 10 1".to_owned();
    }
    let x: u32 = ring_coordinate(percent, false);
    let y: u32 = ring_coordinate(percent + 25, true);
    let start = if percent > 50 {
        "M 10 1 A 9 9 0 1 1 "
    } else {
        "M 10 1 A 9 9 0 0 1 "
    };
    let mut r = cat3(start, thousandths(x).as_str(), " ");
    r.append(thousandths(y).as_str());
    r
}

/// Two digits.
pub open spec fn padded2(n: nat) -> Seq<char> {
    if n < 10 {
        "0"@ + decimal(n)
    } else {
        decimal(n)
    }
}

/// A duration in seconds, or in minutes and seconds.
pub open spec fn elapsed_label(ms: nat) -> Seq<char> {
    let seconds = ms / 1000;
    if seconds < 60 {
        decimal(seconds) + "s"@
    } else {
        decimal(seconds / 60) + "m "@ + padded2(seconds % 60) + "s"@
    }
}

pub fn elapsed_duration_label(duration_ms: u64) -> (r: String)
    ensures
        r@ == elapsed_label(duration_ms as nat),
{
    let seconds: u64 = duration_ms / 1_000;
    if seconds < 60 {
        cat(decimal_text(seconds as u128).as_str(), "s")
    } else {
        let rest: u64 = seconds % 60;
        let digits = decimal_text(rest as u128);
        let padded = if rest < 10 {
            cat("0", digits.as_str())
        } else {
            digits
        };
        let mut r = cat3(decimal_text((seconds / 60) as u128).as_str(), "m ", padded.as_str());
        r.append("s");
        r
    }
}

/// The seconds since a moment, none when it lies ahead.
pub open spec fn seconds_since(timestamp: i64, now: i64) -> nat {
    if now <= timestamp {
        0
    } else if now - timestamp > i64::MAX {
        i64::MAX as nat
    } else {
        (now - timestamp) as nat
    }
}

/// How long ago something was, in its largest unit.
pub open spec fn age_label(timestamp: i64, now: i64) -> Seq<char> {
    let elapsed = seconds_since(timestamp, now);
    if elapsed < 60 {
        "now"@
    } else if elapsed < 3_600 {
        decimal(elapsed / 60) + "m ago"@
    } else if elapsed < 86_400 {
        decimal(elapsed / 3_600) + "h ago"@
    } else if elapsed < 2_592_000 {
        decimal(elapsed / 86_400) + "d ago"@
    } else if elapsed < 31_536_000 {
        decimal(elapsed / 2_592_000) + "mo ago"@
    } else {
        decimal(elapsed / 31_536_000) + "y ago"@
    }
}

pub fn relative_time_label(timestamp: i64, now: i64) -> (r: String)
    ensures
        r@ == age_label(timestamp, now),
{
    let elapsed: u64 = if now <= timestamp {
        0
    } else {
        let difference: i128 = now as i128 - timestamp as i128;
        if difference > 9223372036854775807 {
            9223372036854775807
        } else {
            difference as u64
        }
    };
    if elapsed < 60 {
        "now".to_owned()
    } else if elapsed < 3_600 {
        cat(decimal_text((elapsed / 60) as u128).as_str(), "m ago")
    } else if elapsed < 86_400 {
        cat(decimal_text((elapsed / 3_600) as u128).as_str(), "h ago")
    } else if elapsed < 2_592_000 {
        cat(decimal_text((elapsed / 86_400) as u128).as_str(), "d ago")
    } else if elapsed < 31_536_000 {
        cat(decimal_text((elapsed / 2_592_000) as u128).as_str(), "mo ago")
    } else {
        cat(decimal_text((elapsed / 31_536_000) as u128).as_str(), "y ago")
    }
}

/// The heading of a row: activity says what is or was being done.
pub open spec fn row_title(item: ConversationItemView) -> Seq<char> {
    let running = item.status == "running"@;
    match item.kind {
        ItemKind::Command => if running {
            "Running command"@
        } else {
            "Ran command"@
        },
        ItemKind::FileChange => if running {
            "Changing files"@
        } else {
            "Changed files"@
        },
        ItemKind::Plan => if running {
            "Updating plan"@
        } else {
            "Updated plan"@
        },
        ItemKind::Tool => if has_text(lower_form(item.title), "web search"@) {
            if running {
                "Searching the web"@
            } else {
                "Searched the web"@
            }
        } else if running {
            "Using "@ + item.title
        } else {
            "Used "@ + item.title
        },
        _ => item.title,
    }
}

pub fn activity_title(item: &ConversationItem) -> (r: String)
    ensures
        r@ == row_title(item.deep_view()),
{
    let running = same_text(item.status.as_str(), "running");
    match item.kind {
        ItemKind::Command => if running {
            "Running command".to_owned()
        } else {
            "Ran command".to_owned()
        },
        ItemKind::FileChange => if running {
            "Changing files".to_owned()
        } else {
            "Changed files".to_owned()
        },
        ItemKind::Plan => if running {
            "Updating plan".to_owned()
        } else {
            "Updated plan".to_owned()
        },
        ItemKind::Tool => if contains(to_lowercase(item.title.as_str()).as_str(), "web search") {
            if running {
                "Searching the web".to_owned()
            } else {
                "Searched the web".to_owned()
            }
        } else if running {
            cat("Using ", item.title.as_str())
        } else {
            cat("Used ", item.title.as_str())
        },
        _ => item.title.clone(),
    }
}

} // verus!
