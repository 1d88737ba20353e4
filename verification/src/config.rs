use vstd::prelude::*;
use vstd::string::StrSliceExecFns;

verus! {

/// The port that is listened on when none is configured.
pub const DEFAULT_PORT: u16 = 8000;

/// The seconds a token is good for when no lifetime is configured.
pub const DEFAULT_LIFETIME: u64 = 3600;

/// One of `0-9`.
pub open spec fn is_digit(c: char) -> bool {
    48 <= c as u32 <= 57
}

/// The number that decimal digits spell.
pub open spec fn decimal(digits: Seq<char>) -> nat
    decreases digits.len(),
{
    if digits.len() == 0 {
        0
    } else {
        decimal(digits.drop_last()) * 10 + (digits.last() as u32 - 48) as nat
    }
}

/// The digits of a number's text: the text without a leading `+`.
pub open spec fn digits_of(text: Seq<char>) -> Seq<char> {
    if text.len() > 0 && text[0] == '+' {
        text.skip(1)
    } else {
        text
    }
}

/// The number that a text configures: one or more decimal digits, after an
/// optional `+`, that spell a number of at most `limit`. Any other text
/// configures none.
pub open spec fn number_of(text: Seq<char>, limit: u64) -> Option<u64> {
    let digits = digits_of(text);
    if digits.len() > 0 && (forall|i: int| 0 <= i < digits.len() ==> is_digit(#[trigger] digits[i]))
        && decimal(digits) <= limit {
        Some(decimal(digits) as u64)
    } else {
        None
    }
}

/// The digits read so far never spell more than all of them do.
proof fn lemma_decimal_grows(digits: Seq<char>, n: int)
    requires
        0 <= n <= digits.len(),
    ensures
        decimal(digits.take(n)) <= decimal(digits),
    decreases digits.len() - n,
{
    if n < digits.len() {
        lemma_decimal_grows(digits, n + 1);
        assert(digits.take(n + 1).drop_last() =~= digits.take(n));
    } else {
        assert(digits.take(n) =~= digits);
    }
}

/// Reads a number of at most `limit` from its decimal text.
pub fn bounded_decimal(text: &str, limit: u64) -> (number: Option<u64>)
    ensures
        number == number_of(text@, limit),
{
    let n = text.unicode_len();
    let first: usize = if n > 0 && text.get_char(0) == '+' {
        1
    } else {
        0
    };
    let ghost digits = digits_of(text@);
    if first == n {
        return None;
    }
    let mut value: u64 = 0;
    let mut i: usize = first;
    assert(digits.take(0) =~= Seq::<char>::empty());
    while i < n
        invariant
            first <= i <= n,
            n == text@.len(),
            digits == text@.skip(first as int),
            digits == digits_of(text@),
            forall|k: int| 0 <= k < i - first ==> is_digit(#[trigger] digits[k]),
            value == decimal(digits.take(i - first)),
            value <= limit,
        decreases n - i,
    {
        let c = text.get_char(i);
        assert(digits[i - first] == c);
        let code = c as u32;
        if code < 48 || code > 57 {
            assert(!is_digit(digits[i - first]));
            return None;
        }
        proof {
            assert(digits.take(i - first + 1).drop_last() =~= digits.take(i - first));
            assert(digits.take(i - first + 1).last() == c);
            lemma_decimal_grows(digits, i - first + 1);
        }
        let digit = (code - 48) as u64;
        value = match value.checked_mul(10) {
            Some(tens) => match tens.checked_add(digit) {
                Some(sum) => sum,
                None => {
                    return None;
                },
            },
            None => {
                return None;
            },
        };
        if value > limit {
            return None;
        }
        i += 1;
    }
    assert(digits.take(n - first) =~= digits);
    Some(value)
}

/// The port to listen on. `raw` is what the environment says, if it says
/// anything; with nothing said the port is `DEFAULT_PORT`, and a text that
/// is no number of at most 65535 gives `None`.
pub fn listen_port(raw: Option<&str>) -> (port: Option<u16>)
    ensures
        port == match raw {
            None => Some(DEFAULT_PORT),
            Some(text) => match number_of(text@, 65535) {
                Some(number) => Some(number as u16),
                None => None,
            },
        },
{
    match raw {
        None => Some(DEFAULT_PORT),
        Some(text) => match bounded_decimal(text, 65535) {
            Some(number) => Some(number as u16),
            None => None,
        },
    }
}

/// The seconds a token is good for. `raw` is what the environment says, if
/// it says anything; with nothing said the lifetime is `DEFAULT_LIFETIME`,
/// and a text that is no number of 64 bits gives `None`.
pub fn token_lifetime(raw: Option<&str>) -> (lifetime: Option<u64>)
    ensures
        lifetime == match raw {
            None => Some(DEFAULT_LIFETIME),
            Some(text) => number_of(text@, u64::MAX),
        },
{
    match raw {
        None => Some(DEFAULT_LIFETIME),
        Some(text) => bounded_decimal(text, u64::MAX),
    }
}

/// Where the last segment of a path begins, reading from position `at` with
/// the last separator seen ending at `start`. Separators are found from the
/// left and do not overlap.
pub open spec fn segment_start(path: Seq<char>, at: nat, start: nat) -> nat
    decreases path.len() - at,
{
    if at + 1 >= path.len() {
        start
    } else if path[at as int] == ':' && path[at as int + 1] == ':' {
        segment_start(path, at + 2, at + 2)
    } else {
        segment_start(path, at + 1, start)
    }
}

/// The last of the segments that `::` parts a path into; the whole path if
/// it holds no `::`.
pub open spec fn last_segment(path: Seq<char>) -> Seq<char> {
    path.skip(segment_start(path, 0, 0) as int)
}

/// The name of the collection that holds the documents of a type: the last
/// segment of the type's path.
pub fn collection_name(type_path: &str) -> (name: String)
    ensures
        name@ == last_segment(type_path@),
{
    let n = type_path.unicode_len();
    let mut start: usize = 0;
    let mut at: usize = 0;
    while at < n && at + 1 < n
        invariant
            start <= at <= n,
            n == type_path@.len(),
            segment_start(type_path@, 0, 0) == segment_start(type_path@, at as nat, start as nat),
        decreases n - at,
    {
        if type_path.get_char(at) == ':' && type_path.get_char(at + 1) == ':' {
            at += 2;
            start = at;
        } else {
            at += 1;
        }
    }
    let name = type_path.substring_char(start, n);
    assert(name@ =~= last_segment(type_path@));
    name.to_owned()
}

} // verus!
