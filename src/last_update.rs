use chrono::TimeZone;
use vstd::prelude::*;
use vstd::string::*;

verus! {

/// Seconds since the epoch of chrono's earliest instant, the start of
/// `NaiveDate::MIN` (January 1, 262144 BCE).
pub const MIN_TIMESTAMP: i64 = -8334601228800;

/// Seconds since the epoch of chrono's latest whole second, the end of
/// `NaiveDate::MAX` (December 31, 262142 CE).
pub const MAX_TIMESTAMP: i64 = 8210266876799;

/// Whether chrono can represent the instant `secs` seconds after the epoch.
pub open spec fn utc_representable(secs: int) -> bool {
    MIN_TIMESTAMP <= secs <= MAX_TIMESTAMP
}

/// Relies on chrono's `TimeZone::timestamp_opt` for `Utc`, through
/// `DateTime::from_timestamp`: a single instant exactly when the day of
/// `secs` lies between `NaiveDate::MIN` and `NaiveDate::MAX`.
#[verifier::external_body]
fn representable(secs: i64) -> (r: bool)
    ensures
        r == utc_representable(secs as int),
{
    chrono::Utc.timestamp_opt(secs, 0).single().is_some()
}

/// The watermark of the last successful synchronization: a UTC instant, in
/// whole seconds since the epoch.
#[derive(Debug, Clone, Copy, PartialEq, Eq, Structural)]
pub struct Checkpoint {
    pub secs: i64,
}

/// Why a persisted checkpoint could not be read back.
#[derive(Debug, Clone, Copy, PartialEq, Eq, Structural)]
pub enum CheckpointError {
    /// The text is not a decimal integer that fits in an `i64`.
    NotANumber,
    /// The integer is outside the range of representable instants.
    OutOfRange,
}

impl Checkpoint {
    pub open spec fn wf(self) -> bool {
        utc_representable(self.secs as int)
    }

    /// The epoch: the checkpoint of a store that holds no value yet.
    pub fn epoch() -> (r: Checkpoint)
        ensures
            r.secs == 0,
            r.wf(),
    {
        Checkpoint { secs: 0 }
    }

    /// The instant `secs` seconds after the epoch, if it can be represented.
    pub fn from_timestamp(secs: i64) -> (r: Option<Checkpoint>)
        ensures
            r == (if utc_representable(secs as int) {
                Some(Checkpoint { secs })
            } else {
                None
            }),
    {
        if representable(secs) {
            Some(Checkpoint { secs })
        } else {
            None
        }
    }

    /// Seconds since the epoch.
    pub fn timestamp(&self) -> (r: i64)
        ensures
            r == self.secs,
    {
        self.secs
    }
}

pub open spec fn is_digit(c: char) -> bool {
    48 <= (c as u32) <= 57
}

pub open spec fn digit_value(c: char) -> int {
    (c as u32) - 48
}

pub open spec fn digit_char(d: nat) -> char {
    if d == 0 {
        '0'
    } else if d == 1 {
        '1'
    } else if d == 2 {
        '2'
    } else if d == 3 {
        '3'
    } else if d == 4 {
        '4'
    } else if d == 5 {
        '5'
    } else if d == 6 {
        '6'
    } else if d == 7 {
        '7'
    } else if d == 8 {
        '8'
    } else {
        '9'
    }
}

pub open spec fn all_digits(s: Seq<char>) -> bool {
    forall|i: int| 0 <= i < s.len() ==> is_digit(#[trigger] s[i])
}

/// The value of a string of decimal digits, most significant first.
pub open spec fn digits_value(s: Seq<char>) -> int
    decreases s.len(),
{
    if s.len() == 0 {
        0
    } else {
        digits_value(s.drop_last()) * 10 + digit_value(s.last())
    }
}

/// The integer that a decimal text denotes: an optional `+` or `-` followed
/// by at least one digit, and nothing else.
pub open spec fn decimal_value(s: Seq<char>) -> Option<int> {
    if s.len() > 0 && (s[0] == '-' || s[0] == '+') {
        let t = s.drop_first();
        if t.len() > 0 && all_digits(t) {
            Some(if s[0] == '-' { -digits_value(t) } else { digits_value(t) })
        } else {
            None
        }
    } else if s.len() > 0 && all_digits(s) {
        Some(digits_value(s))
    } else {
        None
    }
}

/// The digits of `n`, most significant first, without leading zeros.
pub open spec fn digits_of(n: nat) -> Seq<char>
    decreases n,
{
    if n < 10 {
        seq![digit_char(n)]
    } else {
        digits_of(n / 10).push(digit_char(n % 10))
    }
}

/// The decimal text of an integer, with a `-` before a negative one.
pub open spec fn decimal_of(v: int) -> Seq<char> {
    if v < 0 {
        seq!['-'] + digits_of((-v) as nat)
    } else {
        digits_of(v as nat)
    }
}

/// What reading a persisted checkpoint text yields.
pub open spec fn decode_spec(s: Seq<char>) -> Result<Checkpoint, CheckpointError> {
    match decimal_value(s) {
        None => Err(CheckpointError::NotANumber),
        Some(v) => if v < i64::MIN || v > i64::MAX {
            Err(CheckpointError::NotANumber)
        } else if !utc_representable(v) {
            Err(CheckpointError::OutOfRange)
        } else {
            Ok(Checkpoint { secs: v as i64 })
        },
    }
}


/// One more than the largest magnitude an `i64` can have.
const MAGNITUDE_LIMIT: u128 = 9223372036854775808;

proof fn lemma_digit_char(d: nat)
    requires
        d < 10,
    ensures
        is_digit(digit_char(d)),
        digit_value(digit_char(d)) == d,
{
}

proof fn lemma_digits_value_nonneg(s: Seq<char>)
    requires
        all_digits(s),
    ensures
        digits_value(s) >= 0,
    decreases s.len(),
{
    if s.len() > 0 {
        assert(all_digits(s.drop_last()));
        lemma_digits_value_nonneg(s.drop_last());
        assert(is_digit(s[s.len() - 1]));
    }
}

proof fn lemma_digits_of(n: nat)
    ensures
        digits_of(n).len() >= 1,
        all_digits(digits_of(n)),
        digits_value(digits_of(n)) == n,
    decreases n,
{
    lemma_digit_char(n % 10);
    if n < 10 {
        assert(digits_of(n).drop_last() =~= Seq::<char>::empty());
        assert(digits_value(Seq::<char>::empty()) == 0);
    } else {
        lemma_digits_of(n / 10);
        let s = digits_of(n);
        assert(s.drop_last() =~= digits_of(n / 10));
        assert(s.last() == digit_char(n % 10));
        assert(digits_value(s) == (n / 10) as int * 10 + (n % 10) as int);
        assert(all_digits(s)) by {
            assert forall|i: int| 0 <= i < s.len() implies is_digit(#[trigger] s[i]) by {
                if i < s.len() - 1 {
                    assert(s[i] == digits_of(n / 10)[i]);
                }
            }
        }
    }
}

/// Reading back the text written for an integer gives that integer.
pub proof fn lemma_decimal_round_trip(v: int)
    ensures
        decimal_value(decimal_of(v)) == Some(v),
{
    if v < 0 {
        let d = digits_of((-v) as nat);
        lemma_digits_of((-v) as nat);
        assert(decimal_of(v).drop_first() =~= d);
    } else {
        lemma_digits_of(v as nat);
        assert(is_digit(decimal_of(v)[0]));
    }
}

/// Writing a checkpoint and reading the text back yields the same instant.
pub proof fn lemma_checkpoint_round_trip(t: Checkpoint)
    requires
        t.wf(),
    ensures
        decode_spec(decimal_of(t.secs as int)) == Ok::<Checkpoint, CheckpointError>(t),
{
    lemma_decimal_round_trip(t.secs as int);
}

fn digit_str(d: u64) -> (r: &'static str)
    requires
        d < 10,
    ensures
        r@ == seq![digit_char(d as nat)],
{
    proof {
        reveal_strlit("0");
        reveal_strlit("1");
        reveal_strlit("2");
        reveal_strlit("3");
        reveal_strlit("4");
        reveal_strlit("5");
        reveal_strlit("6");
        reveal_strlit("7");
        reveal_strlit("8");
        reveal_strlit("9");
    }
    if d == 0 {
        "0"
    } else if d == 1 {
        "1"
    } else if d == 2 {
        "2"
    } else if d == 3 {
        "3"
    } else if d == 4 {
        "4"
    } else if d == 5 {
        "5"
    } else if d == 6 {
        "6"
    } else if d == 7 {
        "7"
    } else if d == 8 {
        "8"
    } else {
        "9"
    }
}

fn digits_string(n: u64) -> (r: String)
    ensures
        r@ == digits_of(n as nat),
    decreases n,
{
    if n < 10 {
        String::from_str(digit_str(n))
    } else {
        let mut s = digits_string(n / 10);
        s.append(digit_str(n % 10));
        assert(s@ =~= digits_of(n as nat));
        s
    }
}

/// The text under which a checkpoint is persisted: its seconds since the
/// epoch in decimal.
pub fn encode_checkpoint(t: &Checkpoint) -> (r: String)
    ensures
        r@ == decimal_of(t.secs as int),
{
    if t.secs < 0 {
        let magnitude = (0i128 - t.secs as i128) as u64;
        let mut s = String::from_str("-");
        let digits = digits_string(magnitude);
        s.append(digits.as_str());
        proof {
            reveal_strlit("-");
        }
        assert(s@ =~= decimal_of(t.secs as int));
        s
    } else {
        digits_string(t.secs as u64)
    }
}

/// Reads a persisted checkpoint text: an optional sign and decimal digits,
/// naming an instant that can be represented.
pub fn decode_checkpoint(text: &str) -> (r: Result<Checkpoint, CheckpointError>)
    ensures
        r == decode_spec(text@),
{
    let n = text.unicode_len();
    if n == 0 {
        return Err(CheckpointError::NotANumber);
    }
    let first = text.get_char(0);
    let negative = first == '-';
    let start: usize = if first == '-' || first == '+' {
        1
    } else {
        0
    };
    if start == n {
        return Err(CheckpointError::NotANumber);
    }
    let ghost s = text@;
    let mut acc: u128 = 0;
    let mut i: usize = start;
    while i < n
        invariant
            start <= i <= n,
            n == s.len(),
            s == text@,
            s[0] == first,
            negative == (first == '-'),
            start == (if first == '-' || first == '+' { 1usize } else { 0usize }),
            all_digits(s.subrange(start as int, i as int)),
            digits_value(s.subrange(start as int, i as int)) <= MAGNITUDE_LIMIT ==> acc
                == digits_value(s.subrange(start as int, i as int)),
            digits_value(s.subrange(start as int, i as int)) > MAGNITUDE_LIMIT ==> acc
                == MAGNITUDE_LIMIT + 1,
        decreases n - i,
    {
        let c = text.get_char(i);
        let code = c as u32;
        if code < 48 || code > 57 {
            proof {
                let t = s.subrange(start as int, n as int);
                assert(t[i - start] == c);
                assert(!all_digits(t));
                assert(s[0] == first);
                if start == 1 {
                    assert(s.drop_first() =~= t);
                    assert(!all_digits(s.drop_first()));
                } else {
                    assert(s =~= t);
                    assert(!all_digits(s));
                    assert(!(s[0] == '-' || s[0] == '+'));
                }
            }
            return Err(CheckpointError::NotANumber);
        }
        let ghost prev = s.subrange(start as int, i as int);
        let ghost next = s.subrange(start as int, i + 1);
        proof {
            assert(next.drop_last() =~= prev);
            assert(next.last() == c);
            assert(all_digits(next)) by {
                assert forall|j: int| 0 <= j < next.len() implies is_digit(#[trigger] next[j]) by {
                    if j < next.len() - 1 {
                        assert(next[j] == prev[j]);
                    }
                }
            }
            lemma_digits_value_nonneg(prev);
        }
        let d = (code - 48) as u128;
        if acc <= MAGNITUDE_LIMIT {
            acc = acc * 10 + d;
            if acc > MAGNITUDE_LIMIT {
                acc = MAGNITUDE_LIMIT + 1;
            }
        } else {
            assert(digits_value(next) > MAGNITUDE_LIMIT) by (nonlinear_arith)
                requires
                    digits_value(prev) > MAGNITUDE_LIMIT,
                    digits_value(next) == digits_value(prev) * 10 + d,
                    d >= 0,
            ;
        }
        i = i + 1;
    }
    proof {
        let t = s.subrange(start as int, n as int);
        if start == 1 {
            assert(s.drop_first() =~= t);
        } else {
            assert(s =~= t);
        }
    }
    let secs: i64;
    if negative {
        if acc > MAGNITUDE_LIMIT {
            return Err(CheckpointError::NotANumber);
        }
        secs = (0i128 - acc as i128) as i64;
    } else {
        if acc >= MAGNITUDE_LIMIT {
            return Err(CheckpointError::NotANumber);
        }
        secs = acc as i64;
    }
    if representable(secs) {
        Ok(Checkpoint { secs })
    } else {
        Err(CheckpointError::OutOfRange)
    }
}

} // verus!
