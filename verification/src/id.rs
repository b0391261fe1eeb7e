//! Task identifiers: 128-bit ULIDs, made, written and read by the `ulid`
//! crate.

use vstd::prelude::*;

use crate::error::CliError;

verus! {

/// `ulid::DecodeError`, the reason why `ulid::Ulid::from_string` turned a
/// text down. It is carried through unread.
#[verifier::external_type_specification]
#[verifier::external_body]
pub struct ExDecodeError(ulid::DecodeError);

/// The 32 digits of Crockford's base 32, in the order of their values.
pub open spec fn crockford_digits() -> Seq<char> {
    "0123456789ABCDEFGHJKMNPQRSTVWXYZ"@
}

/// The value of the digit at position `i` of the canonical text of `value`:
/// five bits of it, the highest ones at position 0.
pub open spec fn crockford_digit(value: u128, i: int) -> int {
    ((value >> ((5 * (25 - i)) as u128)) & 0x1f) as int
}

/// The canonical text of a 128-bit number: 26 digits of Crockford's base 32,
/// the most significant first.
pub open spec fn crockford_text(value: u128) -> Seq<char> {
    Seq::new(26, |i: int| crockford_digits()[crockford_digit(value, i)])
}

/// The number that `ulid::Ulid::from_string` reads from a text, or `None`
/// where it turns the text down.
pub uninterp spec fn ulid_decoded(text: Seq<char>) -> Option<u128>;

/// Calls `ulid::Ulid::new`, which joins the milliseconds of the system clock
/// with 80 random bits. Nothing is claimed of the identifier that comes
/// back: two calls may even give the same one. The call panics where the
/// operating system hands out no random bytes.
#[verifier::external_body]
pub(crate) fn fresh_id() -> TaskId {
    TaskId(ulid::Ulid::new().0)
}

/// Calls `ulid::Ulid::from_string`. It is a function of the text alone, and
/// the contract gives its outcome the name `ulid_decoded`. Of that outcome
/// it claims one thing: the canonical text of a number is read as that
/// number. (Such a text has 26 characters, all of them digits of the
/// alphabet, and its first digit is at most 7, so that no bit is lost.)
#[verifier::external_body]
fn decode_ulid(text: &str) -> (r: Result<u128, ulid::DecodeError>)
    ensures
        r matches Ok(value) ==> ulid_decoded(text@) == Some(value),
        r is Err ==> ulid_decoded(text@) is None,
        forall|value: u128|
            text@ == #[trigger] crockford_text(value) ==> r is Ok && r->Ok_0 == value,
{
    match ulid::Ulid::from_string(text) {
        Ok(id) => Ok(id.0),
        Err(e) => Err(e),
    }
}

/// Calls `ulid::Ulid::to_string`, which writes the canonical text of the
/// number: 26 characters, the one at position `i` being the digit of value
/// `(number >> 5 * (25 - i)) & 31`.
#[verifier::external_body]
fn encode_ulid(value: u128) -> (r: String)
    ensures
        r@ == crockford_text(value),
{
    ulid::Ulid(value).to_string()
}

/// The identifier of a task.
#[derive(Debug, Clone, Copy, PartialEq, Eq, Structural)]
pub struct TaskId(pub u128);

impl TaskId {
    /// The canonical text of the identifier.
    pub open spec fn text(self) -> Seq<char> {
        crockford_text(self.0)
    }

    /// Whether `text` is the canonical text of some identifier.
    pub open spec fn is_canonical(text: Seq<char>) -> bool {
        exists|id: TaskId| #[trigger] id.text() == text
    }

    /// What reading a text as an identifier gives. A canonical text gives
    /// the identifier that it is the text of. Any other text gives what the
    /// `ulid` crate reads from it, or is turned down where that crate turns
    /// it down.
    pub open spec fn parsed(text: Seq<char>) -> Result<TaskId, CliError> {
        if TaskId::is_canonical(text) {
            Ok(choose|id: TaskId| #[trigger] id.text() == text)
        } else {
            match ulid_decoded(text) {
                Some(value) => Ok(TaskId(value)),
                None => Err(CliError::InvalidId),
            }
        }
    }

    /// Turns the outcome of decoding into an identifier, or into the
    /// library's own error.
    pub fn from_decoded(decoded: Result<u128, ulid::DecodeError>) -> (r: Result<TaskId, CliError>)
        ensures
            decoded matches Ok(value) ==> r == Ok::<TaskId, CliError>(TaskId(value)),
            decoded is Err ==> r == Err::<TaskId, CliError>(CliError::InvalidId),
    {
        match decoded {
            Ok(value) => Ok(TaskId(value)),
            Err(_) => Err(CliError::InvalidId),
        }
    }

    /// Reads an identifier from its text.
    pub fn parse(text: &str) -> (r: Result<TaskId, CliError>)
        ensures
            r == TaskId::parsed(text@),
    {
        let decoded = decode_ulid(text);
        proof {
            if TaskId::is_canonical(text@) {
                let id = choose|id: TaskId| #[trigger] id.text() == text@;
                assert(text@ == crockford_text(id.0));
            }
        }
        TaskId::from_decoded(decoded)
    }

    /// Writes the identifier as text.
    pub fn to_string(&self) -> (r: String)
        ensures
            r@ == self.text(),
    {
        encode_ulid(self.0)
    }
}

/// Every digit of a canonical text has a value from 0 to 31.
pub proof fn lemma_crockford_digit_range(value: u128, i: int)
    requires
        0 <= i < 26,
    ensures
        0 <= crockford_digit(value, i) < 32,
{
    let shift = (5 * (25 - i)) as u128;
    assert(((value >> shift) & 0x1f) < 32) by (bit_vector);
}

/// No two of the 32 digits are the same character.
pub proof fn lemma_crockford_digits_differ(a: int, b: int)
    requires
        0 <= a < 32,
        0 <= b < 32,
        crockford_digits()[a] == crockford_digits()[b],
    ensures
        a == b,
{
    reveal_strlit("0123456789ABCDEFGHJKMNPQRSTVWXYZ");
    let d = crockford_digits();
    assert(d[0] == '0' && d[1] == '1' && d[2] == '2' && d[3] == '3' && d[4] == '4' && d[5] == '5'
        && d[6] == '6' && d[7] == '7');
    assert(d[8] == '8' && d[9] == '9' && d[10] == 'A' && d[11] == 'B' && d[12] == 'C' && d[13]
        == 'D' && d[14] == 'E' && d[15] == 'F');
    assert(d[16] == 'G' && d[17] == 'H' && d[18] == 'J' && d[19] == 'K' && d[20] == 'M' && d[21]
        == 'N' && d[22] == 'P' && d[23] == 'Q');
    assert(d[24] == 'R' && d[25] == 'S' && d[26] == 'T' && d[27] == 'V' && d[28] == 'W' && d[29]
        == 'X' && d[30] == 'Y' && d[31] == 'Z');
}

proof fn lemma_same_digit(x: u128, y: u128, i: int)
    requires
        0 <= i < 26,
        crockford_text(x) == crockford_text(y),
    ensures
        crockford_digit(x, i) == crockford_digit(y, i),
{
    lemma_crockford_digit_range(x, i);
    lemma_crockford_digit_range(y, i);
    assert(crockford_text(x)[i] == crockford_digits()[crockford_digit(x, i)]);
    assert(crockford_text(y)[i] == crockford_digits()[crockford_digit(y, i)]);
    lemma_crockford_digits_differ(crockford_digit(x, i), crockford_digit(y, i));
}

/// Two numbers with the same canonical text are the same number.
pub proof fn lemma_crockford_text_is_injective(x: u128, y: u128)
    requires
        crockford_text(x) == crockford_text(y),
    ensures
        x == y,
{
    assert forall|i: int| 0 <= i < 26 implies crockford_digit(x, i) == crockford_digit(y, i) by {
        lemma_same_digit(x, y, i);
    }
    assert(crockford_digit(x, 0) == crockford_digit(y, 0));
    assert(crockford_digit(x, 1) == crockford_digit(y, 1));
    assert(crockford_digit(x, 2) == crockford_digit(y, 2));
    assert(crockford_digit(x, 3) == crockford_digit(y, 3));
    assert(crockford_digit(x, 4) == crockford_digit(y, 4));
    assert(crockford_digit(x, 5) == crockford_digit(y, 5));
    assert(crockford_digit(x, 6) == crockford_digit(y, 6));
    assert(crockford_digit(x, 7) == crockford_digit(y, 7));
    assert(crockford_digit(x, 8) == crockford_digit(y, 8));
    assert(crockford_digit(x, 9) == crockford_digit(y, 9));
    assert(crockford_digit(x, 10) == crockford_digit(y, 10));
    assert(crockford_digit(x, 11) == crockford_digit(y, 11));
    assert(crockford_digit(x, 12) == crockford_digit(y, 12));
    assert(crockford_digit(x, 13) == crockford_digit(y, 13));
    assert(crockford_digit(x, 14) == crockford_digit(y, 14));
    assert(crockford_digit(x, 15) == crockford_digit(y, 15));
    assert(crockford_digit(x, 16) == crockford_digit(y, 16));
    assert(crockford_digit(x, 17) == crockford_digit(y, 17));
    assert(crockford_digit(x, 18) == crockford_digit(y, 18));
    assert(crockford_digit(x, 19) == crockford_digit(y, 19));
    assert(crockford_digit(x, 20) == crockford_digit(y, 20));
    assert(crockford_digit(x, 21) == crockford_digit(y, 21));
    assert(crockford_digit(x, 22) == crockford_digit(y, 22));
    assert(crockford_digit(x, 23) == crockford_digit(y, 23));
    assert(crockford_digit(x, 24) == crockford_digit(y, 24));
    assert(crockford_digit(x, 25) == crockford_digit(y, 25));
    assert(x == y) by (bit_vector)
        requires
            (x >> 125) & 0x1f == (y >> 125) & 0x1f,
            (x >> 120) & 0x1f == (y >> 120) & 0x1f,
            (x >> 115) & 0x1f == (y >> 115) & 0x1f,
            (x >> 110) & 0x1f == (y >> 110) & 0x1f,
            (x >> 105) & 0x1f == (y >> 105) & 0x1f,
            (x >> 100) & 0x1f == (y >> 100) & 0x1f,
            (x >> 95) & 0x1f == (y >> 95) & 0x1f,
            (x >> 90) & 0x1f == (y >> 90) & 0x1f,
            (x >> 85) & 0x1f == (y >> 85) & 0x1f,
            (x >> 80) & 0x1f == (y >> 80) & 0x1f,
            (x >> 75) & 0x1f == (y >> 75) & 0x1f,
            (x >> 70) & 0x1f == (y >> 70) & 0x1f,
            (x >> 65) & 0x1f == (y >> 65) & 0x1f,
            (x >> 60) & 0x1f == (y >> 60) & 0x1f,
            (x >> 55) & 0x1f == (y >> 55) & 0x1f,
            (x >> 50) & 0x1f == (y >> 50) & 0x1f,
            (x >> 45) & 0x1f == (y >> 45) & 0x1f,
            (x >> 40) & 0x1f == (y >> 40) & 0x1f,
            (x >> 35) & 0x1f == (y >> 35) & 0x1f,
            (x >> 30) & 0x1f == (y >> 30) & 0x1f,
            (x >> 25) & 0x1f == (y >> 25) & 0x1f,
            (x >> 20) & 0x1f == (y >> 20) & 0x1f,
            (x >> 15) & 0x1f == (y >> 15) & 0x1f,
            (x >> 10) & 0x1f == (y >> 10) & 0x1f,
            (x >> 5) & 0x1f == (y >> 5) & 0x1f,
            (x >> 0) & 0x1f == (y >> 0) & 0x1f,
    ;
}

/// The canonical text of an identifier is read as that identifier.
pub proof fn lemma_text_reads_back(id: TaskId)
    ensures
        TaskId::parsed(id.text()) == Ok::<TaskId, CliError>(id),
{
    assert(TaskId::is_canonical(id.text()));
    let found = choose|other: TaskId| #[trigger] other.text() == id.text();
    lemma_crockford_text_is_injective(found.0, id.0);
}

} // verus!
