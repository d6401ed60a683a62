//! Why the program escrow refuses a call.
use vstd::prelude::*;

verus! {

/// Why a call of the program escrow is refused.
#[derive(Clone, Copy, Debug, PartialEq, Eq, Structural)]
pub enum Rejection {
    AlreadyInitialized,
    NotInitialized,
    AmountNotPositive,
    CooldownActive,
    RateLimitExceeded,
    LengthMismatch,
    EmptyBatch,
    BatchAmountNotPositive,
    PayoutOverflow,
    InsufficientBalance { requested: i128, available: i128 },
    /// A sum of amounts or of points in time cannot be represented.
    ArithmeticOverflow,
    /// A list handed over by the host holds something of another type.
    MalformedArgument,
}

/// The decimal digits of a number, without leading zeros.
pub open spec fn digits(n: nat) -> Seq<char>
    decreases n,
{
    let last = ('0' as nat + n % 10) as char;
    if n < 10 {
        seq![last]
    } else {
        digits(n / 10).push(last)
    }
}

/// A number in decimal notation.
pub open spec fn decimal(n: int) -> Seq<char> {
    if n < 0 {
        seq!['-'] + digits((-n) as nat)
    } else {
        digits(n as nat)
    }
}

/// The text of a single digit.
fn digit_text(digit: u128) -> (text: &'static str)
    requires
        digit < 10,
    ensures
        text@ == seq![('0' as nat + digit as nat) as char],
{
    proof {
        reveal_strlit("0");
        reveal_strlit("1");
        reveal_strlit("2");
        reveal_strlit("3");
        reveal_strlit("4");
        reveal_strlit("5");
        reveal_strlit("6");
        reveal_strlit("7");
        reveal_strlit("8");
        reveal_strlit("9");
    }
    let text = if digit == 0 {
        "0"
    } else if digit == 1 {
        "1"
    } else if digit == 2 {
        "2"
    } else if digit == 3 {
        "3"
    } else if digit == 4 {
        "4"
    } else if digit == 5 {
        "5"
    } else if digit == 6 {
        "6"
    } else if digit == 7 {
        "7"
    } else if digit == 8 {
        "8"
    } else {
        "9"
    };
    assert(text@ =~= seq![('0' as nat + digit as nat) as char]);
    text
}

/// Adds the decimal digits of a number to a text.
fn append_digits(text: &mut String, n: u128)
    ensures
        final(text)@ == old(text)@ + digits(n as nat),
    decreases n,
{
    if n >= 10 {
        append_digits(text, n / 10);
    }
    text.append(digit_text(n % 10));
    assert(text@ =~= old(text)@ + digits(n as nat));
}

/// Adds a number in decimal notation to a text.
fn append_decimal(text: &mut String, n: i128)
    ensures
        final(text)@ == old(text)@ + decimal(n as int),
{
    if n < 0 {
        proof {
            reveal_strlit("-");
        }
        text.append("-");
        let magnitude: u128 = (-(n + 1)) as u128 + 1;
        append_digits(text, magnitude);
        assert(text@ =~= old(text)@ + decimal(n as int));
    } else {
        append_digits(text, n as u128);
    }
}

impl Rejection {
    pub open spec fn spec_message(self) -> Seq<char> {
        match self {
            Rejection::AlreadyInitialized => "Program already initialized"@,
            Rejection::NotInitialized => "Program not initialized"@,
            Rejection::AmountNotPositive => "Amount must be greater than zero"@,
            Rejection::CooldownActive => "Rate limit: cooldown active"@,
            Rejection::RateLimitExceeded => "Rate limit exceeded"@,
            Rejection::LengthMismatch => "Recipients and amounts vectors must have the same length"@,
            Rejection::EmptyBatch => "Cannot process empty batch"@,
            Rejection::BatchAmountNotPositive => "All amounts must be greater than zero"@,
            Rejection::PayoutOverflow => "Payout amount overflow"@,
            Rejection::InsufficientBalance { requested, available } => {
                "Insufficient balance: requested "@ + decimal(requested as int) + ", available "@
                    + decimal(available as int)
            },
            Rejection::ArithmeticOverflow => "attempt to add with overflow"@,
            Rejection::MalformedArgument => "Malformed argument"@,
        }
    }

    /// The reason in words.
    pub fn message(&self) -> (message: String)
        ensures
            message@ == self.spec_message(),
    {
        match self {
            Rejection::AlreadyInitialized => "Program already initialized".to_owned(),
            Rejection::NotInitialized => "Program not initialized".to_owned(),
            Rejection::AmountNotPositive => "Amount must be greater than zero".to_owned(),
            Rejection::CooldownActive => "Rate limit: cooldown active".to_owned(),
            Rejection::RateLimitExceeded => "Rate limit exceeded".to_owned(),
            Rejection::LengthMismatch => {
                "Recipients and amounts vectors must have the same length".to_owned()
            },
            Rejection::EmptyBatch => "Cannot process empty batch".to_owned(),
            Rejection::BatchAmountNotPositive => "All amounts must be greater than zero".to_owned(),
            Rejection::PayoutOverflow => "Payout amount overflow".to_owned(),
            Rejection::InsufficientBalance { requested, available } => {
                let mut message = "Insufficient balance: requested ".to_owned();
                append_decimal(&mut message, *requested);
                message.append(", available ");
                append_decimal(&mut message, *available);
                message
            },
            Rejection::ArithmeticOverflow => "attempt to add with overflow".to_owned(),
            Rejection::MalformedArgument => "Malformed argument".to_owned(),
        }
    }
}

/// The number that a row of decimal digits stands for.
pub open spec fn number(row: Seq<char>) -> int
    decreases row.len(),
{
    if row.len() == 0 {
        0
    } else {
        10 * number(row.drop_last()) + (row.last() as int - '0' as int)
    }
}

/// A row of decimal digits without leading zeros; zero itself is a single one.
pub open spec fn plain_digits(row: Seq<char>) -> bool {
    &&& 0 < row.len()
    &&& forall|i: int| 0 <= i < row.len() ==> '0' <= #[trigger] row[i] <= '9'
    &&& row[0] == '0' ==> row.len() == 1
}

/// The digits of a number stand for it, without leading zeros.
pub proof fn law_digits_read_back(n: nat)
    ensures
        number(digits(n)) == n,
        plain_digits(digits(n)),
    decreases n,
{
    let row = digits(n);
    if n < 10 {
        assert(row.drop_last() =~= seq![]);
        assert(number(row.drop_last()) == 0);
    } else {
        let earlier = digits(n / 10);
        law_digits_read_back(n / 10);
        assert(row.drop_last() =~= earlier);
        assert forall|i: int| 0 <= i < row.len() implies '0' <= #[trigger] row[i] <= '9' by {
            if i < earlier.len() {
                assert(row[i] == earlier[i]);
            }
        }
        assert(row[0] == earlier[0]);
        if earlier[0] == '0' {
            assert(earlier.drop_last() =~= seq![]);
            assert(number(earlier.drop_last()) == 0);
        }
    }
}

/// Decimal notation stands for the number: digits, after a minus sign for a negative one.
pub proof fn law_decimal_reads_back(n: int)
    ensures
        0 <= n ==> number(decimal(n)) == n && plain_digits(decimal(n)),
        n < 0 ==> decimal(n)[0] == '-' && number(decimal(n).skip(1)) == -n && plain_digits(
            decimal(n).skip(1),
        ),
{
    if n < 0 {
        law_digits_read_back((-n) as nat);
        assert(decimal(n).skip(1) =~= digits((-n) as nat));
    } else {
        law_digits_read_back(n as nat);
    }
}

/// Every reason has its words, and those for a pool that does not cover a payment say what was
/// asked for and what there is.
pub proof fn law_messages(rejection: Rejection)
    ensures
        rejection is AlreadyInitialized ==> rejection.spec_message()
            == "Program already initialized"@,
        rejection is NotInitialized ==> rejection.spec_message() == "Program not initialized"@,
        rejection is AmountNotPositive ==> rejection.spec_message()
            == "Amount must be greater than zero"@,
        rejection is CooldownActive ==> rejection.spec_message() == "Rate limit: cooldown active"@,
        rejection is RateLimitExceeded ==> rejection.spec_message() == "Rate limit exceeded"@,
        rejection is LengthMismatch ==> rejection.spec_message()
            == "Recipients and amounts vectors must have the same length"@,
        rejection is EmptyBatch ==> rejection.spec_message() == "Cannot process empty batch"@,
        rejection is BatchAmountNotPositive ==> rejection.spec_message()
            == "All amounts must be greater than zero"@,
        rejection is PayoutOverflow ==> rejection.spec_message() == "Payout amount overflow"@,
        rejection matches Rejection::InsufficientBalance { requested, available }
            ==> rejection.spec_message() == "Insufficient balance: requested "@ + decimal(
            requested as int,
        ) + ", available "@ + decimal(available as int),
        rejection is ArithmeticOverflow ==> rejection.spec_message()
            == "attempt to add with overflow"@,
        rejection is MalformedArgument ==> rejection.spec_message() == "Malformed argument"@,
{
}

} // verus!
