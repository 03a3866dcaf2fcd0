//! Display rules of the transaction table: how dates are written, the
//! messages for rejected input, and the description rules.
use vstd::prelude::*;
use crate::calendar::{month_name_of, month_name_spec, parse_date, parse_date_spec};
use crate::text::{chars_of, push_char, byte_len, decimal, push_decimal, push_str, push_zero_padded, trim, trim_spec, zero_pad};

verus! {

/// `s` without its `$`, `,` and space characters.
pub open spec fn drop_amount_noise(s: Seq<char>) -> Seq<char>
    decreases s.len(),
{
    if s.len() == 0 {
        s
    } else {
        let rest = drop_amount_noise(s.drop_last());
        let c = s.last();
        if c == '$' || c == ',' || c == ' ' {
            rest
        } else {
            rest.push(c)
        }
    }
}

/// Amount text as the form cleans it before reading the number: trimmed,
/// then stripped of `$`, `,` and spaces.
pub open spec fn cleaned_amount_spec(s: Seq<char>) -> Seq<char> {
    drop_amount_noise(trim_spec(s))
}

/// How dates are shown in the table.
#[derive(Clone, Copy, Debug, PartialEq, Eq, Structural)]
pub enum DateFormat {
    /// "June 13, 2025"
    MonthDayYear,
    /// "06/13/2025"
    ShortDate,
    /// "2025-06-13"
    ISO,
}

/// How signed amounts are shown in the table.
#[derive(Clone, Copy, Debug, PartialEq, Eq, Structural)]
pub enum AmountFormat {
    /// "+$10.00" / "-$5.00"
    PlusMinusSign,
    /// "$10.00" / "($5.00)"
    ParenthesesNeg,
    /// "$10.00", the sign shown by styling only
    ColorOnly,
}

/// Display preferences of the transaction table.
#[derive(Clone, Copy, Debug, PartialEq, Eq, Structural)]
pub struct TransactionTableConfig {
    pub show_currency_symbol: bool,
    pub decimal_places: u8,
    pub date_format: DateFormat,
    pub amount_format: AmountFormat,
}

impl TransactionTableConfig {
    pub open spec fn default_spec() -> Self {
        TransactionTableConfig {
            show_currency_symbol: true,
            decimal_places: 2,
            date_format: DateFormat::MonthDayYear,
            amount_format: AmountFormat::PlusMinusSign,
        }
    }
}

impl Default for TransactionTableConfig {
    fn default() -> (r: Self)
        ensures
            r == Self::default_spec(),
    {
        TransactionTableConfig {
            show_currency_symbol: true,
            decimal_places: 2,
            date_format: DateFormat::MonthDayYear,
            amount_format: AmountFormat::PlusMinusSign,
        }
    }
}

/// Sign class of an amount, used for styling.
#[derive(Clone, Copy, Debug, PartialEq, Eq, Structural)]
pub enum AmountType {
    Positive,
    Negative,
    Zero,
}

/// Why transaction form input was rejected.
#[derive(Clone, Debug)]
pub enum ValidationError {
    EmptyDescription,
    DescriptionTooLong(usize),
    InvalidAmount(String),
    AmountNotPositive,
    AmountTooLarge,
    AmountTooSmall,
}

/// The date text for a timestamp in a given format; the timestamp itself
/// when it does not start with a date.
pub open spec fn table_date_spec(format: DateFormat, s: Seq<char>) -> Seq<char> {
    match parse_date_spec(s) {
        Some((y, m, d)) => match format {
            DateFormat::MonthDayYear => month_name_spec(m) + " "@ + decimal(d as nat) + ", "@
                + decimal(y as nat),
            DateFormat::ShortDate => zero_pad(decimal(m as nat), 2) + "/"@ + zero_pad(
                decimal(d as nat),
                2,
            ) + "/"@ + decimal(y as nat),
            DateFormat::ISO => decimal(y as nat) + "-"@ + zero_pad(decimal(m as nat), 2) + "-"@
                + zero_pad(decimal(d as nat), 2),
        },
        None => s,
    }
}

pub open spec fn validation_message_spec(e: ValidationError) -> Seq<char> {
    match e {
        ValidationError::EmptyDescription => "Please enter a description"@,
        ValidationError::DescriptionTooLong(len) => "Description is too long ("@ + decimal(
            len as nat,
        ) + " characters). Maximum is 256."@,
        ValidationError::InvalidAmount(msg) => "Please enter a valid amount (like 5 or 5.00): "@
            + msg@,
        ValidationError::AmountNotPositive => "Amount must be greater than 0"@,
        ValidationError::AmountTooLarge => "Amount is too large. Maximum is $1,000,000"@,
        ValidationError::AmountTooSmall => "Amount is too small. Minimum is $0.01"@,
    }
}

/// The description rule of the transaction form: blank after trimming is
/// empty; more than 256 bytes (untrimmed) is too long.
pub open spec fn description_error_spec(description: &str) -> Option<ValidationError> {
    if trim_spec(description@).len() == 0 {
        Some(ValidationError::EmptyDescription)
    } else if byte_len(description) > 256 {
        Some(ValidationError::DescriptionTooLong(byte_len(description)))
    } else {
        None
    }
}

/// How an amount is shown, given its magnitude already written with its
/// decimals (`"10.00"`) and whether it is negative: the currency symbol
/// when configured, then the sign as the amount format asks.
pub open spec fn amount_text_spec(config: TransactionTableConfig, magnitude: Seq<char>, negative: bool) -> Seq<
    char,
> {
    let value = if config.show_currency_symbol {
        "$"@ + magnitude
    } else {
        magnitude
    };
    match config.amount_format {
        AmountFormat::PlusMinusSign => if negative {
            "-"@ + value
        } else {
            "+"@ + value
        },
        AmountFormat::ParenthesesNeg => if negative {
            "("@ + value + ")"@
        } else {
            value
        },
        AmountFormat::ColorOnly => value,
    }
}

pub open spec fn css_class_spec(t: AmountType) -> Seq<char> {
    match t {
        AmountType::Positive => "amount positive"@,
        AmountType::Negative => "amount negative"@,
        AmountType::Zero => "amount zero"@,
    }
}

/// Formatting and validation for the transaction table.
#[derive(Clone, Copy)]
pub struct TransactionTableService {
    config: TransactionTableConfig,
}

impl TransactionTableService {
    pub closed spec fn config_spec(&self) -> TransactionTableConfig {
        self.config
    }

    /// A service with the default configuration.
    pub fn new() -> (r: Self)
        ensures
            r.config_spec() == TransactionTableConfig::default_spec(),
    {
        TransactionTableService { config: TransactionTableConfig::default() }
    }

    pub fn with_config(config: TransactionTableConfig) -> (r: Self)
        ensures
            r.config_spec() == config,
    {
        TransactionTableService { config }
    }

    pub fn config(&self) -> (r: TransactionTableConfig)
        ensures
            r == self.config_spec(),
    {
        self.config
    }

    /// Writes the date of a timestamp in the configured format.
    pub fn format_date(&self, rfc3339_date: &str) -> (r: String)
        ensures
            r@ == table_date_spec(self.config_spec().date_format, rfc3339_date@),
    {
        let mut out = String::new();
        match parse_date(rfc3339_date) {
            Some((year, month, day)) => {
                match self.config.date_format {
                    DateFormat::MonthDayYear => {
                        push_str(&mut out, month_name_of(month));
                        push_str(&mut out, " ");
                        push_decimal(&mut out, day as u64);
                        push_str(&mut out, ", ");
                        push_decimal(&mut out, year as u64);
                    },
                    DateFormat::ShortDate => {
                        push_zero_padded(&mut out, month, 2);
                        push_str(&mut out, "/");
                        push_zero_padded(&mut out, day, 2);
                        push_str(&mut out, "/");
                        push_decimal(&mut out, year as u64);
                    },
                    DateFormat::ISO => {
                        push_decimal(&mut out, year as u64);
                        push_str(&mut out, "-");
                        push_zero_padded(&mut out, month, 2);
                        push_str(&mut out, "-");
                        push_zero_padded(&mut out, day, 2);
                    },
                }
            },
            None => {
                push_str(&mut out, rfc3339_date);
            },
        }
        out
    }

    /// The `(year, month, day)` at the start of an RFC 3339 timestamp.
    pub fn parse_date(&self, date_str: &str) -> (r: Option<(u32, u32, u32)>)
        ensures
            r == parse_date_spec(date_str@),
    {
        parse_date(date_str)
    }

    /// English name of a month (1 to 12), "Invalid Month" otherwise.
    pub fn month_name(&self, month: u32) -> (r: &'static str)
        ensures
            r@ == month_name_spec(month),
    {
        month_name_of(month)
    }

    /// The amount text with surrounding whitespace trimmed and every `$`,
    /// `,` and space removed, ready to be read as a number.
    pub fn clean_amount_input(&self, amount_input: &str) -> (r: String)
        ensures
            r@ == cleaned_amount_spec(amount_input@),
    {
        let t = trim(amount_input);
        let v = chars_of(t.as_str());
        let mut out = String::new();
        let mut i: usize = 0;
        while i < v.len()
            invariant
                i <= v.len(),
                v@ == trim_spec(amount_input@),
                out@ == drop_amount_noise(v@.take(i as int)),
            decreases v.len() - i,
        {
            let c = v[i];
            assert(v@.take(i + 1).drop_last() =~= v@.take(i as int));
            if !(c == '$' || c == ',' || c == ' ') {
                push_char(&mut out, c);
            }
            i += 1;
        }
        assert(v@.take(i as int) =~= v@);
        out
    }

    /// The check that the transaction form makes on a description.
    pub fn description_error(&self, description: &str) -> (r: Option<ValidationError>)
        ensures
            r == description_error_spec(description),
    {
        let t = trim(description);
        let n = description.len();
        if t.as_str().is_empty() {
            Some(ValidationError::EmptyDescription)
        } else if n > 256 {
            Some(ValidationError::DescriptionTooLong(n))
        } else {
            None
        }
    }

    /// Shows an amount from its magnitude written with its decimals and
    /// its sign (see `amount_text_spec`).
    pub fn format_amount_text(&self, magnitude: &str, negative: bool) -> (r: String)
        ensures
            r@ == amount_text_spec(self.config_spec(), magnitude@, negative),
    {
        let mut value = String::new();
        if self.config.show_currency_symbol {
            push_str(&mut value, "$");
        }
        push_str(&mut value, magnitude);
        let mut out = String::new();
        match self.config.amount_format {
            AmountFormat::PlusMinusSign => {
                if negative {
                    push_str(&mut out, "-");
                } else {
                    push_str(&mut out, "+");
                }
                push_str(&mut out, value.as_str());
            },
            AmountFormat::ParenthesesNeg => {
                if negative {
                    push_str(&mut out, "(");
                    push_str(&mut out, value.as_str());
                    push_str(&mut out, ")");
                } else {
                    push_str(&mut out, value.as_str());
                }
            },
            AmountFormat::ColorOnly => {
                push_str(&mut out, value.as_str());
            },
        }
        proof {
            reveal_strlit("$");
            reveal_strlit("-");
            reveal_strlit("+");
            reveal_strlit("(");
            reveal_strlit(")");
        }
        out
    }

    /// Shows a balance from its text with its decimals: the currency
    /// symbol first when configured.
    pub fn format_balance_text(&self, balance: &str) -> (r: String)
        ensures
            r@ == (if self.config_spec().show_currency_symbol {
                "$"@ + balance@
            } else {
                balance@
            }),
    {
        let mut out = String::new();
        if self.config.show_currency_symbol {
            push_str(&mut out, "$");
        }
        push_str(&mut out, balance);
        out
    }

    /// CSS class for an amount's sign class.
    pub fn css_class_for(&self, amount_type: AmountType) -> (r: &'static str)
        ensures
            r@ == css_class_spec(amount_type),
    {
        match amount_type {
            AmountType::Positive => "amount positive",
            AmountType::Negative => "amount negative",
            AmountType::Zero => "amount zero",
        }
    }

    /// The message shown for a validation error.
    pub fn validation_error_message(&self, error: &ValidationError) -> (r: String)
        ensures
            r@ == validation_message_spec(*error),
    {
        let mut out = String::new();
        match error {
            ValidationError::EmptyDescription => push_str(&mut out, "Please enter a description"),
            ValidationError::DescriptionTooLong(len) => {
                push_str(&mut out, "Description is too long (");
                push_decimal(&mut out, *len as u64);
                push_str(&mut out, " characters). Maximum is 256.");
            },
            ValidationError::InvalidAmount(msg) => {
                push_str(&mut out, "Please enter a valid amount (like 5 or 5.00): ");
                push_str(&mut out, msg.as_str());
            },
            ValidationError::AmountNotPositive => push_str(
                &mut out,
                "Amount must be greater than 0",
            ),
            ValidationError::AmountTooLarge => push_str(
                &mut out,
                "Amount is too large. Maximum is $1,000,000",
            ),
            ValidationError::AmountTooSmall => push_str(
                &mut out,
                "Amount is too small. Minimum is $0.01",
            ),
        }
        out
    }

    /// The messages for a list of validation errors, in order.
    pub fn validation_error_messages(&self, errors: &[ValidationError]) -> (r: Vec<String>)
        ensures
            r.len() == errors.len(),
            forall|i: int|
                0 <= i < errors.len() ==> (#[trigger] r@[i])@ == validation_message_spec(
                    errors@[i],
                ),
    {
        let mut r: Vec<String> = Vec::new();
        let mut i: usize = 0;
        while i < errors.len()
            invariant
                i <= errors.len(),
                r.len() == i,
                forall|k: int|
                    0 <= k < i ==> (#[trigger] r@[k])@ == validation_message_spec(errors@[k]),
            decreases errors.len() - i,
        {
            let m = self.validation_error_message(&errors[i]);
            r.push(m);
            i += 1;
        }
        r
    }
}

} // verus!
