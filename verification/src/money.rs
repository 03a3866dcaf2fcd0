//! The add-money and spend-money forms: their state transitions, the
//! description rule, the cleaning of the amount text, and the suggested
//! descriptions.
use vstd::prelude::*;
use crate::storage::{replace_spec, replace_text};
use crate::timestamps::{transaction_date_check_spec, validate_transaction_date};
use crate::text::{decimal, owned, push_decimal, push_str, trim, trim_spec, utf8_len};

verus! {

/// What the money form shows.
#[derive(Clone, Debug)]
pub struct MoneyFormState {
    pub description: String,
    pub amount_input: String,
    pub is_submitting: bool,
    pub error_message: Option<String>,
    pub success_message: Option<String>,
    pub show_success: bool,
}

/// An empty form.
pub fn create_form_state() -> (r: MoneyFormState)
    ensures
        r.description@ == Seq::<char>::empty(),
        r.amount_input@ == Seq::<char>::empty(),
        !r.is_submitting,
        r.error_message is None,
        r.success_message is None,
        !r.show_success,
{
    MoneyFormState {
        description: String::new(),
        amount_input: String::new(),
        is_submitting: false,
        error_message: None,
        success_message: None,
        show_success: false,
    }
}

/// The form after a successful submission: emptied, showing the message.
pub fn clear_form_after_success(state: MoneyFormState, success_message: String) -> (r:
    MoneyFormState)
    ensures
        r.description@ == Seq::<char>::empty(),
        r.amount_input@ == Seq::<char>::empty(),
        !r.is_submitting,
        r.error_message is None,
        r.success_message == Some(success_message),
        r.show_success,
{
    let mut s = state;
    s.description = String::new();
    s.amount_input = String::new();
    s.is_submitting = false;
    s.error_message = None;
    s.success_message = Some(success_message);
    s.show_success = true;
    s
}

/// The form while it is being submitted: no error or success shown.
pub fn set_form_submitting(state: MoneyFormState) -> (r: MoneyFormState)
    ensures
        r.description == state.description,
        r.amount_input == state.amount_input,
        r.is_submitting,
        r.error_message is None,
        r.success_message == state.success_message,
        !r.show_success,
{
    let mut s = state;
    s.is_submitting = true;
    s.error_message = None;
    s.show_success = false;
    s
}

/// The form after a failed submission, showing the error.
pub fn set_form_error(state: MoneyFormState, error_message: String) -> (r: MoneyFormState)
    ensures
        r.description == state.description,
        r.amount_input == state.amount_input,
        !r.is_submitting,
        r.error_message == Some(error_message),
        r.success_message == state.success_message,
        !r.show_success,
{
    let mut s = state;
    s.is_submitting = false;
    s.error_message = Some(error_message);
    s.show_success = false;
    s
}

/// The form after validation: no error when the input is valid, else the
/// first error's message.
pub fn update_form_state_with_validation(
    state: MoneyFormState,
    is_valid: bool,
    first_error_message: Option<String>,
) -> (r: MoneyFormState)
    ensures
        r.description == state.description,
        r.amount_input == state.amount_input,
        r.is_submitting == state.is_submitting,
        r.error_message == (if is_valid {
            None
        } else {
            first_error_message
        }),
        r.success_message == state.success_message,
        r.show_success == state.show_success,
{
    let mut s = state;
    if is_valid {
        s.error_message = None;
    } else {
        s.error_message = first_error_message;
    }
    s
}

/// Which money form is being filled.
#[derive(Clone, Copy, Debug, PartialEq, Eq, Structural)]
pub enum MoneyForm {
    AddMoney,
    SpendMoney,
}

/// What is wrong with a form's description.
#[derive(Clone, Copy, Debug, PartialEq, Eq, Structural)]
pub enum DescriptionProblem {
    Empty,
    TooLong(usize),
}

/// The description rule: blank once trimmed, or a trimmed text longer
/// (in bytes) than `max_length`.
pub open spec fn description_problem_spec(description: Seq<char>, max_length: usize) -> Option<
    DescriptionProblem,
> {
    let t = trim_spec(description);
    if t.len() == 0 {
        Some(DescriptionProblem::Empty)
    } else if utf8_len(t) > max_length {
        Some(DescriptionProblem::TooLong(utf8_len(t)))
    } else {
        None
    }
}

/// Checks a form's description.
pub fn description_problem(description: &str, max_length: usize) -> (r: Option<DescriptionProblem>)
    ensures
        r == description_problem_spec(description@, max_length),
{
    let t = trim(description);
    let n = t.as_str().len();
    if t.as_str().is_empty() {
        Some(DescriptionProblem::Empty)
    } else if n > max_length {
        Some(DescriptionProblem::TooLong(n))
    } else {
        None
    }
}

pub open spec fn empty_description_hint_spec(form: MoneyForm) -> Seq<char> {
    match form {
        MoneyForm::AddMoney => "Try: Gift from grandma, gift from aunt..."@,
        MoneyForm::SpendMoney => "Try: Toy, book, game..."@,
    }
}

pub open spec fn empty_amount_hint_spec(form: MoneyForm) -> Seq<char> {
    match form {
        MoneyForm::AddMoney => "Enter a positive amount like $5.00 or $10"@,
        MoneyForm::SpendMoney => "Enter how much you spent, like $2.50 or $5"@,
    }
}

pub open spec fn invalid_amount_hint_spec(form: MoneyForm) -> Seq<char> {
    match form {
        MoneyForm::AddMoney => "Enter a valid number like $5.00 or $10"@,
        MoneyForm::SpendMoney => "Enter a valid number like $2.50 or $5"@,
    }
}

/// The hint shown when the description is blank.
pub fn empty_description_hint(form: MoneyForm) -> (r: String)
    ensures
        r@ == empty_description_hint_spec(form),
{
    match form {
        MoneyForm::AddMoney => owned("Try: Gift from grandma, gift from aunt..."),
        MoneyForm::SpendMoney => owned("Try: Toy, book, game..."),
    }
}

/// The hint shown when the amount is blank.
pub fn empty_amount_hint(form: MoneyForm) -> (r: String)
    ensures
        r@ == empty_amount_hint_spec(form),
{
    match form {
        MoneyForm::AddMoney => owned("Enter a positive amount like $5.00 or $10"),
        MoneyForm::SpendMoney => owned("Enter how much you spent, like $2.50 or $5"),
    }
}

/// The hint shown when the amount is not a number.
pub fn invalid_amount_hint(form: MoneyForm) -> (r: String)
    ensures
        r@ == invalid_amount_hint_spec(form),
{
    match form {
        MoneyForm::AddMoney => owned("Enter a valid number like $5.00 or $10"),
        MoneyForm::SpendMoney => owned("Enter a valid number like $2.50 or $5"),
    }
}

/// `s` with every occurrence of `pat` removed; an empty `pat` removes
/// nothing.
pub open spec fn remove_all_spec(s: Seq<char>, pat: Seq<char>) -> Seq<char> {
    if pat.len() == 0 {
        s
    } else {
        replace_spec(s, pat, Seq::empty())
    }
}

fn remove_all(s: &str, pat: &str) -> (r: String)
    ensures
        r@ == remove_all_spec(s@, pat@),
{
    if pat.is_empty() {
        owned(s)
    } else {
        let r = replace_text(s, pat, "");
        assert(""@ =~= Seq::<char>::empty()) by {
            reveal_strlit("");
        }
        r
    }
}

/// The amount text as the form cleans it: trimmed, then without the
/// currency symbol, commas and spaces.
pub open spec fn clean_money_spec(amount_input: Seq<char>, currency_symbol: Seq<char>) -> Seq<char> {
    remove_all_spec(
        remove_all_spec(remove_all_spec(trim_spec(amount_input), currency_symbol), ","@),
        " "@,
    )
}

/// Cleans the amount text before it is read as a number; an amount that
/// cleans to nothing is refused.
pub fn clean_money_amount(amount_input: &str, currency_symbol: &str) -> (r: Result<String, String>)
    ensures
        clean_money_spec(amount_input@, currency_symbol@).len() == 0 ==> (r matches Err(m) && m@
            == "Empty amount after cleaning"@),
        clean_money_spec(amount_input@, currency_symbol@).len() > 0 ==> (r matches Ok(c) && c@
            == clean_money_spec(amount_input@, currency_symbol@)),
{
    let t = trim(amount_input);
    let a = remove_all(t.as_str(), currency_symbol);
    let b = remove_all(a.as_str(), ",");
    let c = remove_all(b.as_str(), " ");
    if c.as_str().is_empty() {
        Err(owned("Empty amount after cleaning"))
    } else {
        Ok(c)
    }
}

/// Descriptions suggested for money received.
pub fn get_description_suggestions() -> (r: Vec<String>)
    ensures
        r.len() == 8,
        r@[0]@ == "Gift from grandma"@,
        r@[1]@ == "Gift from aunt"@,
        r@[2]@ == "Gift from uncle"@,
        r@[3]@ == "Birthday gift"@,
        r@[4]@ == "Chores completed"@,
        r@[5]@ == "Found money"@,
        r@[6]@ == "Allowance bonus"@,
        r@[7]@ == "Good grades reward"@,
{
    let mut v: Vec<String> = Vec::new();
    v.push(owned("Gift from grandma"));
    v.push(owned("Gift from aunt"));
    v.push(owned("Gift from uncle"));
    v.push(owned("Birthday gift"));
    v.push(owned("Chores completed"));
    v.push(owned("Found money"));
    v.push(owned("Allowance bonus"));
    v.push(owned("Good grades reward"));
    v
}

/// Descriptions suggested for money spent.
pub fn get_spending_suggestions() -> (r: Vec<String>)
    ensures
        r.len() == 10,
        r@[0]@ == "Toy"@,
        r@[1]@ == "Candy"@,
        r@[2]@ == "Book"@,
        r@[3]@ == "Game"@,
        r@[4]@ == "Snack"@,
        r@[5]@ == "Art supplies"@,
        r@[6]@ == "Small gift"@,
        r@[7]@ == "Trading cards"@,
        r@[8]@ == "App purchase"@,
        r@[9]@ == "Movie ticket"@,
{
    let mut v: Vec<String> = Vec::new();
    v.push(owned("Toy"));
    v.push(owned("Candy"));
    v.push(owned("Book"));
    v.push(owned("Game"));
    v.push(owned("Snack"));
    v.push(owned("Art supplies"));
    v.push(owned("Small gift"));
    v.push(owned("Trading cards"));
    v.push(owned("App purchase"));
    v.push(owned("Movie ticket"));
    v
}


/// What is wrong with a money form's input.
#[derive(Clone, Debug, PartialEq, Eq)]
pub enum MoneyValidationError {
    EmptyDescription,
    DescriptionTooLong(usize),
    EmptyAmount,
    InvalidAmountFormat(String),
    AmountNotPositive,
    AmountTooSmall,
    AmountTooLarge,
    AmountPrecisionTooHigh,
}

/// What reading the amount text gave. The number itself is a float the
/// caller holds; here are the comparisons the rules make on it.
#[derive(Clone, Debug)]
pub enum AmountReading {
    /// The text is blank once trimmed.
    Blank,
    /// The text did not read as a number; the reason.
    Unreadable(String),
    /// A number was read.
    Read { not_positive: bool, below_min: bool, above_max: bool, too_precise: bool },
}

/// The amount's objection and its hint, in the order the form checks:
/// blank, unreadable, not positive, below the minimum, above the maximum,
/// more than two decimals. `min_text` and `max_text` are the limits as
/// shown (currency symbol and two decimals).
pub open spec fn amount_problem_spec(
    form: MoneyForm,
    reading: AmountReading,
    min_text: Seq<char>,
    max_text: Seq<char>,
) -> Option<(MoneyValidationError, Seq<char>)> {
    match reading {
        AmountReading::Blank => Some((MoneyValidationError::EmptyAmount, empty_amount_hint_spec(form))),
        AmountReading::Unreadable(e) => Some(
            (MoneyValidationError::InvalidAmountFormat(e), invalid_amount_hint_spec(form)),
        ),
        AmountReading::Read { not_positive, below_min, above_max, too_precise } => {
            if not_positive {
                Some((MoneyValidationError::AmountNotPositive, "Amount must be greater than 0"@))
            } else if below_min {
                Some((MoneyValidationError::AmountTooSmall, "Minimum amount is "@ + min_text))
            } else if above_max {
                Some((MoneyValidationError::AmountTooLarge, "Maximum amount is "@ + max_text))
            } else if too_precise {
                Some(
                    (
                        MoneyValidationError::AmountPrecisionTooHigh,
                        "Use at most 2 decimal places (like $5.25)"@,
                    ),
                )
            } else {
                None
            }
        },
    }
}

/// The first look at the amount text: blank once trimmed, or cleaned to
/// nothing (unreadable), or the cleaned text to be read as a number.
pub fn amount_text(amount_input: &str, currency_symbol: &str) -> (r: Result<String, AmountReading>)
    ensures
        trim_spec(amount_input@).len() == 0 ==> (r matches Err(AmountReading::Blank)),
        trim_spec(amount_input@).len() > 0 && clean_money_spec(amount_input@, currency_symbol@).len()
            == 0 ==> (r matches Err(AmountReading::Unreadable(m)) && m@
            == "Empty amount after cleaning"@),
        trim_spec(amount_input@).len() > 0 && clean_money_spec(amount_input@, currency_symbol@).len()
            > 0 ==> (r matches Ok(c) && c@ == clean_money_spec(amount_input@, currency_symbol@)),
{
    let t = trim(amount_input);
    if t.as_str().is_empty() {
        return Err(AmountReading::Blank);
    }
    match clean_money_amount(amount_input, currency_symbol) {
        Ok(c) => Ok(c),
        Err(m) => Err(AmountReading::Unreadable(m)),
    }
}

/// The outcome of checking a money form.
#[derive(Clone, Debug)]
pub struct MoneyFormValidation {
    pub is_valid: bool,
    pub errors: Vec<MoneyValidationError>,
    pub suggestions: Vec<String>,
}

/// Checks a money form: the description (its objection, with a hint when
/// it is blank), then the amount (its objection with its hint). Valid when
/// neither objects.
pub fn validate_money_form(
    form: MoneyForm,
    description: &str,
    max_description_length: usize,
    reading: AmountReading,
    min_text: &str,
    max_text: &str,
) -> (r: MoneyFormValidation)
    ensures
        ({
            let d = description_problem_spec(description@, max_description_length);
            let a = amount_problem_spec(form, reading, min_text@, max_text@);
            let d_errors: Seq<MoneyValidationError> = match d {
                Some(DescriptionProblem::Empty) => seq![MoneyValidationError::EmptyDescription],
                Some(DescriptionProblem::TooLong(n)) => seq![MoneyValidationError::DescriptionTooLong(n)],
                None => Seq::empty(),
            };
            let d_hints: Seq<Seq<char>> = match d {
                Some(DescriptionProblem::Empty) => seq![empty_description_hint_spec(form)],
                _ => Seq::empty(),
            };
            let a_errors: Seq<MoneyValidationError> = match a {
                Some((e, _)) => seq![e],
                None => Seq::empty(),
            };
            let a_hints: Seq<Seq<char>> = match a {
                Some((_, h)) => seq![h],
                None => Seq::empty(),
            };
            &&& r.errors@ == d_errors + a_errors
            &&& r.suggestions@.map_values(|h: String| h@) == d_hints + a_hints
            &&& r.is_valid == (d is None && a is None)
        }),
{
    let mut errors: Vec<MoneyValidationError> = Vec::new();
    let mut suggestions: Vec<String> = Vec::new();
    match description_problem(description, max_description_length) {
        Some(DescriptionProblem::Empty) => {
            errors.push(MoneyValidationError::EmptyDescription);
            suggestions.push(empty_description_hint(form));
        },
        Some(DescriptionProblem::TooLong(n)) => {
            errors.push(MoneyValidationError::DescriptionTooLong(n));
        },
        None => {},
    }
    let ghost d_errors = errors@;
    let ghost d_hints = suggestions@.map_values(|h: String| h@);
    let ghost reading_spec = reading;
    match reading {
        AmountReading::Blank => {
            errors.push(MoneyValidationError::EmptyAmount);
            suggestions.push(empty_amount_hint(form));
        },
        AmountReading::Unreadable(e) => {
            errors.push(MoneyValidationError::InvalidAmountFormat(e));
            suggestions.push(invalid_amount_hint(form));
        },
        AmountReading::Read { not_positive, below_min, above_max, too_precise } => {
            if not_positive {
                errors.push(MoneyValidationError::AmountNotPositive);
                suggestions.push(owned("Amount must be greater than 0"));
            } else if below_min {
                errors.push(MoneyValidationError::AmountTooSmall);
                let mut h = owned("Minimum amount is ");
                push_str(&mut h, min_text);
                suggestions.push(h);
            } else if above_max {
                errors.push(MoneyValidationError::AmountTooLarge);
                let mut h = owned("Maximum amount is ");
                push_str(&mut h, max_text);
                suggestions.push(h);
            } else if too_precise {
                errors.push(MoneyValidationError::AmountPrecisionTooHigh);
                suggestions.push(owned("Use at most 2 decimal places (like $5.25)"));
            }
        },
    }
    proof {
        let a = amount_problem_spec(form, reading_spec, min_text@, max_text@);
        match a {
            Some((_, h)) => {
                assert(suggestions@.map_values(|h: String| h@) =~= d_hints + seq![h]);
            },
            None => {
                assert(suggestions@.map_values(|h: String| h@) =~= d_hints + Seq::<Seq<char>>::empty());
            },
        }
    }
    let is_valid = errors.len() == 0;
    MoneyFormValidation { is_valid, errors, suggestions }
}

/// Adds the transaction date's check to a money form's outcome: when a date
/// is given and `validate_transaction_date` refuses it (at the given moment),
/// its message is appended as an amount-format objection and the form is
/// no longer valid; otherwise the outcome is unchanged.
pub fn validate_money_form_with_date(
    validation: MoneyFormValidation,
    date: Option<&str>,
    now_secs: i64,
    now_nanos: u32,
) -> (r: MoneyFormValidation)
    ensures
        r.suggestions@ == validation.suggestions@,
        match date {
            Some(d) => match transaction_date_check_spec(d@, now_secs as int, now_nanos as int) {
                Err(m) => {
                    &&& r.errors@.len() == validation.errors@.len() + 1
                    &&& r.errors@.take(validation.errors@.len() as int) == validation.errors@
                    &&& (r.errors@.last() matches MoneyValidationError::InvalidAmountFormat(t) && t@ == m)
                    &&& !r.is_valid
                },
                Ok(()) => r.errors@ == validation.errors@ && r.is_valid == validation.is_valid,
            },
            None => r.errors@ == validation.errors@ && r.is_valid == validation.is_valid,
        },
{
    let MoneyFormValidation { is_valid, errors, suggestions } = validation;
    let mut errors = errors;
    let mut is_valid = is_valid;
    match date {
        Some(d) => match validate_transaction_date(d, now_secs, now_nanos) {
            Err(m) => {
                errors.push(MoneyValidationError::InvalidAmountFormat(m));
                is_valid = false;
            },
            Ok(()) => {},
        },
        None => {},
    }
    MoneyFormValidation { is_valid, errors, suggestions }
}

/// The message shown for a money form objection. `min_text` and
/// `max_text` are the limits as shown.
pub open spec fn money_error_message_spec(
    e: MoneyValidationError,
    max_description_length: usize,
    min_text: Seq<char>,
    max_text: Seq<char>,
) -> Seq<char> {
    match e {
        MoneyValidationError::EmptyDescription => "Please enter a description"@,
        MoneyValidationError::DescriptionTooLong(n) => "Description is too long ("@ + decimal(n as nat)
            + " characters). Maximum is "@ + decimal(max_description_length as nat) + "."@,
        MoneyValidationError::EmptyAmount => "Please enter an amount"@,
        MoneyValidationError::InvalidAmountFormat(m) => "Please enter a valid amount (like 5 or 5.00): "@
            + m@,
        MoneyValidationError::AmountNotPositive => "Amount must be greater than 0"@,
        MoneyValidationError::AmountTooSmall => "Amount is too small. Minimum is "@ + min_text,
        MoneyValidationError::AmountTooLarge => "Amount is too large. Maximum is "@ + max_text,
        MoneyValidationError::AmountPrecisionTooHigh =>
            "Amount has too many decimal places. Use at most 2 decimal places."@,
    }
}

/// The message shown for a money form objection.
pub fn money_error_message(
    e: &MoneyValidationError,
    max_description_length: usize,
    min_text: &str,
    max_text: &str,
) -> (r: String)
    ensures
        r@ == money_error_message_spec(*e, max_description_length, min_text@, max_text@),
{
    match e {
        MoneyValidationError::EmptyDescription => owned("Please enter a description"),
        MoneyValidationError::DescriptionTooLong(n) => {
            let mut m = owned("Description is too long (");
            push_decimal(&mut m, *n as u64);
            push_str(&mut m, " characters). Maximum is ");
            push_decimal(&mut m, max_description_length as u64);
            push_str(&mut m, ".");
            m
        },
        MoneyValidationError::EmptyAmount => owned("Please enter an amount"),
        MoneyValidationError::InvalidAmountFormat(msg) => {
            let mut m = owned("Please enter a valid amount (like 5 or 5.00): ");
            push_str(&mut m, msg.as_str());
            m
        },
        MoneyValidationError::AmountNotPositive => owned("Amount must be greater than 0"),
        MoneyValidationError::AmountTooSmall => {
            let mut m = owned("Amount is too small. Minimum is ");
            push_str(&mut m, min_text);
            m
        },
        MoneyValidationError::AmountTooLarge => {
            let mut m = owned("Amount is too large. Maximum is ");
            push_str(&mut m, max_text);
            m
        },
        MoneyValidationError::AmountPrecisionTooHigh => owned(
            "Amount has too many decimal places. Use at most 2 decimal places.",
        ),
    }
}

/// The quick check made while the amount is typed: blank, unreadable, not
/// positive or above the maximum (`max_text` as shown) are refused with a
/// short message.
pub fn realtime_amount_message(reading: &AmountReading, max_text: &str) -> (r: Option<String>)
    ensures
        match *reading {
            AmountReading::Blank => r matches Some(m) && m@ == "Enter an amount"@,
            AmountReading::Unreadable(_) => r matches Some(m) && m@ == "Invalid number"@,
            AmountReading::Read { not_positive, above_max, .. } => if not_positive {
                r matches Some(m) && m@ == "Must be greater than 0"@
            } else if above_max {
                r matches Some(m) && m@ == "Maximum is "@ + max_text@
            } else {
                r is None
            },
        },
{
    match reading {
        AmountReading::Blank => Some(owned("Enter an amount")),
        AmountReading::Unreadable(_) => Some(owned("Invalid number")),
        AmountReading::Read { not_positive, above_max, .. } => {
            if *not_positive {
                Some(owned("Must be greater than 0"))
            } else if *above_max {
                let mut m = owned("Maximum is ");
                push_str(&mut m, max_text);
                Some(m)
            } else {
                None
            }
        },
    }
}

} // verus!
