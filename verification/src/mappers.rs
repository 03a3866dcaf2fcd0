//! Conversions between the records exchanged with the user interface and
//! the domain records: transaction kinds and children.
use vstd::prelude::*;
use chrono::{DateTime, NaiveDate, Utc};
use crate::dates::{format_ymd, valid_date, ymd_text, Date};
use crate::text::owned;

verus! {

/// Kind of a transaction in the domain.
#[derive(Clone, Copy, Debug, PartialEq, Eq, Structural)]
pub enum DomainTransactionType {
    Income,
    Expense,
    FutureAllowance,
}

/// Kind of a transaction as exchanged with the user interface.
#[derive(Clone, Copy, Debug, PartialEq, Eq, Structural)]
pub enum TransactionType {
    Income,
    Expense,
    FutureAllowance,
}

pub open spec fn to_domain_type_spec(t: TransactionType) -> DomainTransactionType {
    match t {
        TransactionType::Income => DomainTransactionType::Income,
        TransactionType::Expense => DomainTransactionType::Expense,
        TransactionType::FutureAllowance => DomainTransactionType::FutureAllowance,
    }
}

pub open spec fn to_dto_type_spec(t: DomainTransactionType) -> TransactionType {
    match t {
        DomainTransactionType::Income => TransactionType::Income,
        DomainTransactionType::Expense => TransactionType::Expense,
        DomainTransactionType::FutureAllowance => TransactionType::FutureAllowance,
    }
}

/// Maps transactions between their exchanged and domain forms.
pub struct TransactionMapper;

impl TransactionMapper {
    pub fn to_domain_type(dto_type: TransactionType) -> (r: DomainTransactionType)
        ensures
            r == to_domain_type_spec(dto_type),
    {
        match dto_type {
            TransactionType::Income => DomainTransactionType::Income,
            TransactionType::Expense => DomainTransactionType::Expense,
            TransactionType::FutureAllowance => DomainTransactionType::FutureAllowance,
        }
    }

    pub fn to_dto_type(domain_type: DomainTransactionType) -> (r: TransactionType)
        ensures
            r == to_dto_type_spec(domain_type),
    {
        match domain_type {
            DomainTransactionType::Income => TransactionType::Income,
            DomainTransactionType::Expense => TransactionType::Expense,
            DomainTransactionType::FutureAllowance => TransactionType::FutureAllowance,
        }
    }
}

/// Mapping a transaction kind to the domain and back gives it back.
pub proof fn lemma_transaction_type_round_trip(t: TransactionType)
    ensures
        to_dto_type_spec(to_domain_type_spec(t)) == t,
{
}

/// Mapping a domain transaction kind out and back gives it back.
pub proof fn lemma_domain_transaction_type_round_trip(t: DomainTransactionType)
    ensures
        to_domain_type_spec(to_dto_type_spec(t)) == t,
{
}

/// A child as exchanged with the user interface: every field is text.
#[derive(Clone, Debug)]
pub struct ChildDto {
    pub id: String,
    pub name: String,
    pub birthdate: String,
    pub created_at: String,
    pub updated_at: String,
}

/// A child in the domain: the birthdate as a date, the timestamps as
/// RFC 3339 text in UTC.
#[derive(Clone, Debug)]
pub struct DomainChild {
    pub id: String,
    pub name: String,
    pub birthdate: Date,
    pub created_at: String,
    pub updated_at: String,
}

/// What chrono's `NaiveDate::parse_from_str(s, "%Y-%m-%d")` reads from a
/// text, as (year, month, day).
pub uninterp spec fn chrono_ymd_parse(s: Seq<char>) -> Option<(i32, u32, u32)>;

/// What chrono's `DateTime::parse_from_rfc3339` followed by conversion to
/// UTC and `to_rfc3339` gives for a text: the same instant written in UTC.
pub uninterp spec fn chrono_rfc3339_utc(s: Seq<char>) -> Option<Seq<char>>;

/// chrono's `NaiveDate::parse_from_str(s, "%Y-%m-%d")`. Claimed: the
/// result is `chrono_ymd_parse(s)`, and a date it reads is a valid one.
#[verifier::external_body]
pub(crate) fn parse_ymd(s: &str) -> (r: Option<Date>)
    ensures
        match r {
            Some(d) => chrono_ymd_parse(s@) == Some((d.year, d.month, d.day)) && valid_date(d),
            None => chrono_ymd_parse(s@) is None,
        },
{
    match NaiveDate::parse_from_str(s, "%Y-%m-%d") {
        Ok(d) => Some(Date { year: chrono::Datelike::year(&d), month: chrono::Datelike::month(&d), day: chrono::Datelike::day(&d) }),
        Err(_) => None,
    }
}

/// chrono's RFC 3339 reading, conversion to UTC and RFC 3339 writing.
/// Claimed: the result is `chrono_rfc3339_utc(s)`.
#[verifier::external_body]
fn rfc3339_in_utc(s: &str) -> (r: Option<String>)
    ensures
        match r {
            Some(t) => chrono_rfc3339_utc(s@) == Some(t@),
            None => chrono_rfc3339_utc(s@) is None,
        },
{
    match DateTime::parse_from_rfc3339(s) {
        Ok(dt) => Some(dt.with_timezone(&Utc).to_rfc3339()),
        Err(_) => None,
    }
}

/// Why an exchanged child could not be read.
#[derive(Clone, Copy, Debug, PartialEq, Eq, Structural)]
pub enum ChildMappingError {
    Birthdate,
    CreatedAt,
    UpdatedAt,
}

pub open spec fn child_mapping_message_spec(e: ChildMappingError) -> Seq<char> {
    match e {
        ChildMappingError::Birthdate => "Failed to parse birthdate from shared DTO"@,
        ChildMappingError::CreatedAt => "Failed to parse created_at from shared DTO"@,
        ChildMappingError::UpdatedAt => "Failed to parse updated_at from shared DTO"@,
    }
}

impl ChildMappingError {
    pub fn message(&self) -> (r: &'static str)
        ensures
            r@ == child_mapping_message_spec(*self),
    {
        match self {
            ChildMappingError::Birthdate => "Failed to parse birthdate from shared DTO",
            ChildMappingError::CreatedAt => "Failed to parse created_at from shared DTO",
            ChildMappingError::UpdatedAt => "Failed to parse updated_at from shared DTO",
        }
    }
}

/// Maps children between their exchanged and domain forms.
pub struct ChildMapper;

impl ChildMapper {
    /// Reads an exchanged child: the birthdate as `YYYY-MM-DD`, the
    /// timestamps as RFC 3339 (kept in UTC); the first field that does not
    /// read is reported.
    pub fn to_domain(dto: ChildDto) -> (r: Result<DomainChild, ChildMappingError>)
        ensures
            chrono_ymd_parse(dto.birthdate@) is None ==> r == Err::<DomainChild, _>(
                ChildMappingError::Birthdate,
            ),
            chrono_ymd_parse(dto.birthdate@) is Some && chrono_rfc3339_utc(dto.created_at@) is None
                ==> r == Err::<DomainChild, _>(ChildMappingError::CreatedAt),
            chrono_ymd_parse(dto.birthdate@) is Some && chrono_rfc3339_utc(dto.created_at@) is Some
                && chrono_rfc3339_utc(dto.updated_at@) is None ==> r == Err::<DomainChild, _>(
                ChildMappingError::UpdatedAt,
            ),
            r matches Ok(c) ==> {
                &&& c.id == dto.id
                &&& c.name == dto.name
                &&& chrono_ymd_parse(dto.birthdate@) == Some(
                    (c.birthdate.year, c.birthdate.month, c.birthdate.day),
                )
                &&& valid_date(c.birthdate)
                &&& chrono_rfc3339_utc(dto.created_at@) == Some(c.created_at@)
                &&& chrono_rfc3339_utc(dto.updated_at@) == Some(c.updated_at@)
            },
            (chrono_ymd_parse(dto.birthdate@) is Some && chrono_rfc3339_utc(dto.created_at@) is Some
                && chrono_rfc3339_utc(dto.updated_at@) is Some) ==> r is Ok,
    {
        let birthdate = match parse_ymd(dto.birthdate.as_str()) {
            Some(d) => d,
            None => return Err(ChildMappingError::Birthdate),
        };
        let created_at = match rfc3339_in_utc(dto.created_at.as_str()) {
            Some(t) => t,
            None => return Err(ChildMappingError::CreatedAt),
        };
        let updated_at = match rfc3339_in_utc(dto.updated_at.as_str()) {
            Some(t) => t,
            None => return Err(ChildMappingError::UpdatedAt),
        };
        Ok(DomainChild { id: dto.id, name: dto.name, birthdate, created_at, updated_at })
    }

    /// Writes a domain child for exchange: the birthdate as `YYYY-MM-DD`,
    /// the timestamps as they are kept.
    pub fn to_dto(domain: DomainChild) -> (r: ChildDto)
        requires
            valid_date(domain.birthdate),
        ensures
            r.id == domain.id,
            r.name == domain.name,
            r.birthdate@ == ymd_text(domain.birthdate),
            r.created_at == domain.created_at,
            r.updated_at == domain.updated_at,
    {
        let birthdate = format_ymd(domain.birthdate);
        ChildDto {
            id: domain.id,
            name: domain.name,
            birthdate,
            created_at: domain.created_at,
            updated_at: domain.updated_at,
        }
    }

    /// The answer after a child was made the active one.
    pub fn set_active_child_message() -> (r: String)
        ensures
            r@ == "Active child has been set successfully."@,
    {
        owned("Active child has been set successfully.")
    }
}

} // verus!
