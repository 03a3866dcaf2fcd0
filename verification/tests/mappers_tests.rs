use allowance_tracker::dates::Date;
use allowance_tracker::mappers::{
    ChildDto, ChildMapper, ChildMappingError, DomainChild, DomainTransactionType,
    TransactionMapper, TransactionType,
};

fn dto(birthdate: &str, created: &str, updated: &str) -> ChildDto {
    ChildDto {
        id: "child::123456789".to_string(),
        name: "Test Child".to_string(),
        birthdate: birthdate.to_string(),
        created_at: created.to_string(),
        updated_at: updated.to_string(),
    }
}

#[test]
fn transaction_types_map_both_ways() {
    for t in [TransactionType::Income, TransactionType::Expense, TransactionType::FutureAllowance] {
        assert_eq!(TransactionMapper::to_dto_type(TransactionMapper::to_domain_type(t)), t);
    }
    assert_eq!(TransactionMapper::to_domain_type(TransactionType::Expense), DomainTransactionType::Expense);
    assert_eq!(
        TransactionMapper::to_dto_type(DomainTransactionType::FutureAllowance),
        TransactionType::FutureAllowance
    );
}

#[test]
fn child_to_domain_reads_dates() {
    let child = ChildMapper::to_domain(dto("2010-05-15", "2025-01-21T12:00:00Z", "2025-01-21T07:00:00-05:00")).unwrap();
    assert_eq!(child.id, "child::123456789");
    assert_eq!(child.name, "Test Child");
    assert_eq!(child.birthdate, Date { year: 2010, month: 5, day: 15 });
    assert_eq!(child.created_at, "2025-01-21T12:00:00+00:00");
    assert_eq!(child.updated_at, "2025-01-21T12:00:00+00:00");
}

#[test]
fn child_to_domain_reports_the_first_bad_field() {
    assert_eq!(
        ChildMapper::to_domain(dto("2010/05/15", "bad", "bad")).unwrap_err(),
        ChildMappingError::Birthdate
    );
    assert_eq!(
        ChildMapper::to_domain(dto("2010-02-30", "2025-01-21T12:00:00Z", "2025-01-21T12:00:00Z")).unwrap_err(),
        ChildMappingError::Birthdate
    );
    assert_eq!(
        ChildMapper::to_domain(dto("2010-05-15", "yesterday", "bad")).unwrap_err(),
        ChildMappingError::CreatedAt
    );
    assert_eq!(
        ChildMapper::to_domain(dto("2010-05-15", "2025-01-21T12:00:00Z", "later")).unwrap_err(),
        ChildMappingError::UpdatedAt
    );
    assert_eq!(ChildMappingError::UpdatedAt.message(), "Failed to parse updated_at from shared DTO");
}

#[test]
fn child_to_dto_writes_the_birthdate() {
    let domain = DomainChild {
        id: "c1".to_string(),
        name: "Ana".to_string(),
        birthdate: Date { year: 2015, month: 3, day: 3 },
        created_at: "2025-01-01T00:00:00+00:00".to_string(),
        updated_at: "2025-01-02T00:00:00+00:00".to_string(),
    };
    let out = ChildMapper::to_dto(domain);
    assert_eq!(out.birthdate, "2015-03-03");
    assert_eq!(out.created_at, "2025-01-01T00:00:00+00:00");
    assert_eq!(out.updated_at, "2025-01-02T00:00:00+00:00");
    assert_eq!(ChildMapper::set_active_child_message(), "Active child has been set successfully.");
}
