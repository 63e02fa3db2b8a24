use directory::principal::Type;
use directory::update::{
    validate_all, PrincipalAction, PrincipalField, PrincipalUpdate, PrincipalValue, UpdateError,
    ValueKind,
};

fn all_fields() -> Vec<PrincipalField> {
    vec![
        PrincipalField::Name,
        PrincipalField::Type,
        PrincipalField::Quota,
        PrincipalField::Description,
        PrincipalField::Secrets,
        PrincipalField::Emails,
        PrincipalField::MemberOf,
    ]
}

fn one_of_each_kind() -> Vec<PrincipalValue> {
    vec![
        PrincipalValue::String("x".to_string()),
        PrincipalValue::StringList(vec!["x".to_string(), "y".to_string()]),
        PrincipalValue::Integer(7),
        PrincipalValue::Type(Type::Group),
    ]
}

#[test]
fn constructors_keep_their_parts() {
    let u = PrincipalUpdate::set(PrincipalField::Quota, PrincipalValue::Integer(5));
    assert_eq!(u.action(), PrincipalAction::SetValue);
    assert_eq!(u.field(), PrincipalField::Quota);
    assert_eq!(u.value(), &PrincipalValue::Integer(5));
    let u = PrincipalUpdate::add_item(PrincipalField::Emails, PrincipalValue::String("a@b".into()));
    assert_eq!(u.action(), PrincipalAction::AddItem);
    assert_eq!(u.field(), PrincipalField::Emails);
    assert_eq!(u.value(), &PrincipalValue::String("a@b".into()));
    let u = PrincipalUpdate::remove_item(
        PrincipalField::MemberOf,
        PrincipalValue::String("staff".into()),
    );
    assert_eq!(u.action(), PrincipalAction::RemoveItem);
    assert_eq!(u.field(), PrincipalField::MemberOf);
    assert_eq!(u.value(), &PrincipalValue::String("staff".into()));
}

#[test]
fn quota_with_string_list_is_rejected() {
    let u = PrincipalUpdate::set(
        PrincipalField::Quota,
        PrincipalValue::StringList(vec!["1".to_string()]),
    );
    assert_eq!(u.validate(), Err(UpdateError::ValueMismatch));
}

#[test]
fn add_item_on_scalar_field_is_rejected() {
    for field in [
        PrincipalField::Name,
        PrincipalField::Type,
        PrincipalField::Quota,
        PrincipalField::Description,
    ] {
        for value in one_of_each_kind() {
            assert_eq!(
                PrincipalUpdate::add_item(field, value.clone()).validate(),
                Err(UpdateError::NotAList)
            );
            assert_eq!(
                PrincipalUpdate::remove_item(field, value).validate(),
                Err(UpdateError::NotAList)
            );
        }
    }
}

#[test]
fn set_takes_the_shape_of_the_field_only() {
    let wanted = [
        (PrincipalField::Name, ValueKind::String),
        (PrincipalField::Type, ValueKind::Type),
        (PrincipalField::Quota, ValueKind::Integer),
        (PrincipalField::Description, ValueKind::String),
        (PrincipalField::Secrets, ValueKind::StringList),
        (PrincipalField::Emails, ValueKind::StringList),
        (PrincipalField::MemberOf, ValueKind::StringList),
    ];
    for (field, kind) in wanted {
        assert_eq!(field.value_kind(), kind);
        for value in one_of_each_kind() {
            let expected = if value.kind() == kind { Ok(()) } else { Err(UpdateError::ValueMismatch) };
            assert_eq!(PrincipalUpdate::set(field, value).validate(), expected);
        }
    }
}

#[test]
fn item_actions_take_one_string_on_list_fields() {
    for field in [PrincipalField::Secrets, PrincipalField::Emails, PrincipalField::MemberOf] {
        assert!(field.holds_list());
        for value in one_of_each_kind() {
            let expected = if value.kind() == ValueKind::String {
                Ok(())
            } else {
                Err(UpdateError::ValueMismatch)
            };
            assert_eq!(PrincipalUpdate::add_item(field, value.clone()).validate(), expected);
            assert_eq!(PrincipalUpdate::remove_item(field, value).validate(), expected);
        }
    }
}

#[test]
fn field_tokens() {
    let words = ["name", "type", "quota", "description", "secrets", "emails", "memberOf"];
    for (field, word) in all_fields().into_iter().zip(words) {
        assert_eq!(field.as_str(), word);
        assert_eq!(PrincipalField::parse(word), Some(field));
    }
    assert_eq!(PrincipalField::parse("memberof"), None);
    assert_eq!(PrincipalField::parse("Name"), None);
    assert_eq!(PrincipalField::parse(""), None);
    assert_eq!(PrincipalField::parse("names"), None);
}

#[test]
fn action_tokens() {
    let all = [
        (PrincipalAction::SetValue, "set"),
        (PrincipalAction::AddItem, "addItem"),
        (PrincipalAction::RemoveItem, "removeItem"),
    ];
    for (action, word) in all {
        assert_eq!(action.as_str(), word);
        assert_eq!(PrincipalAction::parse(word), Some(action));
    }
    assert_eq!(PrincipalAction::parse("additem"), None);
    assert_eq!(PrincipalAction::parse("se"), None);
}

#[test]
fn a_batch_is_taken_only_as_a_whole() {
    let good = PrincipalUpdate::set(PrincipalField::Quota, PrincipalValue::Integer(1));
    let mismatch = PrincipalUpdate::set(PrincipalField::Quota, PrincipalValue::String("1".into()));
    let scalar = PrincipalUpdate::add_item(PrincipalField::Name, PrincipalValue::String("x".into()));
    assert_eq!(validate_all(&vec![]), Ok(()));
    assert_eq!(validate_all(&vec![good.clone(), good.clone()]), Ok(()));
    assert_eq!(
        validate_all(&vec![good.clone(), mismatch.clone(), scalar.clone()]),
        Err(UpdateError::ValueMismatch)
    );
    assert_eq!(
        validate_all(&vec![scalar, good.clone(), mismatch]),
        Err(UpdateError::NotAList)
    );
}
