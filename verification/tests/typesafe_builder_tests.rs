use rust_higher_kined_types::custom_types::typesafe_builder::{Person, PersonBuilder};

#[test]
fn a_builder_with_all_fields_builds_the_person() {
    let person: Person = PersonBuilder::new()
        .name("Alice".to_string())
        .age(30)
        .email("alice@example.com".to_string())
        .build();
    assert_eq!(person.name(), "Alice");
    assert_eq!(person.age(), 30);
    assert_eq!(person.email(), "alice@example.com");
    let copy = person.clone();
    assert_eq!(copy.name(), "Alice");
    assert_eq!(copy.age(), 30);
    assert_eq!(copy.email(), "alice@example.com");
}

#[test]
fn fields_can_be_given_in_any_order() {
    let person = PersonBuilder::new()
        .email("bob@example.com".to_string())
        .age(0)
        .name("Bob".to_string())
        .build();
    assert_eq!(person.name(), "Bob");
    assert_eq!(person.age(), 0);
    assert_eq!(person.email(), "bob@example.com");
}

#[test]
fn a_builder_tells_which_fields_were_given() {
    let builder = PersonBuilder::new();
    assert!(!builder.has_name());
    assert!(!builder.has_age());
    assert!(!builder.has_email());
    let builder = builder.age(41);
    assert!(!builder.has_name());
    assert!(builder.has_age());
    assert!(!builder.has_email());
    let builder = builder.name("Carol".to_string());
    assert!(builder.has_name());
    assert!(builder.has_age());
    assert!(!builder.has_email());
    let builder = builder.email("carol@example.com".to_string());
    assert!(builder.has_name());
    assert!(builder.has_age());
    assert!(builder.has_email());
    let person = builder.build();
    assert_eq!(person.age(), 41);
}
