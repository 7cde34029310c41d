use kaoruko::catalog::{
    check, Attribute, CommandTable, Declaration, Fault, StringOption, SupportedArguments,
    SupportedStringArguments, Violation,
};
use kaoruko::roles::{AuthorizationContext, CommandError, Roles};

fn declaration(name: &str, attributes: Vec<Attribute>) -> Declaration {
    Declaration { name: name.to_string(), attributes }
}

fn alias(text: &str) -> Attribute {
    Attribute::Alias(text.to_string())
}

fn description(text: &str) -> Attribute {
    Attribute::Description(text.to_string())
}

fn roles(list: &[Roles]) -> Attribute {
    Attribute::Roles(list.to_vec())
}

fn sound() -> Vec<Declaration> {
    vec![
        declaration("Help", vec![alias("h"), description("get help"), roles(&[Roles::Anyone])]),
        declaration("Exit", vec![description("leave"), roles(&[Roles::Developer, Roles::Creator])]),
    ]
}

fn caller(roles: &[&str], id: Option<&str>, creator: &str) -> AuthorizationContext {
    AuthorizationContext {
        roles: roles.iter().map(|s| s.to_string()).collect(),
        id: id.map(|s| s.to_string()),
        room_creator: creator.to_string(),
    }
}

fn violation(command: usize, fault: Fault) -> Violation {
    Violation { command, fault }
}

#[test]
fn attribute_names_are_parsed() {
    assert_eq!(SupportedArguments::from_str("alias"), Ok(SupportedArguments::Alias));
    assert_eq!(SupportedArguments::from_str("description"), Ok(SupportedArguments::Description));
    assert_eq!(SupportedArguments::from_str("roles"), Ok(SupportedArguments::Roles));
    assert_eq!(SupportedArguments::from_str("string_options"), Ok(SupportedArguments::StringOptions));
    assert_eq!(SupportedArguments::from_str("unknown"), Err(()));
    assert_eq!(SupportedArguments::from_str("Alias"), Err(()));
    assert_eq!(SupportedArguments::from_str(""), Err(()));
}

#[test]
fn option_names_are_parsed() {
    assert_eq!(SupportedStringArguments::from_str("required"), Ok(SupportedStringArguments::Required));
    assert_eq!(
        SupportedStringArguments::from_str("allow_whitespaces"),
        Ok(SupportedStringArguments::AllowWhitespaces)
    );
    assert_eq!(SupportedStringArguments::from_str("optional"), Err(()));
}

#[test]
fn attributes_go_by_their_names() {
    assert_eq!(alias("a").key(), SupportedArguments::Alias);
    assert_eq!(description("d").key(), SupportedArguments::Description);
    assert_eq!(roles(&[]).key(), SupportedArguments::Roles);
    let options = Attribute::StringOptions(StringOption { required: true, allow_whitespaces: false });
    assert_eq!(options.key(), SupportedArguments::StringOptions);
}

#[test]
fn a_sound_catalog_has_no_violation() {
    assert_eq!(check(&sound()), Vec::new());
    assert_eq!(check(&Vec::new()), Vec::new());
    assert!(CommandTable::new(sound()).is_ok());
}

#[test]
fn a_table_holds_a_row_for_each_declaration() {
    let table = CommandTable::new(sound()).unwrap();
    let specs = table.specs();
    assert_eq!(specs.len(), 2);
    assert_eq!(specs[0].name, "Help");
    assert_eq!(specs[0].aliases, vec!["help".to_string(), "h".to_string()]);
    assert_eq!(specs[0].description, "get help");
    assert_eq!(specs[0].roles, vec![Roles::Anyone]);
    assert_eq!(specs[1].name, "Exit");
    assert_eq!(specs[1].aliases, vec!["exit".to_string()]);
    assert_eq!(specs[1].roles, vec![Roles::Developer, Roles::Creator]);
}

#[test]
fn a_duplicate_attribute_is_a_violation() {
    let declarations = vec![declaration(
        "Help",
        vec![description("one"), description("two"), roles(&[Roles::Anyone])],
    )];
    assert_eq!(
        check(&declarations),
        vec![violation(0, Fault::DuplicateAttribute(SupportedArguments::Description))]
    );
}

#[test]
fn a_missing_description_is_a_violation() {
    let declarations = vec![declaration("Help", vec![roles(&[Roles::Anyone])])];
    assert_eq!(
        check(&declarations),
        vec![violation(0, Fault::MissingAttribute(SupportedArguments::Description))]
    );
}

#[test]
fn missing_roles_are_a_violation() {
    let declarations = vec![declaration("Help", vec![description("d")])];
    assert_eq!(
        check(&declarations),
        vec![violation(0, Fault::MissingAttribute(SupportedArguments::Roles))]
    );
}

#[test]
fn an_empty_description_is_a_violation() {
    let declarations = vec![declaration("Help", vec![description(""), roles(&[Roles::Anyone])])];
    assert_eq!(check(&declarations), vec![violation(0, Fault::EmptyDescription)]);
}

#[test]
fn an_empty_list_of_roles_is_a_violation() {
    let declarations = vec![declaration("Help", vec![description("d"), roles(&[])])];
    assert_eq!(check(&declarations), vec![violation(0, Fault::NoRoles)]);
}

#[test]
fn an_empty_alias_is_a_violation() {
    let declarations =
        vec![declaration("Help", vec![alias(""), description("d"), roles(&[Roles::Anyone])])];
    assert_eq!(check(&declarations), vec![violation(0, Fault::EmptyAlias)]);
    let nameless = vec![declaration("", vec![description("d"), roles(&[Roles::Anyone])])];
    assert_eq!(check(&nameless), vec![violation(0, Fault::EmptyAlias)]);
}

#[test]
fn an_alias_given_twice_is_a_violation_of_both_commands() {
    let declarations = vec![
        declaration("Help", vec![alias("x"), description("d"), roles(&[Roles::Anyone])]),
        declaration("Exit", vec![description("d"), roles(&[Roles::Anyone])]),
        declaration("Hint", vec![alias("x"), description("d"), roles(&[Roles::Anyone])]),
    ];
    assert_eq!(
        check(&declarations),
        vec![violation(0, Fault::AliasTaken), violation(2, Fault::AliasTaken)]
    );
}

#[test]
fn an_alias_that_is_another_commands_lower_cased_name_is_taken() {
    let declarations = vec![
        declaration("Help", vec![alias("exit"), description("d"), roles(&[Roles::Anyone])]),
        declaration("EXIT", vec![description("d"), roles(&[Roles::Anyone])]),
    ];
    assert_eq!(
        check(&declarations),
        vec![violation(0, Fault::AliasTaken), violation(1, Fault::AliasTaken)]
    );
}

#[test]
fn an_alias_that_is_the_commands_own_lower_cased_name_is_taken() {
    let declarations =
        vec![declaration("Help", vec![alias("help"), description("d"), roles(&[Roles::Anyone])])];
    assert_eq!(check(&declarations), vec![violation(0, Fault::AliasTaken)]);
}

#[test]
fn all_violations_are_reported_together() {
    let declarations = vec![
        declaration("Help", vec![alias("h"), alias(""), description("")]),
        declaration("Exit", vec![alias("h"), roles(&[]), roles(&[Roles::Anyone])]),
    ];
    let found = check(&declarations);
    assert_eq!(
        found,
        vec![
            violation(0, Fault::DuplicateAttribute(SupportedArguments::Alias)),
            violation(0, Fault::MissingAttribute(SupportedArguments::Roles)),
            violation(0, Fault::EmptyDescription),
            violation(0, Fault::EmptyAlias),
            violation(0, Fault::AliasTaken),
            violation(1, Fault::DuplicateAttribute(SupportedArguments::Roles)),
            violation(1, Fault::MissingAttribute(SupportedArguments::Description)),
            violation(1, Fault::NoRoles),
            violation(1, Fault::AliasTaken),
        ]
    );
    match CommandTable::new(declarations) {
        Err(reported) => assert_eq!(reported, found),
        Ok(_) => panic!("a faulty catalog became a table"),
    }
}

#[test]
fn alias_and_lower_cased_name_resolve_to_the_same_command() {
    let table = CommandTable::new(sound()).unwrap();
    assert_eq!(table.resolve("h"), Ok(0));
    assert_eq!(table.resolve("help"), Ok(0));
    assert_eq!(table.resolve("exit"), Ok(1));
}

#[test]
fn an_undeclared_word_is_an_unknown_command() {
    let table = CommandTable::new(sound()).unwrap();
    assert_eq!(table.resolve("nope"), Err(CommandError::UnknownCommand));
    assert_eq!(table.resolve(""), Err(CommandError::UnknownCommand));
    assert_eq!(table.resolve("Help"), Err(CommandError::UnknownCommand));
    assert_eq!(table.resolve("H"), Err(CommandError::UnknownCommand));
    assert_eq!(table.resolve("help "), Err(CommandError::UnknownCommand));
}

#[test]
fn names_are_lower_cased_beyond_ascii() {
    let declarations =
        vec![declaration("ÉCOLE", vec![description("d"), roles(&[Roles::Anyone])])];
    let table = CommandTable::new(declarations).unwrap();
    assert_eq!(table.resolve("école"), Ok(0));
    assert_eq!(table.resolve("École"), Err(CommandError::UnknownCommand));
}

#[test]
fn describe_gives_the_help_text() {
    let table = CommandTable::new(sound()).unwrap();
    assert_eq!(table.describe(0), Some("get help"));
    assert_eq!(table.describe(1), Some("leave"));
    assert_eq!(table.describe(2), None);
}

#[test]
fn authorize_goes_by_the_clauses_of_the_command() {
    let table = CommandTable::new(sound()).unwrap();
    let plain = caller(&["anyone"], Some("1"), "2");
    assert_eq!(table.authorize(0, &plain), Ok(()));
    assert_eq!(table.authorize(1, &plain), Err(CommandError::NotEligible));
    assert_eq!(table.authorize(2, &plain), Err(CommandError::UnknownCommand));
    let both = caller(&["developer", "creator"], Some("1"), "2");
    assert_eq!(table.authorize(1, &both), Ok(()));
}

#[test]
fn parse_command_resolves_and_authorizes() {
    let table = CommandTable::new(sound()).unwrap();
    let plain = caller(&["anyone"], Some("1"), "2");
    assert_eq!(table.parse_command("h", &plain), Ok(0));
    assert_eq!(table.parse_command("exit", &plain), Err(CommandError::NotEligible));
    assert_eq!(table.parse_command("what", &plain), Err(CommandError::UnknownCommand));
}
