use smolgent::json::JsonText;
use smolgent::macros::{
    check_definition, definition_option, generated_names, plan_tool, rustdoc_description,
    tool_option, CallArgument, DefinitionOption, ModelArguments, Parameter, PlanError,
    RoleAttribute, ToolOption,
};
use smolgent::{Tool, ToolDefinition, ToolRegistry};

fn plain() -> Parameter {
    Parameter::Typed {
        named: true,
        shared: false,
        roles: Vec::new(),
    }
}

fn role(name: &str, shared: bool) -> Parameter {
    Parameter::Typed {
        named: true,
        shared,
        roles: vec![RoleAttribute::Named(name.to_string())],
    }
}

/// The schema with the field's rustdoc is generated outside the library. Here it is handed in, and
/// has to be kept in the definition.
#[test]
fn definition_macro_uses_argument_field_rustdoc() {
    assert_eq!(definition_option("name"), Ok(DefinitionOption::Name));
    assert_eq!(definition_option("function"), Ok(DefinitionOption::Function));
    assert!(check_definition(true, true).is_ok());
    let definition = ToolDefinition::new(
        "inspect_value",
        "Inspect a value.",
        JsonText::parse(
            r#"{"type":"object","properties":{"value":{"type":"string","description":"Value that should be inspected."}}}"#,
        )
        .unwrap(),
    );

    assert_eq!(definition.function.name, "inspect_value");
    let parameters: serde_json::Value =
        serde_json::from_str(definition.function.parameters.as_str()).unwrap();
    assert_eq!(
        parameters["properties"]["value"]["description"],
        "Value that should be inspected."
    );
}

#[test]
fn ordinary_parameters_become_fields() {
    let plan = plan_tool(&vec![plain(), plain()]).unwrap();
    assert_eq!(plan.contexts, Vec::<usize>::new());
    assert_eq!(plan.arguments, ModelArguments::Fields(vec![0, 1]));
    assert_eq!(
        plan.call(),
        vec![CallArgument::Field(0), CallArgument::Field(1)]
    );
    let names = generated_names("multiply");
    assert_eq!(names.factory, "multiply_tool");
    assert_eq!(names.definition, "multiply_tool_definition");
    assert_eq!(names.arguments, "__SmolgentToolArgs_multiply");
    assert_eq!(generated_names("r#type").factory, "type_tool");
}

#[test]
fn contexts_are_captured_and_arguments_passed_whole() {
    let plan = plan_tool(&vec![role("context", true), role("arguments", false)]).unwrap();
    assert_eq!(plan.contexts, vec![0]);
    assert_eq!(plan.arguments, ModelArguments::Whole(1));
    assert_eq!(
        plan.call(),
        vec![CallArgument::Context(0), CallArgument::Whole]
    );
    let plan = plan_tool(&vec![plain(), role("context", true), plain()]).unwrap();
    assert_eq!(
        plan.call(),
        vec![
            CallArgument::Context(1),
            CallArgument::Field(0),
            CallArgument::Field(2)
        ]
    );
    assert_eq!(plan_tool(&vec![]).unwrap().call(), vec![]);
}

#[test]
fn functions_that_cannot_be_tools_are_refused() {
    let unnamed = |roles: Vec<RoleAttribute>| Parameter::Typed {
        named: false,
        shared: true,
        roles,
    };
    let named = |name: &str| RoleAttribute::Named(name.to_string());
    for (parameters, error, message) in [
        (
            vec![plain(), Parameter::Receiver],
            PlanError::Receiver { parameter: 1 },
            "`#[smolgent::tool]` does not support methods with `self`",
        ),
        (
            vec![role("other", true)],
            PlanError::UnknownRole { parameter: 0, attribute: 0 },
            "expected `context` or `arguments`",
        ),
        (
            vec![Parameter::Typed {
                named: true,
                shared: true,
                roles: vec![RoleAttribute::Malformed],
            }],
            PlanError::MalformedRole { parameter: 0, attribute: 0 },
            "expected `context` or `arguments`",
        ),
        (
            vec![Parameter::Typed {
                named: true,
                shared: true,
                roles: vec![named("context"), named("arguments")],
            }],
            PlanError::SecondRole { parameter: 0, attribute: 1 },
            "tool parameter role may only be specified once",
        ),
        (
            vec![role("arguments", false), role("arguments", false)],
            PlanError::SecondArguments { parameter: 1 },
            "only one parameter may use `#[tool(arguments)]`",
        ),
        (
            vec![role("arguments", false), plain()],
            PlanError::MixedArguments,
            "`#[tool(arguments)]` cannot be combined with ordinary model parameters",
        ),
        (
            vec![plain(), unnamed(Vec::new())],
            PlanError::Pattern { parameter: 1 },
            "tool parameters must be simple identifiers",
        ),
        (
            vec![unnamed(vec![named("arguments")])],
            PlanError::Pattern { parameter: 0 },
            "tool parameters must be simple identifiers",
        ),
        (
            vec![role("context", false)],
            PlanError::ContextType { parameter: 0 },
            "`#[tool(context)]` parameters must be shared references such as `&AgentState`",
        ),
    ] {
        let found = plan_tool(&parameters).unwrap_err();
        assert_eq!(found, error);
        assert_eq!(found.message(), message);
    }
}

#[test]
fn descriptions_come_from_documentation() {
    let docs = |lines: &[&str]| {
        rustdoc_description(&lines.iter().map(|line| line.to_string()).collect())
    };
    assert_eq!(docs(&[" Multiply two integers."]), "Multiply two integers.");
    assert_eq!(docs(&[" One.", "", "  ", " Two. "]), "One.\nTwo.");
    assert_eq!(docs(&[]), "");
}

#[test]
fn options_are_known_by_name() {
    for (key, option) in [
        ("name", ToolOption::Name),
        ("description", ToolOption::Description),
        ("fallible", ToolOption::Fallible),
        ("factory_visibility", ToolOption::FactoryVisibility),
    ] {
        assert_eq!(tool_option(key), Ok(option));
    }
    assert_eq!(
        tool_option("visibility"),
        Err("expected `name`, `description`, `fallible`, or `factory_visibility`")
    );
    for (key, option) in [
        ("name", DefinitionOption::Name),
        ("description", DefinitionOption::Description),
        ("function", DefinitionOption::Function),
        ("visibility", DefinitionOption::Visibility),
    ] {
        assert_eq!(definition_option(key), Ok(option));
    }
    assert_eq!(
        definition_option("fallible"),
        Err("expected `name`, `description`, `function`, or `visibility`")
    );
    assert_eq!(
        check_definition(false, false),
        Err("`tool_definition` requires `name = ...`")
    );
    assert_eq!(
        check_definition(true, false),
        Err("`tool_definition` requires `function = \"...\"`")
    );
}

#[test]
fn registries_find_the_last_tool_of_a_name() {
    let tool = |name: &str, handler: u8| {
        Tool::new(
            ToolDefinition::new(name, "A tool.", JsonText::empty_object()),
            handler,
        )
    };
    let mut registry = ToolRegistry::new()
        .with_tool(tool("a", 1))
        .with_tool(tool("b", 2));
    let replaced = registry.insert(tool("a", 3));
    assert_eq!(replaced.map(|tool| *tool.handler()), Some(1));
    assert_eq!(*registry.get("a").unwrap().handler(), 3);
    assert_eq!(*registry.get("b").unwrap().handler(), 2);
    assert!(registry.get("c").is_none());
    let names: Vec<String> = registry
        .definitions()
        .iter()
        .map(|definition| definition.name().to_string())
        .collect();
    assert_eq!(names, vec!["a", "b"]);
}
