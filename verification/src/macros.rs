//! Planning what the attribute macros for tools generate.

use vstd::prelude::*;

use crate::common::{lemma_views_push, outcome, views};
use crate::text::{concat2, join_texts, same_text, strip_prefix, trim_text};
use crate::text::{joined, trimmed};

verus! {

broadcast use lemma_views_push;

/// An attribute that gives a parameter a role.
#[derive(Debug, PartialEq, Eq)]
pub enum RoleAttribute {
    /// One that names a role.
    Named(String),
    /// One that cannot be read.
    Malformed,
}

/// A parameter of a function.
#[derive(Debug, PartialEq, Eq)]
pub enum Parameter {
    /// `self`.
    Receiver,
    /// Any other.
    Typed {
        /// Whether its pattern is a simple identifier.
        named: bool,
        /// Whether its type is a shared reference.
        shared: bool,
        /// The attributes that give it a role.
        roles: Vec<RoleAttribute>,
    },
}

/// The role of a parameter that is no argument of its own.
#[derive(Clone, Copy, Debug, PartialEq, Eq, Structural)]
pub enum ParameterRole {
    /// Captured by the factory.
    Context,
    /// All arguments at once.
    Arguments,
}

/// What is wrong with a function, and where.
#[derive(Clone, Copy, Debug, PartialEq, Eq, Structural)]
pub enum PlanError {
    /// A method.
    Receiver { parameter: usize },
    /// A role attribute that cannot be read.
    MalformedRole { parameter: usize, attribute: usize },
    /// A role that there is not.
    UnknownRole { parameter: usize, attribute: usize },
    /// A second role.
    SecondRole { parameter: usize, attribute: usize },
    /// A second parameter for all arguments.
    SecondArguments { parameter: usize },
    /// A parameter for all arguments beside others.
    MixedArguments,
    /// A pattern that is no simple identifier.
    Pattern { parameter: usize },
    /// A context that is no shared reference.
    ContextType { parameter: usize },
}

/// Where the arguments of a tool's function come from.
#[derive(Debug, PartialEq, Eq)]
pub enum ModelArguments {
    /// From one parameter that holds them all.
    Whole(usize),
    /// From a parameter each.
    Fields(Vec<usize>),
}

/// How a tool calls its function.
#[derive(Debug, PartialEq, Eq)]
pub struct ToolPlan {
    /// The parameters that the factory captures.
    pub contexts: Vec<usize>,
    /// The parameters that the model fills.
    pub arguments: ModelArguments,
}

/// An argument in the call of a tool's function.
#[derive(Clone, Copy, Debug, PartialEq, Eq, Structural)]
pub enum CallArgument {
    /// A captured parameter.
    Context(usize),
    /// All arguments at once.
    Whole,
    /// One argument.
    Field(usize),
}

// ---------------------------------------------------------------------------------------------
// Models
// ---------------------------------------------------------------------------------------------

/// The model of a [`RoleAttribute`].
pub enum RoleView {
    Named(Seq<char>),
    Malformed,
}

/// The model of a [`Parameter`].
pub enum ParameterView {
    Receiver,
    Typed { named: bool, shared: bool, roles: Seq<RoleView> },
}

/// The model of [`ModelArguments`].
pub enum ArgumentsView {
    Whole(usize),
    Fields(Seq<usize>),
}

/// The model of a [`ToolPlan`].
pub struct PlanView {
    pub contexts: Seq<usize>,
    pub arguments: ArgumentsView,
}

impl View for RoleAttribute {
    type V = RoleView;

    open spec fn view(&self) -> RoleView {
        match self {
            RoleAttribute::Named(name) => RoleView::Named(name@),
            RoleAttribute::Malformed => RoleView::Malformed,
        }
    }
}

impl View for Parameter {
    type V = ParameterView;

    open spec fn view(&self) -> ParameterView {
        match self {
            Parameter::Receiver => ParameterView::Receiver,
            Parameter::Typed { named, shared, roles } => ParameterView::Typed {
                named: *named,
                shared: *shared,
                roles: views(roles@),
            },
        }
    }
}

impl View for ToolPlan {
    type V = PlanView;

    open spec fn view(&self) -> PlanView {
        PlanView {
            contexts: self.contexts@,
            arguments: match self.arguments {
                ModelArguments::Whole(parameter) => ArgumentsView::Whole(parameter),
                ModelArguments::Fields(parameters) => ArgumentsView::Fields(parameters@),
            },
        }
    }
}

impl View for PlanError {
    type V = PlanError;

    open spec fn view(&self) -> PlanError {
        *self
    }
}

/// What an error says.
pub open spec fn plan_message(error: PlanError) -> Seq<char> {
    match error {
        PlanError::Receiver { .. } => "`#[smolgent::tool]` does not support methods with `self`"@,
        PlanError::MalformedRole { .. } | PlanError::UnknownRole { .. } =>
        "expected `context` or `arguments`"@,
        PlanError::SecondRole { .. } => "tool parameter role may only be specified once"@,
        PlanError::SecondArguments { .. } => "only one parameter may use `#[tool(arguments)]`"@,
        PlanError::MixedArguments =>
        "`#[tool(arguments)]` cannot be combined with ordinary model parameters"@,
        PlanError::Pattern { .. } => "tool parameters must be simple identifiers"@,
        PlanError::ContextType { .. } =>
        "`#[tool(context)]` parameters must be shared references such as `&AgentState`"@,
    }
}

impl PlanError {
    /// What this error says. A role attribute that cannot be read has an error of its own.
    pub fn message(self) -> (text: &'static str)
        ensures
            text@ == plan_message(self),
    {
        match self {
            PlanError::Receiver { .. } => "`#[smolgent::tool]` does not support methods with `self`",
            PlanError::MalformedRole { .. } => "expected `context` or `arguments`",
            PlanError::UnknownRole { .. } => "expected `context` or `arguments`",
            PlanError::SecondRole { .. } => "tool parameter role may only be specified once",
            PlanError::SecondArguments { .. } => "only one parameter may use `#[tool(arguments)]`",
            PlanError::MixedArguments =>
            "`#[tool(arguments)]` cannot be combined with ordinary model parameters",
            PlanError::Pattern { .. } => "tool parameters must be simple identifiers",
            PlanError::ContextType { .. } =>
            "`#[tool(context)]` parameters must be shared references such as `&AgentState`",
        }
    }
}

/// The role that a name stands for.
pub open spec fn named_role(name: Seq<char>) -> Option<ParameterRole> {
    if name == "context"@ {
        Some(ParameterRole::Context)
    } else if name == "arguments"@ {
        Some(ParameterRole::Arguments)
    } else {
        None
    }
}

/// The role that attributes give a parameter.
pub open spec fn role_of(parameter: usize, roles: Seq<RoleView>) -> Result<
    Option<ParameterRole>,
    PlanError,
>
    decreases roles.len(),
{
    if roles.len() == 0 {
        Ok(None)
    } else {
        let attribute = (roles.len() - 1) as usize;
        match role_of(parameter, roles.drop_last()) {
            Err(e) => Err(e),
            Ok(before) => match roles.last() {
                RoleView::Malformed => Err(PlanError::MalformedRole { parameter, attribute }),
                RoleView::Named(name) => match (named_role(name), before) {
                    (None, _) => Err(PlanError::UnknownRole { parameter, attribute }),
                    (Some(_), Some(_)) => Err(PlanError::SecondRole { parameter, attribute }),
                    (Some(role), None) => Ok(Some(role)),
                },
            },
        }
    }
}

/// Parameters by their roles, in order.
pub struct Grouped {
    pub contexts: Seq<usize>,
    pub whole: Option<usize>,
    pub ordinary: Seq<usize>,
}

/// The parameters of a function by their roles.
pub open spec fn grouped(parameters: Seq<ParameterView>) -> Result<Grouped, PlanError>
    decreases parameters.len(),
{
    if parameters.len() == 0 {
        Ok(Grouped { contexts: seq![], whole: None, ordinary: seq![] })
    } else {
        let parameter = (parameters.len() - 1) as usize;
        match grouped(parameters.drop_last()) {
            Err(e) => Err(e),
            Ok(before) => match parameters.last() {
                ParameterView::Receiver => Err(PlanError::Receiver { parameter }),
                ParameterView::Typed { roles, .. } => match role_of(parameter, roles) {
                    Err(e) => Err(e),
                    Ok(Some(ParameterRole::Context)) => Ok(
                        Grouped { contexts: before.contexts.push(parameter), ..before },
                    ),
                    Ok(Some(ParameterRole::Arguments)) => if before.whole is Some {
                        Err(PlanError::SecondArguments { parameter })
                    } else {
                        Ok(Grouped { whole: Some(parameter), ..before })
                    },
                    Ok(None) => Ok(Grouped { ordinary: before.ordinary.push(parameter), ..before }),
                },
            },
        }
    }
}

/// Whether a parameter's pattern is a simple identifier.
pub open spec fn is_named(parameters: Seq<ParameterView>, parameter: usize) -> bool {
    parameters[parameter as int]->named
}

/// The first thing that is wrong with the contexts.
pub open spec fn context_error(parameters: Seq<ParameterView>, contexts: Seq<usize>) -> Option<
    PlanError,
>
    decreases contexts.len(),
{
    if contexts.len() == 0 {
        None
    } else {
        match context_error(parameters, contexts.drop_last()) {
            Some(e) => Some(e),
            None => {
                let parameter = contexts.last();
                if !is_named(parameters, parameter) {
                    Some(PlanError::Pattern { parameter })
                } else if !parameters[parameter as int]->shared {
                    Some(PlanError::ContextType { parameter })
                } else {
                    None
                }
            },
        }
    }
}

/// The first parameter whose pattern is no simple identifier.
pub open spec fn pattern_error(parameters: Seq<ParameterView>, chosen: Seq<usize>) -> Option<
    PlanError,
>
    decreases chosen.len(),
{
    if chosen.len() == 0 {
        None
    } else {
        match pattern_error(parameters, chosen.drop_last()) {
            Some(e) => Some(e),
            None => if is_named(parameters, chosen.last()) {
                None
            } else {
                Some(PlanError::Pattern { parameter: chosen.last() })
            },
        }
    }
}

/// How a tool calls a function with the parameters.
pub open spec fn tool_plan(parameters: Seq<ParameterView>) -> Result<PlanView, PlanError> {
    match grouped(parameters) {
        Err(e) => Err(e),
        Ok(groups) => if groups.whole is Some && groups.ordinary.len() > 0 {
            Err(PlanError::MixedArguments)
        } else {
            match context_error(parameters, groups.contexts) {
                Some(e) => Err(e),
                None => match groups.whole {
                    Some(parameter) => if is_named(parameters, parameter) {
                        Ok(
                            PlanView {
                                contexts: groups.contexts,
                                arguments: ArgumentsView::Whole(parameter),
                            },
                        )
                    } else {
                        Err(PlanError::Pattern { parameter })
                    },
                    None => match pattern_error(parameters, groups.ordinary) {
                        Some(e) => Err(e),
                        None => Ok(
                            PlanView {
                                contexts: groups.contexts,
                                arguments: ArgumentsView::Fields(groups.ordinary),
                            },
                        ),
                    },
                },
            }
        },
    }
}

/// The arguments of the call: what the factory captured, and what the model filled.
pub open spec fn plan_call(plan: PlanView) -> Seq<CallArgument> {
    plan.contexts.map_values(|parameter: usize| CallArgument::Context(parameter))
        + match plan.arguments {
        ArgumentsView::Whole(_) => seq![CallArgument::Whole],
        ArgumentsView::Fields(parameters) => parameters.map_values(
            |parameter: usize| CallArgument::Field(parameter),
        ),
    }
}

// ---------------------------------------------------------------------------------------------
// Planning
// ---------------------------------------------------------------------------------------------

proof fn lemma_role_stop(parameter: usize, roles: Seq<RoleView>, k: int)
    requires
        0 <= k <= roles.len(),
        role_of(parameter, roles.take(k)) is Err,
    ensures
        role_of(parameter, roles) == role_of(parameter, roles.take(k)),
    decreases roles.len() - k,
{
    if k < roles.len() {
        assert(roles.take(k + 1).drop_last() =~= roles.take(k));
        lemma_role_stop(parameter, roles, k + 1);
    } else {
        assert(roles.take(k) =~= roles);
    }
}

/// The role that attributes give a parameter.
fn parameter_role(parameter: usize, roles: &Vec<RoleAttribute>) -> (r: Result<
    Option<ParameterRole>,
    PlanError,
>)
    ensures
        r == role_of(parameter, views(roles@)),
{
    let ghost all = views(roles@);
    let mut role: Option<ParameterRole> = None;
    let mut i: usize = 0;
    while i < roles.len()
        invariant
            i <= roles@.len(),
            all == views(roles@),
            role_of(parameter, all.take(i as int)) == Ok::<Option<ParameterRole>, PlanError>(role),
        decreases roles@.len() - i,
    {
        proof {
            assert(all.take(i + 1).drop_last() =~= all.take(i as int));
            assert(all.take(i + 1).last() == roles@[i as int]@);
            if role_of(parameter, all.take(i + 1)) is Err {
                lemma_role_stop(parameter, all, i + 1);
            }
        }
        let named = match &roles[i] {
            RoleAttribute::Malformed => {
                return Err(PlanError::MalformedRole { parameter, attribute: i });
            },
            RoleAttribute::Named(name) => if same_text(name.as_str(), "context") {
                ParameterRole::Context
            } else if same_text(name.as_str(), "arguments") {
                ParameterRole::Arguments
            } else {
                return Err(PlanError::UnknownRole { parameter, attribute: i });
            },
        };
        if role.is_some() {
            return Err(PlanError::SecondRole { parameter, attribute: i });
        }
        role = Some(named);
        i += 1;
    }
    assert(all.take(i as int) =~= all);
    Ok(role)
}

proof fn lemma_grouped_stop(parameters: Seq<ParameterView>, k: int)
    requires
        0 <= k <= parameters.len(),
        grouped(parameters.take(k)) is Err,
    ensures
        grouped(parameters) == grouped(parameters.take(k)),
    decreases parameters.len() - k,
{
    if k < parameters.len() {
        assert(parameters.take(k + 1).drop_last() =~= parameters.take(k));
        lemma_grouped_stop(parameters, k + 1);
    } else {
        assert(parameters.take(k) =~= parameters);
    }
}

/// Whether the groups are of parameters, none of them a receiver.
pub open spec fn groups_fit(parameters: Seq<ParameterView>, groups: Grouped) -> bool {
    &&& forall|i: int|
        0 <= i < groups.contexts.len() ==> (#[trigger] groups.contexts[i]) < parameters.len()
            && parameters[groups.contexts[i] as int] is Typed
    &&& groups.whole matches Some(parameter) ==> parameter < parameters.len()
        && parameters[parameter as int] is Typed
    &&& forall|i: int|
        0 <= i < groups.ordinary.len() ==> (#[trigger] groups.ordinary[i]) < parameters.len()
            && parameters[groups.ordinary[i] as int] is Typed
}

fn named_parameter(parameters: &Vec<Parameter>, parameter: usize) -> (b: bool)
    requires
        parameter < parameters@.len(),
        views(parameters@)[parameter as int] is Typed,
    ensures
        b == is_named(views(parameters@), parameter),
{
    assert(views(parameters@)[parameter as int] == parameters@[parameter as int]@);
    match &parameters[parameter] {
        Parameter::Typed { named, .. } => *named,
        Parameter::Receiver => false,
    }
}

fn shared_parameter(parameters: &Vec<Parameter>, parameter: usize) -> (b: bool)
    requires
        parameter < parameters@.len(),
        views(parameters@)[parameter as int] is Typed,
    ensures
        b == views(parameters@)[parameter as int]->shared,
{
    assert(views(parameters@)[parameter as int] == parameters@[parameter as int]@);
    match &parameters[parameter] {
        Parameter::Typed { shared, .. } => *shared,
        Parameter::Receiver => false,
    }
}

fn check_contexts(parameters: &Vec<Parameter>, contexts: &Vec<usize>) -> (r: Option<PlanError>)
    requires
        forall|i: int|
            0 <= i < contexts@.len() ==> (#[trigger] contexts@[i]) < parameters@.len() && views(
                parameters@,
            )[contexts@[i] as int] is Typed,
    ensures
        r == context_error(views(parameters@), contexts@),
{
    let ghost all = views(parameters@);
    let mut i: usize = 0;
    while i < contexts.len()
        invariant
            i <= contexts@.len(),
            all == views(parameters@),
            forall|i: int|
                0 <= i < contexts@.len() ==> (#[trigger] contexts@[i]) < parameters@.len()
                    && all[contexts@[i] as int] is Typed,
            context_error(all, contexts@.take(i as int)) is None,
        decreases contexts@.len() - i,
    {
        let parameter: usize = contexts[i];
        proof {
            assert(contexts@.take(i + 1).drop_last() =~= contexts@.take(i as int));
            assert(contexts@.take(i + 1).last() == parameter);
            if context_error(all, contexts@.take(i + 1)) is Some {
                lemma_context_stop(all, contexts@, i + 1);
            }
        }
        if !named_parameter(parameters, parameter) {
            return Some(PlanError::Pattern { parameter });
        }
        if !shared_parameter(parameters, parameter) {
            return Some(PlanError::ContextType { parameter });
        }
        i += 1;
    }
    assert(contexts@.take(i as int) =~= contexts@);
    None
}

proof fn lemma_context_stop(parameters: Seq<ParameterView>, contexts: Seq<usize>, k: int)
    requires
        0 <= k <= contexts.len(),
        context_error(parameters, contexts.take(k)) is Some,
    ensures
        context_error(parameters, contexts) == context_error(parameters, contexts.take(k)),
    decreases contexts.len() - k,
{
    if k < contexts.len() {
        assert(contexts.take(k + 1).drop_last() =~= contexts.take(k));
        lemma_context_stop(parameters, contexts, k + 1);
    } else {
        assert(contexts.take(k) =~= contexts);
    }
}

fn check_patterns(parameters: &Vec<Parameter>, chosen: &Vec<usize>) -> (r: Option<PlanError>)
    requires
        forall|i: int|
            0 <= i < chosen@.len() ==> (#[trigger] chosen@[i]) < parameters@.len() && views(
                parameters@,
            )[chosen@[i] as int] is Typed,
    ensures
        r == pattern_error(views(parameters@), chosen@),
{
    let ghost all = views(parameters@);
    let mut i: usize = 0;
    while i < chosen.len()
        invariant
            i <= chosen@.len(),
            all == views(parameters@),
            forall|i: int|
                0 <= i < chosen@.len() ==> (#[trigger] chosen@[i]) < parameters@.len()
                    && all[chosen@[i] as int] is Typed,
            pattern_error(all, chosen@.take(i as int)) is None,
        decreases chosen@.len() - i,
    {
        let parameter: usize = chosen[i];
        proof {
            assert(chosen@.take(i + 1).drop_last() =~= chosen@.take(i as int));
            assert(chosen@.take(i + 1).last() == parameter);
            if pattern_error(all, chosen@.take(i + 1)) is Some {
                lemma_pattern_stop(all, chosen@, i + 1);
            }
        }
        if !named_parameter(parameters, parameter) {
            return Some(PlanError::Pattern { parameter });
        }
        i += 1;
    }
    assert(chosen@.take(i as int) =~= chosen@);
    None
}

proof fn lemma_pattern_stop(parameters: Seq<ParameterView>, chosen: Seq<usize>, k: int)
    requires
        0 <= k <= chosen.len(),
        pattern_error(parameters, chosen.take(k)) is Some,
    ensures
        pattern_error(parameters, chosen) == pattern_error(parameters, chosen.take(k)),
    decreases chosen.len() - k,
{
    if k < chosen.len() {
        assert(chosen.take(k + 1).drop_last() =~= chosen.take(k));
        lemma_pattern_stop(parameters, chosen, k + 1);
    } else {
        assert(chosen.take(k) =~= chosen);
    }
}

/// Plan how a tool calls a function with the parameters.
pub fn plan_tool(parameters: &Vec<Parameter>) -> (r: Result<ToolPlan, PlanError>)
    ensures
        outcome(r) == tool_plan(views(parameters@)),
{
    let ghost all = views(parameters@);
    let mut contexts: Vec<usize> = Vec::new();
    let mut whole: Option<usize> = None;
    let mut ordinary: Vec<usize> = Vec::new();
    let mut i: usize = 0;
    while i < parameters.len()
        invariant
            i <= parameters@.len(),
            all == views(parameters@),
            grouped(all.take(i as int)) == Ok::<Grouped, PlanError>(
                Grouped { contexts: contexts@, whole, ordinary: ordinary@ },
            ),
            groups_fit(all, Grouped { contexts: contexts@, whole, ordinary: ordinary@ }),
        decreases parameters@.len() - i,
    {
        proof {
            assert(all.take(i + 1).drop_last() =~= all.take(i as int));
            assert(all.take(i + 1).last() == parameters@[i as int]@);
            assert(all[i as int] == parameters@[i as int]@);
            if grouped(all.take(i + 1)) is Err {
                lemma_grouped_stop(all, i + 1);
            }
        }
        match &parameters[i] {
            Parameter::Receiver => {
                return Err(PlanError::Receiver { parameter: i });
            },
            Parameter::Typed { roles, .. } => match parameter_role(i, roles) {
                Err(e) => {
                    return Err(e);
                },
                Ok(Some(ParameterRole::Context)) => {
                    contexts.push(i);
                },
                Ok(Some(ParameterRole::Arguments)) => {
                    if whole.is_some() {
                        return Err(PlanError::SecondArguments { parameter: i });
                    }
                    whole = Some(i);
                },
                Ok(None) => {
                    ordinary.push(i);
                },
            },
        }
        i += 1;
    }
    assert(all.take(i as int) =~= all);
    if whole.is_some() && ordinary.len() > 0 {
        return Err(PlanError::MixedArguments);
    }
    if let Some(e) = check_contexts(parameters, &contexts) {
        return Err(e);
    }
    match whole {
        Some(parameter) => {
            if !named_parameter(parameters, parameter) {
                return Err(PlanError::Pattern { parameter });
            }
            Ok(ToolPlan { contexts, arguments: ModelArguments::Whole(parameter) })
        },
        None => {
            if let Some(e) = check_patterns(parameters, &ordinary) {
                return Err(e);
            }
            Ok(ToolPlan { contexts, arguments: ModelArguments::Fields(ordinary) })
        },
    }
}

impl ToolPlan {
    /// The arguments of the call: what the factory captured, and what the model filled.
    pub fn call(&self) -> (arguments: Vec<CallArgument>)
        ensures
            arguments@ == plan_call(self@),
    {
        let mut arguments: Vec<CallArgument> = Vec::new();
        let ghost first = self.contexts@.map_values(
            |parameter: usize| CallArgument::Context(parameter),
        );
        let mut i: usize = 0;
        while i < self.contexts.len()
            invariant
                i <= self.contexts@.len(),
                first == self.contexts@.map_values(
                    |parameter: usize| CallArgument::Context(parameter),
                ),
                arguments@ =~= first.take(i as int),
            decreases self.contexts@.len() - i,
        {
            arguments.push(CallArgument::Context(self.contexts[i]));
            i += 1;
        }
        assert(arguments@ =~= first);
        match &self.arguments {
            ModelArguments::Whole(_) => {
                arguments.push(CallArgument::Whole);
                assert(arguments@ =~= first + seq![CallArgument::Whole]);
            },
            ModelArguments::Fields(fields) => {
                let ghost rest = fields@.map_values(
                    |parameter: usize| CallArgument::Field(parameter),
                );
                let mut i: usize = 0;
                assert(first + rest.take(0) =~= first);
                while i < fields.len()
                    invariant
                        i <= fields@.len(),
                        rest == fields@.map_values(
                            |parameter: usize| CallArgument::Field(parameter),
                        ),
                        arguments@ =~= first + rest.take(i as int),
                    decreases fields@.len() - i,
                {
                    arguments.push(CallArgument::Field(fields[i]));
                    i += 1;
                }
                assert(rest.take(i as int) =~= rest);
            },
        }
        arguments
    }
}

// ---------------------------------------------------------------------------------------------
// Names and descriptions
// ---------------------------------------------------------------------------------------------

/// The names of what is generated for a function.
#[derive(Debug, PartialEq, Eq)]
pub struct GeneratedNames {
    /// The factory.
    pub factory: String,
    /// The function that gives the definition.
    pub definition: String,
    /// The struct that holds the arguments.
    pub arguments: String,
}

/// An identifier without the mark of a raw one.
pub open spec fn unmarked(name: Seq<char>) -> Seq<char> {
    if "r#"@.is_prefix_of(name) {
        name.skip("r#"@.len() as int)
    } else {
        name
    }
}

/// The names of what is generated for a function.
pub fn generated_names(function: &str) -> (names: GeneratedNames)
    ensures
        names.factory@ == unmarked(function@) + "_tool"@,
        names.definition@ == unmarked(function@) + "_tool_definition"@,
        names.arguments@ == "__SmolgentToolArgs_"@ + unmarked(function@),
{
    let name = match strip_prefix(function, "r#") {
        Some(rest) => rest,
        None => function.to_owned(),
    };
    GeneratedNames {
        factory: concat2(name.as_str(), "_tool"),
        definition: concat2(name.as_str(), "_tool_definition"),
        arguments: concat2("__SmolgentToolArgs_", name.as_str()),
    }
}

/// The lines of a description: those of the documentation that hold anything, trimmed.
pub open spec fn description_lines(docs: Seq<Seq<char>>) -> Seq<Seq<char>> {
    docs.map_values(|line: Seq<char>| trimmed(line)).filter(|line: Seq<char>| line.len() > 0)
}

/// A description from the lines of documentation.
pub fn rustdoc_description(docs: &Vec<String>) -> (text: String)
    ensures
        text@ == joined(description_lines(views(docs@)), "\n"@),
{
    let ghost all = views(docs@).map_values(|line: Seq<char>| trimmed(line));
    let ghost kept = |line: Seq<char>| line.len() > 0;
    let mut lines: Vec<String> = Vec::new();
    let mut i: usize = 0;
    proof {
        reveal(Seq::filter);
        assert(all.take(0) =~= seq![]);
        assert(views(lines@) =~= seq![]);
    }
    while i < docs.len()
        invariant
            i <= docs@.len(),
            all == views(docs@).map_values(|line: Seq<char>| trimmed(line)),
            kept == (|line: Seq<char>| line.len() > 0),
            views(lines@) == all.take(i as int).filter(kept),
        decreases docs@.len() - i,
    {
        let line = trim_text(docs[i].as_str());
        proof {
            reveal(Seq::filter);
            assert(all.take(i + 1).drop_last() =~= all.take(i as int));
            assert(all.take(i + 1).last() == line@);
        }
        if line.unicode_len() > 0 {
            lines.push(line);
        }
        i += 1;
    }
    assert(all.take(i as int) =~= all);
    join_texts(&lines, "\n")
}

// ---------------------------------------------------------------------------------------------
// Options
// ---------------------------------------------------------------------------------------------

/// An option of the attribute on functions.
#[derive(Clone, Copy, Debug, PartialEq, Eq, Structural)]
pub enum ToolOption {
    Name,
    Description,
    Fallible,
    FactoryVisibility,
}

/// An option of the attribute on argument structs.
#[derive(Clone, Copy, Debug, PartialEq, Eq, Structural)]
pub enum DefinitionOption {
    Name,
    Description,
    Function,
    Visibility,
}

/// The option that a key stands for.
pub open spec fn tool_option_of(key: Seq<char>) -> Option<ToolOption> {
    if key == "fallible"@ {
        Some(ToolOption::Fallible)
    } else if key == "name"@ {
        Some(ToolOption::Name)
    } else if key == "description"@ {
        Some(ToolOption::Description)
    } else if key == "factory_visibility"@ {
        Some(ToolOption::FactoryVisibility)
    } else {
        None
    }
}

/// The option that a key of the attribute on functions stands for, or what is wrong.
pub fn tool_option(key: &str) -> (r: Result<ToolOption, &'static str>)
    ensures
        match r {
            Ok(option) => tool_option_of(key@) == Some(option),
            Err(message) => tool_option_of(key@) is None && message@
                == "expected `name`, `description`, `fallible`, or `factory_visibility`"@,
        },
{
    if same_text(key, "fallible") {
        Ok(ToolOption::Fallible)
    } else if same_text(key, "name") {
        Ok(ToolOption::Name)
    } else if same_text(key, "description") {
        Ok(ToolOption::Description)
    } else if same_text(key, "factory_visibility") {
        Ok(ToolOption::FactoryVisibility)
    } else {
        Err("expected `name`, `description`, `fallible`, or `factory_visibility`")
    }
}

/// The option that a key stands for.
pub open spec fn definition_option_of(key: Seq<char>) -> Option<DefinitionOption> {
    if key == "name"@ {
        Some(DefinitionOption::Name)
    } else if key == "description"@ {
        Some(DefinitionOption::Description)
    } else if key == "function"@ {
        Some(DefinitionOption::Function)
    } else if key == "visibility"@ {
        Some(DefinitionOption::Visibility)
    } else {
        None
    }
}

/// The option that a key of the attribute on argument structs stands for, or what is wrong.
pub fn definition_option(key: &str) -> (r: Result<DefinitionOption, &'static str>)
    ensures
        match r {
            Ok(option) => definition_option_of(key@) == Some(option),
            Err(message) => definition_option_of(key@) is None && message@
                == "expected `name`, `description`, `function`, or `visibility`"@,
        },
{
    if same_text(key, "name") {
        Ok(DefinitionOption::Name)
    } else if same_text(key, "description") {
        Ok(DefinitionOption::Description)
    } else if same_text(key, "function") {
        Ok(DefinitionOption::Function)
    } else if same_text(key, "visibility") {
        Ok(DefinitionOption::Visibility)
    } else {
        Err("expected `name`, `description`, `function`, or `visibility`")
    }
}

/// Whether an argument struct says all that its definition needs.
pub fn check_definition(has_name: bool, has_function: bool) -> (r: Result<(), &'static str>)
    ensures
        match r {
            Ok(_) => has_name && has_function,
            Err(message) => if has_name {
                !has_function && message@ == "`tool_definition` requires `function = \"...\"`"@
            } else {
                message@ == "`tool_definition` requires `name = ...`"@
            },
        },
{
    if !has_name {
        return Err("`tool_definition` requires `name = ...`");
    }
    if !has_function {
        return Err("`tool_definition` requires `function = \"...\"`");
    }
    Ok(())
}

// ---------------------------------------------------------------------------------------------
// Laws
// ---------------------------------------------------------------------------------------------

/// How often `parameter` is passed in a call.
pub open spec fn times_passed(plan: PlanView, parameter: usize) -> int {
    plan.contexts.to_multiset().count(parameter) + match plan.arguments {
        ArgumentsView::Whole(whole) => if whole == parameter {
            1int
        } else {
            0
        },
        ArgumentsView::Fields(fields) => fields.to_multiset().count(parameter) as int,
    }
}

/// How often `parameter` is in a group.
spec fn times_grouped(groups: Grouped, parameter: usize) -> int {
    groups.contexts.to_multiset().count(parameter) + (if groups.whole == Some(parameter) {
        1int
    } else {
        0
    }) + groups.ordinary.to_multiset().count(parameter)
}

proof fn lemma_grouped_once(parameters: Seq<ParameterView>, parameter: usize)
    requires
        parameters.len() <= usize::MAX,
    ensures
        grouped(parameters) matches Ok(groups) ==> times_grouped(groups, parameter) == (if parameter
            < parameters.len() {
            1int
        } else {
            0
        }),
    decreases parameters.len(),
{
    broadcast use vstd::seq_lib::group_to_multiset_ensures;

    if parameters.len() > 0 {
        lemma_grouped_once(parameters.drop_last(), parameter);
    }
}

/// A tool's call passes every parameter of its function, each once.
pub proof fn every_parameter_is_passed_once(parameters: Seq<ParameterView>, parameter: usize)
    requires
        parameters.len() <= usize::MAX,
        tool_plan(parameters) is Ok,
        parameter < parameters.len(),
    ensures
        times_passed(tool_plan(parameters)->Ok_0, parameter) == 1,
{
    broadcast use vstd::seq_lib::group_to_multiset_ensures;

    lemma_grouped_once(parameters, parameter);
    let groups = grouped(parameters)->Ok_0;
    if groups.whole is Some {
        assert(groups.ordinary =~= seq![]);
        assert(groups.ordinary.to_multiset().count(parameter) == 0);
    }
}

} // verus!
