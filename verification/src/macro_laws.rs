//! What holds of the plans for tool functions: which parameters are captured, which the model
//! fills, and which functions are refused.

use vstd::prelude::*;

use crate::macros::{context_error, definition_option_of, description_lines, grouped, is_named};
use crate::macros::{pattern_error, tool_option_of, DefinitionOption, ToolOption};
use crate::macros::{plan_call, role_of, tool_plan};
use crate::macros::{unmarked, ArgumentsView, CallArgument, ParameterRole, ParameterView};
use crate::macros::{PlanError, RoleView};
use crate::text::trimmed;

verus! {

/// Whether a parameter is captured: its one role is the context.
pub open spec fn captured(parameter: ParameterView) -> bool {
    parameter matches ParameterView::Typed { roles, .. } && roles == seq![
        RoleView::Named("context"@),
    ]
}

/// Whether a parameter takes all arguments: its one role is the arguments.
pub open spec fn takes_all(parameter: ParameterView) -> bool {
    parameter matches ParameterView::Typed { roles, .. } && roles == seq![
        RoleView::Named("arguments"@),
    ]
}

/// Whether a parameter is one argument: it has no role.
pub open spec fn takes_one(parameter: ParameterView) -> bool {
    parameter matches ParameterView::Typed { roles, .. } && roles.len() == 0
}

/// The positions of the parameters that pass a test, in order.
pub open spec fn positions(
    parameters: Seq<ParameterView>,
    test: spec_fn(ParameterView) -> bool,
) -> Seq<usize>
    decreases parameters.len(),
{
    if parameters.len() == 0 {
        seq![]
    } else {
        let front = positions(parameters.drop_last(), test);
        if test(parameters.last()) {
            front.push((parameters.len() - 1) as usize)
        } else {
            front
        }
    }
}

proof fn lemma_role(parameter: usize, roles: Seq<RoleView>)
    ensures
        role_of(parameter, roles) == Ok::<Option<ParameterRole>, PlanError>(None) <==> roles.len()
            == 0,
        role_of(parameter, roles) == Ok::<Option<ParameterRole>, PlanError>(
            Some(ParameterRole::Context),
        ) <==> roles == seq![RoleView::Named("context"@)],
        role_of(parameter, roles) == Ok::<Option<ParameterRole>, PlanError>(
            Some(ParameterRole::Arguments),
        ) <==> roles == seq![RoleView::Named("arguments"@)],
    decreases roles.len(),
{
    reveal_strlit("context");
    reveal_strlit("arguments");
    assert("context"@.len() == 7 && "arguments"@.len() == 9);
    if roles.len() > 0 {
        let front = roles.drop_last();
        lemma_role(parameter, front);
        if front.len() == 0 {
            assert(roles =~= seq![roles[0]]);
            assert(roles.last() == roles[0]);
            assert(seq![RoleView::Named("context"@)][0] == RoleView::Named("context"@));
            assert(seq![RoleView::Named("arguments"@)][0] == RoleView::Named("arguments"@));
        } else {
            assert(seq![RoleView::Named("context"@)].len() == 1);
            assert(seq![RoleView::Named("arguments"@)].len() == 1);
        }
    }
}

proof fn lemma_grouped(parameters: Seq<ParameterView>)
    requires
        parameters.len() <= usize::MAX,
    ensures
        grouped(parameters) matches Ok(groups) ==> {
            &&& groups.contexts == positions(parameters, |p: ParameterView| captured(p))
            &&& groups.ordinary == positions(parameters, |p: ParameterView| takes_one(p))
            &&& match groups.whole {
                Some(whole) => positions(parameters, |p: ParameterView| takes_all(p)) == seq![whole],
                None => positions(parameters, |p: ParameterView| takes_all(p)).len() == 0,
            }
        },
        grouped(parameters) is Ok <==> {
            &&& forall|i: int|
                0 <= i < parameters.len() ==> captured(#[trigger] parameters[i]) || takes_all(
                    parameters[i],
                ) || takes_one(parameters[i])
            &&& positions(parameters, |p: ParameterView| takes_all(p)).len() <= 1
        },
    decreases parameters.len(),
{
    if parameters.len() > 0 {
        let front = parameters.drop_last();
        let last = parameters.last();
        let at = (parameters.len() - 1) as usize;
        lemma_grouped(front);
        assert(parameters[parameters.len() - 1] == last);
        assert(seq![RoleView::Named("context"@)].len() == 1);
        assert(seq![RoleView::Named("arguments"@)].len() == 1);
        reveal_strlit("context");
        reveal_strlit("arguments");
        assert("context"@.len() == 7 && "arguments"@.len() == 9);
        assert(seq![RoleView::Named("context"@)][0] == RoleView::Named("context"@));
        assert(seq![RoleView::Named("arguments"@)][0] == RoleView::Named("arguments"@));
        assert(!(captured(last) && takes_all(last)));
        if let ParameterView::Typed { roles, .. } = last {
            lemma_role(at, roles);
        }
        let all = positions(parameters, |p: ParameterView| takes_all(p));
        let before = positions(front, |p: ParameterView| takes_all(p));
        if grouped(parameters) is Ok {
            assert forall|i: int| 0 <= i < parameters.len() implies captured(
                #[trigger] parameters[i],
            ) || takes_all(parameters[i]) || takes_one(parameters[i]) by {
                if i < front.len() {
                    assert(front[i] == parameters[i]);
                }
            }
            if takes_all(last) {
                assert(before =~= seq![]);
                assert(all =~= seq![at]);
            }
        }
        if (forall|i: int|
            0 <= i < parameters.len() ==> captured(#[trigger] parameters[i]) || takes_all(
                parameters[i],
            ) || takes_one(parameters[i])) && all.len() <= 1 {
            assert forall|i: int| 0 <= i < front.len() implies captured(#[trigger] front[i])
                || takes_all(front[i]) || takes_one(front[i]) by {
                assert(front[i] == parameters[i]);
            }
            assert(before.len() <= 1);
            assert(captured(last) || takes_all(last) || takes_one(last));
        }
    }
}

proof fn lemma_positions(
    parameters: Seq<ParameterView>,
    test: spec_fn(ParameterView) -> bool,
)
    requires
        parameters.len() <= usize::MAX,
    ensures
        forall|k: int|
            0 <= k < positions(parameters, test).len() ==> (#[trigger] positions(
                parameters,
                test,
            )[k]) < parameters.len() && test(parameters[positions(parameters, test)[k] as int]),
        forall|i: int|
            0 <= i < parameters.len() && test(#[trigger] parameters[i]) ==> positions(
                parameters,
                test,
            ).contains(i as usize),
    decreases parameters.len(),
{
    if parameters.len() > 0 {
        let front = parameters.drop_last();
        lemma_positions(front, test);
        let before = positions(front, test);
        let now = positions(parameters, test);
        assert forall|k: int| 0 <= k < now.len() implies (#[trigger] now[k]) < parameters.len()
            && test(parameters[now[k] as int]) by {
            if k < before.len() {
                assert(now[k] == before[k]);
                assert(front[before[k] as int] == parameters[before[k] as int]);
            }
        }
        assert forall|i: int| 0 <= i < parameters.len() && test(
            #[trigger] parameters[i],
        ) implies now.contains(i as usize) by {
            if i < front.len() {
                assert(test(front[i]));
                assert(before.contains(i as usize));
                let k = choose|k: int| 0 <= k < before.len() && before[k] == i as usize;
                assert(now[k] == i as usize);
            } else {
                assert(now[before.len() as int] == i as usize);
            }
        }
    }
}

proof fn lemma_context_error(parameters: Seq<ParameterView>, contexts: Seq<usize>)
    ensures
        context_error(parameters, contexts) is None <==> forall|k: int|
            0 <= k < contexts.len() ==> is_named(parameters, #[trigger] contexts[k])
                && parameters[contexts[k] as int]->shared,
    decreases contexts.len(),
{
    if contexts.len() > 0 {
        let front = contexts.drop_last();
        lemma_context_error(parameters, front);
        if context_error(parameters, contexts) is None {
            assert forall|k: int| 0 <= k < contexts.len() implies is_named(
                parameters,
                #[trigger] contexts[k],
            ) && parameters[contexts[k] as int]->shared by {
                if k < front.len() {
                    assert(front[k] == contexts[k]);
                }
            }
        }
        if forall|k: int|
            0 <= k < contexts.len() ==> is_named(parameters, #[trigger] contexts[k])
                && parameters[contexts[k] as int]->shared {
            assert(is_named(parameters, contexts[contexts.len() - 1]));
            assert forall|k: int| 0 <= k < front.len() implies is_named(
                parameters,
                #[trigger] front[k],
            ) && parameters[front[k] as int]->shared by {
                assert(is_named(parameters, contexts[k]));
            }
        }
    }
}

proof fn lemma_pattern_error(parameters: Seq<ParameterView>, chosen: Seq<usize>)
    ensures
        pattern_error(parameters, chosen) is None <==> forall|k: int|
            0 <= k < chosen.len() ==> is_named(parameters, #[trigger] chosen[k]),
    decreases chosen.len(),
{
    if chosen.len() > 0 {
        let front = chosen.drop_last();
        lemma_pattern_error(parameters, front);
        if pattern_error(parameters, chosen) is None {
            assert forall|k: int| 0 <= k < chosen.len() implies is_named(
                parameters,
                #[trigger] chosen[k],
            ) by {
                if k < front.len() {
                    assert(front[k] == chosen[k]);
                }
            }
        }
        if forall|k: int| 0 <= k < chosen.len() ==> is_named(parameters, #[trigger] chosen[k]) {
            assert(is_named(parameters, chosen[chosen.len() - 1]));
            assert forall|k: int| 0 <= k < front.len() implies is_named(
                parameters,
                #[trigger] front[k],
            ) by {
                assert(is_named(parameters, chosen[k]));
            }
        }
    }
}

/// A function is planned where each parameter is a simple identifier with at most one known role,
/// each captured one is a shared reference, and at most one takes all arguments, with no other
/// argument beside it. Its plan captures the captured ones, in order, and lets the model fill the
/// one that takes all arguments, or else those without a role, in order.
pub proof fn parameters_go_by_their_roles(parameters: Seq<ParameterView>)
    requires
        parameters.len() <= usize::MAX,
    ensures
        ({
            let contexts = positions(parameters, |p: ParameterView| captured(p));
            let whole = positions(parameters, |p: ParameterView| takes_all(p));
            let ordinary = positions(parameters, |p: ParameterView| takes_one(p));
            &&& tool_plan(parameters) is Ok <==> {
                &&& forall|i: int|
                    0 <= i < parameters.len() ==> ((#[trigger] parameters[i]) matches
                    ParameterView::Typed { named, shared, .. } && named && (captured(parameters[i])
                        ==> shared)) && (captured(parameters[i]) || takes_all(parameters[i])
                        || takes_one(parameters[i]))
                &&& whole.len() <= 1
                &&& whole.len() == 1 ==> ordinary.len() == 0
            }
            &&& tool_plan(parameters) matches Ok(plan) ==> plan.contexts == contexts
                && plan.arguments == (if whole.len() == 1 {
                ArgumentsView::Whole(whole[0])
            } else {
                ArgumentsView::Fields(ordinary)
            })
        }),
{
    let is_captured = |p: ParameterView| captured(p);
    let is_whole = |p: ParameterView| takes_all(p);
    let is_one = |p: ParameterView| takes_one(p);
    let contexts = positions(parameters, is_captured);
    let whole = positions(parameters, is_whole);
    let ordinary = positions(parameters, is_one);
    lemma_grouped(parameters);
    lemma_positions(parameters, is_captured);
    lemma_positions(parameters, is_whole);
    lemma_positions(parameters, is_one);
    lemma_context_error(parameters, contexts);
    lemma_pattern_error(parameters, ordinary);
    if tool_plan(parameters) is Ok {
        assert forall|i: int| 0 <= i < parameters.len() implies ((#[trigger] parameters[i]) matches
        ParameterView::Typed { named, shared, .. } && named && (captured(parameters[i])
            ==> shared)) && (captured(parameters[i]) || takes_all(parameters[i]) || takes_one(
            parameters[i],
        )) by {
            assert(captured(parameters[i]) || takes_all(parameters[i]) || takes_one(
                parameters[i],
            ));
            if captured(parameters[i]) {
                assert(is_captured(parameters[i]));
                let k = choose|k: int| 0 <= k < contexts.len() && contexts[k] == i as usize;
                assert(is_named(parameters, contexts[k]));
            } else if takes_all(parameters[i]) {
                assert(is_whole(parameters[i]));
                let k = choose|k: int| 0 <= k < whole.len() && whole[k] == i as usize;
                assert(whole[0] == i as usize);
            } else {
                assert(is_one(parameters[i]));
                let k = choose|k: int| 0 <= k < ordinary.len() && ordinary[k] == i as usize;
                assert(is_named(parameters, ordinary[k]));
            }
        }
    }
    if (forall|i: int|
        0 <= i < parameters.len() ==> ((#[trigger] parameters[i]) matches ParameterView::Typed {
            named,
            shared,
            ..
        } && named && (captured(parameters[i]) ==> shared)) && (captured(parameters[i])
            || takes_all(parameters[i]) || takes_one(parameters[i]))) && whole.len() <= 1 && (
    whole.len() == 1 ==> ordinary.len() == 0) {
        assert forall|i: int| 0 <= i < parameters.len() implies captured(#[trigger] parameters[i])
            || takes_all(parameters[i]) || takes_one(parameters[i]) by {}
        assert forall|k: int| 0 <= k < contexts.len() implies is_named(
            parameters,
            #[trigger] contexts[k],
        ) && parameters[contexts[k] as int]->shared by {
            assert(captured(parameters[contexts[k] as int]));
        }
        assert forall|k: int| 0 <= k < ordinary.len() implies is_named(
            parameters,
            #[trigger] ordinary[k],
        ) by {
            assert(takes_one(parameters[ordinary[k] as int]));
        }
        if whole.len() == 1 {
            assert(takes_all(parameters[whole[0] as int]));
        }
    }
}

/// A call passes the captured parameters first, in order, and then what the model filled: all at
/// once, or one by one.
pub proof fn calls_pass_what_was_captured_first(
    contexts: Seq<usize>,
    arguments: ArgumentsView,
    i: int,
)
    ensures
        ({
            let call = plan_call(crate::macros::PlanView { contexts, arguments });
            &&& 0 <= i < contexts.len() ==> call[i] == CallArgument::Context(contexts[i])
            &&& match arguments {
                ArgumentsView::Whole(_) => call.len() == contexts.len() + 1 && call.last()
                    == CallArgument::Whole,
                ArgumentsView::Fields(fields) => call.len() == contexts.len() + fields.len() && (0
                    <= i < fields.len() ==> call[contexts.len() + i] == CallArgument::Field(
                    fields[i],
                )),
            }
        }),
{
}

/// A description is made of the lines of a comment, trimmed and without blank ones, in order.
pub proof fn descriptions_hold_the_lines_of_comments(docs: Seq<Seq<char>>, line: Seq<char>)
    ensures
        description_lines(seq![]).len() == 0,
        trimmed(line).len() > 0 ==> description_lines(docs.push(line)) == description_lines(
            docs,
        ).push(trimmed(line)),
        trimmed(line).len() == 0 ==> description_lines(docs.push(line)) == description_lines(docs),
{
    reveal(Seq::filter);
    let f = |line: Seq<char>| trimmed(line);
    let all = docs.push(line).map_values(f);
    assert(all.drop_last() =~= docs.map_values(f));
    assert(all.last() == trimmed(line));
}

/// A raw identifier is named without its mark.
pub proof fn raw_names_lose_their_mark(name: Seq<char>)
    ensures
        unmarked("r#"@ + name) == name,
        !"r#"@.is_prefix_of(name) ==> unmarked(name) == name,
{
    assert(("r#"@ + name).subrange(0, "r#"@.len() as int) =~= "r#"@);
    assert("r#"@.is_prefix_of("r#"@ + name));
    assert(("r#"@ + name).skip("r#"@.len() as int) =~= name);
}

/// The options of the attributes are known by their names, and no others are.
pub proof fn options_are_known_by_their_names(key: Seq<char>)
    ensures
        tool_option_of("name"@) == Some(ToolOption::Name),
        tool_option_of("description"@) == Some(ToolOption::Description),
        tool_option_of("fallible"@) == Some(ToolOption::Fallible),
        tool_option_of("factory_visibility"@) == Some(ToolOption::FactoryVisibility),
        key != "name"@ && key != "description"@ && key != "fallible"@ && key
            != "factory_visibility"@ ==> tool_option_of(key) is None,
        definition_option_of("name"@) == Some(DefinitionOption::Name),
        definition_option_of("description"@) == Some(DefinitionOption::Description),
        definition_option_of("function"@) == Some(DefinitionOption::Function),
        definition_option_of("visibility"@) == Some(DefinitionOption::Visibility),
        key != "name"@ && key != "description"@ && key != "function"@ && key != "visibility"@
            ==> definition_option_of(key) is None,
{
    reveal_strlit("name");
    reveal_strlit("description");
    reveal_strlit("fallible");
    reveal_strlit("factory_visibility");
    reveal_strlit("function");
    reveal_strlit("visibility");
    assert("name"@.len() == 4 && "description"@.len() == 11 && "fallible"@.len() == 8
        && "factory_visibility"@.len() == 18 && "function"@.len() == 8 && "visibility"@.len() == 10);
}

} // verus!
