//! The rules there are, by name, and the rules that run by default.
use vstd::prelude::*;
use crate::rules::call_parens::REMOVE_FUNCTION_CALL_PARENS;
use crate::rules::empty_do::REMOVE_EMPTY_DO_RULE_NAME;

verus! {

pub const REMOVE_SPACES_RULE_NAME: &'static str = "remove_spaces";

pub const REMOVE_COMMENTS_RULE_NAME: &'static str = "remove_comments";

pub const COMPUTE_EXPRESSIONS_RULE_NAME: &'static str = "compute_expression";

pub const REMOVE_UNUSED_IF_BRANCH_RULE_NAME: &'static str = "remove_unused_if_branch";

pub const REMOVE_UNUSED_WHILE_RULE_NAME: &'static str = "remove_unused_while";

pub const REMOVE_METHOD_DEFINITION_RULE_NAME: &'static str = "remove_method_definition";

pub const CONVERT_INDEX_TO_FIELD_RULE_NAME: &'static str = "convert_index_to_field";

pub const CONVERT_LOCAL_FUNCTION_TO_ASSIGN_RULE_NAME: &'static str = "convert_local_function_to_assign";

pub const GROUP_LOCAL_ASSIGNMENT: &'static str = "group_local_assignment";

pub const RENAME_VARIABLES_RULE_NAME: &'static str = "rename_variables";

pub const INJECT_GLOBAL_VALUE_RULE_NAME: &'static str = "inject_global_value";

pub const VIRTUAL_EXECUTION_RULE_NAME: &'static str = "virtual_execution";

/// Whether two texts are the same.
pub fn same_text(first: &str, second: &str) -> (same: bool)
    ensures
        same == (first@ == second@),
{
    first.to_owned() == second.to_owned()
}

/// A rule that has a name. There are these and no others.
#[derive(Clone, Copy, Debug, PartialEq, Eq, Structural)]
pub enum KnownRule {
    RemoveSpaces,
    RemoveComments,
    ComputeExpression,
    RemoveUnusedIfBranch,
    RemoveUnusedWhile,
    RemoveEmptyDo,
    RemoveMethodDefinition,
    ConvertIndexToField,
    ConvertLocalFunctionToAssign,
    GroupLocalAssignment,
    RenameVariables,
    RemoveFunctionCallParens,
    InjectGlobalValue,
    VirtualExecution,
}

impl KnownRule {
    /// The name of the rule.
    pub open spec fn name(self) -> Seq<char> {
        match self {
            KnownRule::RemoveSpaces => REMOVE_SPACES_RULE_NAME@,
            KnownRule::RemoveComments => REMOVE_COMMENTS_RULE_NAME@,
            KnownRule::ComputeExpression => COMPUTE_EXPRESSIONS_RULE_NAME@,
            KnownRule::RemoveUnusedIfBranch => REMOVE_UNUSED_IF_BRANCH_RULE_NAME@,
            KnownRule::RemoveUnusedWhile => REMOVE_UNUSED_WHILE_RULE_NAME@,
            KnownRule::RemoveEmptyDo => REMOVE_EMPTY_DO_RULE_NAME@,
            KnownRule::RemoveMethodDefinition => REMOVE_METHOD_DEFINITION_RULE_NAME@,
            KnownRule::ConvertIndexToField => CONVERT_INDEX_TO_FIELD_RULE_NAME@,
            KnownRule::ConvertLocalFunctionToAssign => CONVERT_LOCAL_FUNCTION_TO_ASSIGN_RULE_NAME@,
            KnownRule::GroupLocalAssignment => GROUP_LOCAL_ASSIGNMENT@,
            KnownRule::RenameVariables => RENAME_VARIABLES_RULE_NAME@,
            KnownRule::RemoveFunctionCallParens => REMOVE_FUNCTION_CALL_PARENS@,
            KnownRule::InjectGlobalValue => INJECT_GLOBAL_VALUE_RULE_NAME@,
            KnownRule::VirtualExecution => VIRTUAL_EXECUTION_RULE_NAME@,
        }
    }

    /// The name of the rule.
    pub fn get_name(&self) -> (name: &'static str)
        ensures
            name@ == self.name(),
    {
        match self {
            KnownRule::RemoveSpaces => REMOVE_SPACES_RULE_NAME,
            KnownRule::RemoveComments => REMOVE_COMMENTS_RULE_NAME,
            KnownRule::ComputeExpression => COMPUTE_EXPRESSIONS_RULE_NAME,
            KnownRule::RemoveUnusedIfBranch => REMOVE_UNUSED_IF_BRANCH_RULE_NAME,
            KnownRule::RemoveUnusedWhile => REMOVE_UNUSED_WHILE_RULE_NAME,
            KnownRule::RemoveEmptyDo => REMOVE_EMPTY_DO_RULE_NAME,
            KnownRule::RemoveMethodDefinition => REMOVE_METHOD_DEFINITION_RULE_NAME,
            KnownRule::ConvertIndexToField => CONVERT_INDEX_TO_FIELD_RULE_NAME,
            KnownRule::ConvertLocalFunctionToAssign => CONVERT_LOCAL_FUNCTION_TO_ASSIGN_RULE_NAME,
            KnownRule::GroupLocalAssignment => GROUP_LOCAL_ASSIGNMENT,
            KnownRule::RenameVariables => RENAME_VARIABLES_RULE_NAME,
            KnownRule::RemoveFunctionCallParens => REMOVE_FUNCTION_CALL_PARENS,
            KnownRule::InjectGlobalValue => INJECT_GLOBAL_VALUE_RULE_NAME,
            KnownRule::VirtualExecution => VIRTUAL_EXECUTION_RULE_NAME,
        }
    }

    /// The rule of that name, or the name handed back where no rule has it.
    pub fn from_name(name: &str) -> (result: Result<KnownRule, String>)
        ensures
            match result {
                Ok(rule) => rule.name() == name@,
                Err(invalid) => invalid@ == name@ && forall|rule: KnownRule| rule.name() != name@,
            },
    {
        if same_text(name, REMOVE_SPACES_RULE_NAME) {
            Ok(KnownRule::RemoveSpaces)
        } else if same_text(name, REMOVE_COMMENTS_RULE_NAME) {
            Ok(KnownRule::RemoveComments)
        } else if same_text(name, COMPUTE_EXPRESSIONS_RULE_NAME) {
            Ok(KnownRule::ComputeExpression)
        } else if same_text(name, REMOVE_UNUSED_IF_BRANCH_RULE_NAME) {
            Ok(KnownRule::RemoveUnusedIfBranch)
        } else if same_text(name, REMOVE_UNUSED_WHILE_RULE_NAME) {
            Ok(KnownRule::RemoveUnusedWhile)
        } else if same_text(name, REMOVE_EMPTY_DO_RULE_NAME) {
            Ok(KnownRule::RemoveEmptyDo)
        } else if same_text(name, REMOVE_METHOD_DEFINITION_RULE_NAME) {
            Ok(KnownRule::RemoveMethodDefinition)
        } else if same_text(name, CONVERT_INDEX_TO_FIELD_RULE_NAME) {
            Ok(KnownRule::ConvertIndexToField)
        } else if same_text(name, CONVERT_LOCAL_FUNCTION_TO_ASSIGN_RULE_NAME) {
            Ok(KnownRule::ConvertLocalFunctionToAssign)
        } else if same_text(name, GROUP_LOCAL_ASSIGNMENT) {
            Ok(KnownRule::GroupLocalAssignment)
        } else if same_text(name, RENAME_VARIABLES_RULE_NAME) {
            Ok(KnownRule::RenameVariables)
        } else if same_text(name, REMOVE_FUNCTION_CALL_PARENS) {
            Ok(KnownRule::RemoveFunctionCallParens)
        } else if same_text(name, INJECT_GLOBAL_VALUE_RULE_NAME) {
            Ok(KnownRule::InjectGlobalValue)
        } else if same_text(name, VIRTUAL_EXECUTION_RULE_NAME) {
            Ok(KnownRule::VirtualExecution)
        } else {
            Err(name.to_owned())
        }
    }
}

/// No two rules have the same name.
pub proof fn lemma_names_differ(first: KnownRule, second: KnownRule)
    requires
        first != second,
    ensures
        first.name() != second.name(),
{
    reveal_strlit("remove_spaces");
    reveal_strlit("remove_comments");
    reveal_strlit("compute_expression");
    reveal_strlit("remove_unused_if_branch");
    reveal_strlit("remove_unused_while");
    reveal_strlit("remove_empty_do");
    reveal_strlit("remove_method_definition");
    reveal_strlit("convert_index_to_field");
    reveal_strlit("convert_local_function_to_assign");
    reveal_strlit("group_local_assignment");
    reveal_strlit("rename_variables");
    reveal_strlit("remove_function_call_parens");
    reveal_strlit("inject_global_value");
    reveal_strlit("virtual_execution");
    assert(REMOVE_SPACES_RULE_NAME@.len() == 13);
    assert(REMOVE_COMMENTS_RULE_NAME@.len() == 15);
    assert(COMPUTE_EXPRESSIONS_RULE_NAME@.len() == 18);
    assert(REMOVE_UNUSED_IF_BRANCH_RULE_NAME@.len() == 23);
    assert(REMOVE_UNUSED_WHILE_RULE_NAME@.len() == 19);
    assert(REMOVE_EMPTY_DO_RULE_NAME@.len() == 15);
    assert(REMOVE_METHOD_DEFINITION_RULE_NAME@.len() == 24);
    assert(CONVERT_INDEX_TO_FIELD_RULE_NAME@.len() == 22);
    assert(CONVERT_LOCAL_FUNCTION_TO_ASSIGN_RULE_NAME@.len() == 32);
    assert(GROUP_LOCAL_ASSIGNMENT@.len() == 22);
    assert(RENAME_VARIABLES_RULE_NAME@.len() == 16);
    assert(REMOVE_FUNCTION_CALL_PARENS@.len() == 27);
    assert(INJECT_GLOBAL_VALUE_RULE_NAME@.len() == 19);
    assert(VIRTUAL_EXECUTION_RULE_NAME@.len() == 17);
    assert(REMOVE_COMMENTS_RULE_NAME@[7] != REMOVE_EMPTY_DO_RULE_NAME@[7]);
    assert(CONVERT_INDEX_TO_FIELD_RULE_NAME@[0] != GROUP_LOCAL_ASSIGNMENT@[0]);
    assert(REMOVE_UNUSED_WHILE_RULE_NAME@[0] != INJECT_GLOBAL_VALUE_RULE_NAME@[0]);
}

/// The rules that run where nothing else is asked for, in the order in which they run.
pub open spec fn default_stack() -> Seq<KnownRule> {
    seq![
        KnownRule::RemoveSpaces,
        KnownRule::RemoveComments,
        KnownRule::ComputeExpression,
        KnownRule::RemoveUnusedIfBranch,
        KnownRule::RemoveUnusedWhile,
        KnownRule::RemoveEmptyDo,
        KnownRule::RemoveMethodDefinition,
        KnownRule::ConvertIndexToField,
        KnownRule::ConvertLocalFunctionToAssign,
        KnownRule::GroupLocalAssignment,
        KnownRule::RenameVariables,
        KnownRule::RemoveFunctionCallParens,
    ]
}

/// The rules that run where nothing else is asked for, in the order in
/// which they run. Each of them keeps what the program does.
pub fn get_default_rules() -> (rules: Vec<KnownRule>)
    ensures
        rules@ == default_stack(),
{
    let mut rules = Vec::new();
    rules.push(KnownRule::RemoveSpaces);
    rules.push(KnownRule::RemoveComments);
    rules.push(KnownRule::ComputeExpression);
    rules.push(KnownRule::RemoveUnusedIfBranch);
    rules.push(KnownRule::RemoveUnusedWhile);
    rules.push(KnownRule::RemoveEmptyDo);
    rules.push(KnownRule::RemoveMethodDefinition);
    rules.push(KnownRule::ConvertIndexToField);
    rules.push(KnownRule::ConvertLocalFunctionToAssign);
    rules.push(KnownRule::GroupLocalAssignment);
    rules.push(KnownRule::RenameVariables);
    rules.push(KnownRule::RemoveFunctionCallParens);
    assert(rules@ =~= default_stack());
    rules
}

} // verus!
