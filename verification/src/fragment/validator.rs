//! Structural validation of a fragment AST: the `if`/`else`/`endif` and
//! `script`/`endscript` state machines. Read only; every error is
//! collected (no fail-fast).

use vstd::prelude::*;
use crate::fragment::token::{FlatPageToken, TokenV};

verus! {

/// Semantic error produced by `validate_ast`.
#[derive(Debug, PartialEq, Eq)]
pub enum SemanticError<'src> {
    /// `{% endif %}` while no block is open.
    UnexpectedEndIf,
    /// A condition opened while a block is already open (either branch).
    /// The nested opening is ignored; the outer block stays current.
    NestedIfNotSupported { nested_entity: &'src str, nested_field: &'src str },
    /// End of the AST with a conditional block still open.
    UnclosedIf { entity: &'src str, field: &'src str },
    /// `{% else %}` while no block is open.
    UnexpectedElse,
    /// A second `{% else %}` in the same block; the state is kept.
    DuplicateElse,
    /// `{% endscript %}` while no script block is open.
    UnexpectedEndScript,
    /// `{% script %}` while a script block is already open.
    NestedScriptNotSupported,
    /// End of the AST with a script block still open.
    UnclosedScript,
}

/// Value of a semantic error.
pub enum SemErrV {
    UnexpectedEndIf,
    NestedIfNotSupported { nested_entity: Seq<char>, nested_field: Seq<char> },
    UnclosedIf { entity: Seq<char>, field: Seq<char> },
    UnexpectedElse,
    DuplicateElse,
    UnexpectedEndScript,
    NestedScriptNotSupported,
    UnclosedScript,
}

impl<'src> View for SemanticError<'src> {
    type V = SemErrV;

    open spec fn view(&self) -> SemErrV {
        match *self {
            SemanticError::UnexpectedEndIf => SemErrV::UnexpectedEndIf,
            SemanticError::NestedIfNotSupported { nested_entity, nested_field } =>
                SemErrV::NestedIfNotSupported {
                nested_entity: nested_entity@,
                nested_field: nested_field@,
            },
            SemanticError::UnclosedIf { entity, field } => SemErrV::UnclosedIf {
                entity: entity@,
                field: field@,
            },
            SemanticError::UnexpectedElse => SemErrV::UnexpectedElse,
            SemanticError::DuplicateElse => SemErrV::DuplicateElse,
            SemanticError::UnexpectedEndScript => SemErrV::UnexpectedEndScript,
            SemanticError::NestedScriptNotSupported => SemErrV::NestedScriptNotSupported,
            SemanticError::UnclosedScript => SemErrV::UnclosedScript,
        }
    }
}

/// State of the conditional state machine.
pub enum IfStateV {
    Closed,
    Open { entity: Seq<char>, field: Seq<char> },
    InElse { entity: Seq<char>, field: Seq<char> },
}

/// Both state machines and the errors collected so far.
pub struct ValState {
    pub cond: IfStateV,
    pub script_open: bool,
    pub errors: Seq<SemErrV>,
}

/// Entity and field of a condition opener.
pub open spec fn if_operands(t: TokenV) -> (Seq<char>, Seq<char>) {
    match t {
        TokenV::IfBool { entity, field } => (entity, field),
        TokenV::IfEq { entity, field, .. } => (entity, field),
        TokenV::IfNeq { entity, field, .. } => (entity, field),
        _ => (Seq::empty(), Seq::empty()),
    }
}

/// One transition of the two state machines.
pub open spec fn validate_step(st: ValState, t: TokenV) -> ValState {
    if t is IfBool || t is IfEq || t is IfNeq {
        let (entity, field) = if_operands(t);
        match st.cond {
            IfStateV::Closed => ValState { cond: IfStateV::Open { entity, field }, ..st },
            _ => ValState {
                errors: st.errors.push(
                    SemErrV::NestedIfNotSupported { nested_entity: entity, nested_field: field },
                ),
                ..st
            },
        }
    } else if t is Else {
        match st.cond {
            IfStateV::Open { entity, field } => ValState {
                cond: IfStateV::InElse { entity, field },
                ..st
            },
            IfStateV::InElse { .. } => ValState {
                errors: st.errors.push(SemErrV::DuplicateElse),
                ..st
            },
            IfStateV::Closed => ValState { errors: st.errors.push(SemErrV::UnexpectedElse), ..st },
        }
    } else if t is EndIf {
        match st.cond {
            IfStateV::Closed => ValState { errors: st.errors.push(SemErrV::UnexpectedEndIf), ..st },
            _ => ValState { cond: IfStateV::Closed, ..st },
        }
    } else if t is ScriptStart {
        if st.script_open {
            ValState { errors: st.errors.push(SemErrV::NestedScriptNotSupported), ..st }
        } else {
            ValState { script_open: true, ..st }
        }
    } else if t is ScriptEnd {
        if st.script_open {
            ValState { script_open: false, ..st }
        } else {
            ValState { errors: st.errors.push(SemErrV::UnexpectedEndScript), ..st }
        }
    } else {
        st
    }
}

/// The state after walking `ts` from the closed state.
pub open spec fn validate_prefix(ts: Seq<TokenV>) -> ValState
    decreases ts.len(),
{
    if ts.len() == 0 {
        ValState { cond: IfStateV::Closed, script_open: false, errors: Seq::empty() }
    } else {
        validate_step(validate_prefix(ts.drop_last()), ts.last())
    }
}

/// Errors of the end-of-input parity checks.
pub open spec fn eof_errors(st: ValState) -> Seq<SemErrV> {
    let a: Seq<SemErrV> = match st.cond {
        IfStateV::Open { entity, field } => seq![SemErrV::UnclosedIf { entity, field }],
        IfStateV::InElse { entity, field } => seq![SemErrV::UnclosedIf { entity, field }],
        IfStateV::Closed => Seq::empty(),
    };
    if st.script_open {
        a.push(SemErrV::UnclosedScript)
    } else {
        a
    }
}

/// Every semantic error of `ts`, in the order `validate_ast` reports them.
pub open spec fn semantic_errors(ts: Seq<TokenV>) -> Seq<SemErrV> {
    let st = validate_prefix(ts);
    st.errors + eof_errors(st)
}

/// Executable state of the conditional state machine.
#[derive(Clone, Copy)]
enum IfState<'src> {
    Closed,
    Open { entity: &'src str, field: &'src str },
    InElse { entity: &'src str, field: &'src str },
}

impl<'src> View for IfState<'src> {
    type V = IfStateV;

    closed spec fn view(&self) -> IfStateV {
        match *self {
            IfState::Closed => IfStateV::Closed,
            IfState::Open { entity, field } => IfStateV::Open { entity: entity@, field: field@ },
            IfState::InElse { entity, field } => IfStateV::InElse {
                entity: entity@,
                field: field@,
            },
        }
    }
}

/// Walks the AST and checks both block state machines; `Err` carries every
/// error found, in order.
pub fn validate_ast<'src>(tokens: &[FlatPageToken<'src>]) -> (r: Result<
    (),
    Vec<SemanticError<'src>>,
>)
    ensures
        match r {
            Ok(_) => semantic_errors(tokens.deep_view()).len() == 0,
            Err(errs) => errs@.map_values(|e: SemanticError<'src>| e@) == semantic_errors(
                tokens.deep_view(),
            ) && errs@.len() > 0,
        },
{
    let ghost ts = tokens.deep_view();
    let mut errors: Vec<SemanticError<'src>> = Vec::new();
    let mut if_state: IfState<'src> = IfState::Closed;
    let mut current_open_script = false;
    let mut i: usize = 0;
    assert(ts.take(0) =~= Seq::<TokenV>::empty());
    assert(errors@.map_values(|e: SemanticError<'src>| e@) =~= Seq::<SemErrV>::empty());
    while i < tokens.len()
        invariant
            ts == tokens.deep_view(),
            i <= tokens.len(),
            validate_prefix(ts.take(i as int)) == (ValState {
                cond: if_state@,
                script_open: current_open_script,
                errors: errors@.map_values(|e: SemanticError<'src>| e@),
            }),
        decreases tokens.len() - i,
    {
        let ghost before = errors@.map_values(|e: SemanticError<'src>| e@);
        let t = tokens[i];
        assert(ts.take(i + 1).drop_last() =~= ts.take(i as int));
        assert(ts.take(i + 1).last() == t.deep_view());
        match t {
            FlatPageToken::IfBool { entity, field }
            | FlatPageToken::IfEq { entity, field, .. }
            | FlatPageToken::IfNeq { entity, field, .. } => match if_state {
                IfState::Closed => {
                    if_state = IfState::Open { entity, field };
                },
                _ => {
                    errors.push(
                        SemanticError::NestedIfNotSupported {
                            nested_entity: entity,
                            nested_field: field,
                        },
                    );
                },
            },
            FlatPageToken::Else => match if_state {
                IfState::Open { entity, field } => {
                    if_state = IfState::InElse { entity, field };
                },
                IfState::InElse { .. } => {
                    errors.push(SemanticError::DuplicateElse);
                },
                IfState::Closed => {
                    errors.push(SemanticError::UnexpectedElse);
                },
            },
            FlatPageToken::EndIf => match if_state {
                IfState::Closed => {
                    errors.push(SemanticError::UnexpectedEndIf);
                },
                _ => {
                    if_state = IfState::Closed;
                },
            },
            FlatPageToken::ScriptStart => {
                if current_open_script {
                    errors.push(SemanticError::NestedScriptNotSupported);
                } else {
                    current_open_script = true;
                }
            },
            FlatPageToken::ScriptEnd => {
                if current_open_script {
                    current_open_script = false;
                } else {
                    errors.push(SemanticError::UnexpectedEndScript);
                }
            },
            _ => {},
        }
        assert(errors@.map_values(|e: SemanticError<'src>| e@) =~= before
            || errors@.map_values(|e: SemanticError<'src>| e@) =~= before.push(
            errors@.last()@,
        ));
        i = i + 1;
    }
    assert(ts.take(i as int) =~= ts);
    let ghost mid = errors@.map_values(|e: SemanticError<'src>| e@);
    match if_state {
        IfState::Open { entity, field } | IfState::InElse { entity, field } => {
            errors.push(SemanticError::UnclosedIf { entity, field });
        },
        IfState::Closed => {},
    }
    let ghost mid2 = errors@.map_values(|e: SemanticError<'src>| e@);
    if current_open_script {
        errors.push(SemanticError::UnclosedScript);
    }
    assert(errors@.map_values(|e: SemanticError<'src>| e@) =~= semantic_errors(ts));
    if errors.len() == 0 {
        Ok(())
    } else {
        Err(errors)
    }
}

} // verus!
