//! The control flow of a score: `#RANDOM`, `#SETRANDOM`, `#IF`, `#ELSEIF`, `#ELSE`,
//! `#ENDIF`, `#ENDRANDOM`, `#SWITCH`, `#SETSWITCH`, `#CASE`, `#SKIP`, `#DEF` and `#ENDSW`.
//!
//! A random scope draws a number from 1 to its argument (or takes the number given to
//! `#SETRANDOM`); an `#IF` block is active when its number equals the drawn one, and `#ELSE`
//! when no block of its chain was. A switch scope draws the same way; the `#CASE` of the drawn
//! number starts the active part, which falls through the following `#CASE`s and `#DEF`
//! until `#SKIP`; `#DEF` starts it when no `#CASE` has. The tokens handed on are those read
//! while every enclosing scope is active. Every branch is also kept, processed on its own,
//! so that the score can be written back with all its branches.
use crate::bms::error::{ParseError, ParseErrorWithRange, ParseWarning, ParseWarningWithRange, SourceRange};
use crate::bms::lex::{Token, TokenWithRange};
use crate::bms::model::{Bms, ControlFlowValue, RandomizedBranch, RandomizedObjects};
use crate::bms::parse::TokenProcessor;
use crate::bms::prompt::Prompter;
use crate::bms::rng::Rng;
use crate::text::{
    concat, debug_quoted, eq_ignore_ascii_case, eq_ignore_case, owned, parse_u64, spec_parse_unsigned, upper,
};
use core::ops::RangeInclusive;
use std::collections::BTreeMap;
use std::rc::Rc;
use vstd::prelude::*;

verus! {

broadcast use vstd::laws_cmp::group_laws_cmp, vstd::std_specs::btree::group_btree_axioms;

/// The state of one enclosing scope.
#[derive(Debug, Clone, Copy, PartialEq, Eq, Hash, Structural)]
pub enum ProcessState {
    /// Outside every scope.
    Root,
    /// In a random scope that drew `generated`; `activated` when the scope itself is read.
    Random { generated: u64, activated: bool },
    /// In an `#IF` or `#ELSEIF` block; `if_chain_has_been_activated` when this block or an
    /// earlier one of its chain matched.
    IfBlock { if_chain_has_been_activated: bool, activated: bool },
    /// In an `#ELSE` block.
    ElseBlock { activated: bool },
    /// In a switch scope before its active part.
    SwitchBeforeActive { generated: u64 },
    /// In the active part of a switch scope.
    SwitchActive { generated: u64 },
    /// In a switch scope that is not read, or after a `#DEF`... that did not start it.
    SwitchAfterActive { generated: u64 },
    /// In a switch scope after `#SKIP`.
    SwitchSkipping,
}

/// The control commands.
#[derive(Debug, Clone, Copy, PartialEq, Eq, Hash, Structural)]
pub enum Control {
    /// `#RANDOM n`.
    Random,
    /// `#SETRANDOM n`.
    SetRandom,
    /// `#IF n`.
    If,
    /// `#ELSEIF n`.
    ElseIf,
    /// `#ELSE`.
    Else,
    /// `#ENDIF`.
    EndIf,
    /// `#ENDRANDOM`.
    EndRandom,
    /// `#SWITCH n`.
    Switch,
    /// `#SETSWITCH n`.
    SetSwitch,
    /// `#CASE n`.
    Case,
    /// `#SKIP`.
    Skip,
    /// `#DEF`.
    Def,
    /// `#ENDSW`.
    EndSwitch,
}

/// Whether one scope lets its tokens through.
pub open spec fn state_activates(s: ProcessState) -> bool {
    match s {
        ProcessState::Root => true,
        ProcessState::Random { activated, .. } => activated,
        ProcessState::IfBlock { activated, .. } => activated,
        ProcessState::ElseBlock { activated } => activated,
        ProcessState::SwitchActive { .. } => true,
        _ => false,
    }
}

/// Whether tokens are read: every enclosing scope lets them through.
pub open spec fn stack_activated(st: Seq<ProcessState>) -> bool {
    forall|i: int| 0 <= i < st.len() ==> #[trigger] state_activates(st[i])
}

/// A stack of scopes: the root at the bottom and nowhere else.
pub open spec fn wf_stack(st: Seq<ProcessState>) -> bool {
    &&& st.len() >= 1
    &&& st[0] is Root
    &&& forall|i: int| 1 <= i < st.len() ==> !(#[trigger] st[i] is Root)
}

/// The control command that a header name stands for, ignoring ASCII case.
pub open spec fn spec_control(name: Seq<char>) -> Option<Control> {
    if eq_ignore_case(name, "RANDOM"@) {
        Some(Control::Random)
    } else if eq_ignore_case(name, "SETRANDOM"@) {
        Some(Control::SetRandom)
    } else if eq_ignore_case(name, "IF"@) {
        Some(Control::If)
    } else if eq_ignore_case(name, "ELSEIF"@) {
        Some(Control::ElseIf)
    } else if eq_ignore_case(name, "ELSE"@) {
        Some(Control::Else)
    } else if eq_ignore_case(name, "ENDIF"@) {
        Some(Control::EndIf)
    } else if eq_ignore_case(name, "ENDRANDOM"@) {
        Some(Control::EndRandom)
    } else if eq_ignore_case(name, "SWITCH"@) {
        Some(Control::Switch)
    } else if eq_ignore_case(name, "SETSWITCH"@) {
        Some(Control::SetSwitch)
    } else if eq_ignore_case(name, "CASE"@) {
        Some(Control::Case)
    } else if eq_ignore_case(name, "SKIP"@) {
        Some(Control::Skip)
    } else if eq_ignore_case(name, "DEF"@) {
        Some(Control::Def)
    } else if eq_ignore_case(name, "ENDSW"@) {
        Some(Control::EndSwitch)
    } else {
        None
    }
}

/// Each control command is named by its word alone, in any ASCII case: a header name stands
/// for a command exactly when it equals that command's word ignoring case (so `else` is
/// `#ELSE`, while `ELSEIF` and `ELSE` stay apart).
pub proof fn lemma_control_words(name: Seq<char>)
    ensures
        eq_ignore_case(name, "RANDOM"@) <==> spec_control(name) == Some(Control::Random),
        eq_ignore_case(name, "SETRANDOM"@) <==> spec_control(name) == Some(Control::SetRandom),
        eq_ignore_case(name, "IF"@) <==> spec_control(name) == Some(Control::If),
        eq_ignore_case(name, "ELSEIF"@) <==> spec_control(name) == Some(Control::ElseIf),
        eq_ignore_case(name, "ELSE"@) <==> spec_control(name) == Some(Control::Else),
        eq_ignore_case(name, "ENDIF"@) <==> spec_control(name) == Some(Control::EndIf),
        eq_ignore_case(name, "ENDRANDOM"@) <==> spec_control(name) == Some(Control::EndRandom),
        eq_ignore_case(name, "SWITCH"@) <==> spec_control(name) == Some(Control::Switch),
        eq_ignore_case(name, "SETSWITCH"@) <==> spec_control(name) == Some(Control::SetSwitch),
        eq_ignore_case(name, "CASE"@) <==> spec_control(name) == Some(Control::Case),
        eq_ignore_case(name, "SKIP"@) <==> spec_control(name) == Some(Control::Skip),
        eq_ignore_case(name, "DEF"@) <==> spec_control(name) == Some(Control::Def),
        eq_ignore_case(name, "ENDSW"@) <==> spec_control(name) == Some(Control::EndSwitch),
{
    reveal_strlit("RANDOM");
    reveal_strlit("SETRANDOM");
    reveal_strlit("IF");
    reveal_strlit("ELSEIF");
    reveal_strlit("ELSE");
    reveal_strlit("ENDIF");
    reveal_strlit("ENDRANDOM");
    reveal_strlit("SWITCH");
    reveal_strlit("SETSWITCH");
    reveal_strlit("CASE");
    reveal_strlit("SKIP");
    reveal_strlit("DEF");
    reveal_strlit("ENDSW");
    if eq_ignore_case(name, "ELSEIF"@) {
        assert(upper(name[0]) == upper("ELSEIF"@[0]));
        assert(!eq_ignore_case(name, "RANDOM"@)) by {
            assert(upper("RANDOM"@[0]) != upper("ELSEIF"@[0]));
        }
    }
    if eq_ignore_case(name, "ENDRANDOM"@) {
        assert(upper(name[0]) == upper("ENDRANDOM"@[0]));
        assert(!eq_ignore_case(name, "SETRANDOM"@)) by {
            assert(upper("SETRANDOM"@[0]) != upper("ENDRANDOM"@[0]));
        }
    }
    if eq_ignore_case(name, "SWITCH"@) {
        assert(upper(name[0]) == upper("SWITCH"@[0]));
        assert(!eq_ignore_case(name, "RANDOM"@)) by {
            assert(upper("RANDOM"@[0]) != upper("SWITCH"@[0]));
        }
        assert(!eq_ignore_case(name, "ELSEIF"@)) by {
            assert(upper("ELSEIF"@[0]) != upper("SWITCH"@[0]));
        }
    }
    if eq_ignore_case(name, "SETSWITCH"@) {
        assert(upper(name[3]) == upper("SETSWITCH"@[3]));
        assert(!eq_ignore_case(name, "SETRANDOM"@)) by {
            assert(upper("SETRANDOM"@[3]) != upper("SETSWITCH"@[3]));
        }
        assert(upper(name[0]) == upper("SETSWITCH"@[0]));
        assert(!eq_ignore_case(name, "ENDRANDOM"@)) by {
            assert(upper("ENDRANDOM"@[0]) != upper("SETSWITCH"@[0]));
        }
    }
    if eq_ignore_case(name, "CASE"@) {
        assert(upper(name[0]) == upper("CASE"@[0]));
        assert(!eq_ignore_case(name, "ELSE"@)) by {
            assert(upper("ELSE"@[0]) != upper("CASE"@[0]));
        }
    }
    if eq_ignore_case(name, "SKIP"@) {
        assert(upper(name[0]) == upper("SKIP"@[0]));
        assert(!eq_ignore_case(name, "ELSE"@)) by {
            assert(upper("ELSE"@[0]) != upper("SKIP"@[0]));
        }
        assert(!eq_ignore_case(name, "CASE"@)) by {
            assert(upper("CASE"@[0]) != upper("SKIP"@[0]));
        }
    }
    if eq_ignore_case(name, "ENDSW"@) {
        assert(upper(name[3]) == upper("ENDSW"@[3]));
        assert(!eq_ignore_case(name, "ENDIF"@)) by {
            assert(upper("ENDIF"@[3]) != upper("ENDSW"@[3]));
        }
    }
}

/// The number of a control command's argument, as `u64::from_str` reads it.
pub open spec fn spec_arg(args: Seq<char>) -> Option<u64> {
    match spec_parse_unsigned(args, u64::MAX as int) {
        Some(v) => Some(v as u64),
        None => None,
    }
}

/// Whether the command draws a number: `#RANDOM` and `#SWITCH` with a readable argument.
pub open spec fn needs_gen(c: Control, arg: Option<u64>) -> bool {
    (c is Random || c is Switch) && arg is Some
}

/// The stack without the random scope on top that `#ENDRANDOM` closes (it closes an
/// `#IF`/`#ELSE` block as well); `None` when neither is on top.
pub open spec fn spec_end_random(st: Seq<ProcessState>) -> Option<Seq<ProcessState>> {
    match st.last() {
        ProcessState::Random { .. } | ProcessState::IfBlock { .. } | ProcessState::ElseBlock {
            ..
        } => Some(st.drop_last()),
        _ => None,
    }
}

/// The stack after closing every random scope and `#IF`/`#ELSE` block on top.
pub open spec fn pop_blocks(st: Seq<ProcessState>) -> Seq<ProcessState>
    decreases st.len(),
{
    if st.len() > 1 && (st.last() is Random || st.last() is IfBlock || st.last() is ElseBlock) {
        pop_blocks(st.drop_last())
    } else {
        st
    }
}

/// Opens an `#IF` block under a random scope that drew `g`.
pub open spec fn if_push(st: Seq<ProcessState>, g: u64, arg: Option<u64>) -> Option<
    Seq<ProcessState>,
> {
    match arg {
        None => Some(st),
        Some(c) => Some(
            st.push(ProcessState::IfBlock { if_chain_has_been_activated: g == c, activated: g == c }),
        ),
    }
}

/// Opens a random scope with the number `g` given or drawn for the maximum `max`.
pub open spec fn random_push(st: Seq<ProcessState>, g: u64, max: Option<u64>) -> Option<
    Seq<ProcessState>,
> {
    let act = stack_activated(st);
    match max {
        Some(m) => if act && !(1 <= g && g <= m) {
            None
        } else {
            Some(st.push(ProcessState::Random { generated: g, activated: act }))
        },
        None => Some(st.push(ProcessState::Random { generated: g, activated: act })),
    }
}

/// Opens a switch scope with the number `g` given or drawn for the maximum `max`.
pub open spec fn switch_push(st: Seq<ProcessState>, g: u64, max: Option<u64>) -> Option<
    Seq<ProcessState>,
> {
    if stack_activated(st) {
        match max {
            Some(m) => if !(1 <= g && g <= m) {
                None
            } else {
                Some(st.push(ProcessState::SwitchBeforeActive { generated: g }))
            },
            None => Some(st.push(ProcessState::SwitchBeforeActive { generated: g })),
        }
    } else {
        Some(st.push(ProcessState::SwitchAfterActive { generated: g }))
    }
}

/// The stack after a control command with the argument `arg` (`None` when it is no
/// number) and, for a command that draws, the number `g` drawn; `None` when the command is
/// misplaced or the number drawn for an active scope is outside its range.
pub open spec fn spec_step(st: Seq<ProcessState>, c: Control, arg: Option<u64>, g: u64) -> Option<
    Seq<ProcessState>,
> {
    match c {
        Control::Random => {
            let pre = if st.last() is Random {
                st.drop_last()
            } else {
                st
            };
            match arg {
                None => Some(pre),
                Some(max) => random_push(pre, g, Some(max)),
            }
        },
        Control::SetRandom => {
            let pre = if st.last() is Random {
                st.drop_last()
            } else {
                st
            };
            match arg {
                None => Some(pre),
                Some(v) => random_push(pre, v, None),
            }
        },
        Control::If => match st.last() {
            ProcessState::Random { generated, .. } => if_push(st, generated, arg),
            ProcessState::IfBlock { .. } | ProcessState::ElseBlock { .. } => {
                let p = st.drop_last();
                match p.last() {
                    ProcessState::Random { generated, .. } => if_push(p, generated, arg),
                    _ => None,
                }
            },
            _ => None,
        },
        Control::ElseIf => match st.last() {
            ProcessState::IfBlock { if_chain_has_been_activated, .. } => {
                let p = st.drop_last();
                match p.last() {
                    ProcessState::Random { generated, .. } => match arg {
                        None => Some(p),
                        Some(v) => if if_chain_has_been_activated {
                            Some(
                                p.push(
                                    ProcessState::IfBlock {
                                        if_chain_has_been_activated: true,
                                        activated: false,
                                    },
                                ),
                            )
                        } else {
                            if_push(p, generated, Some(v))
                        },
                    },
                    _ => None,
                }
            },
            _ => None,
        },
        Control::Else => match st.last() {
            ProcessState::IfBlock { if_chain_has_been_activated, .. } => Some(
                st.drop_last().push(ProcessState::ElseBlock { activated: !if_chain_has_been_activated }),
            ),
            _ => None,
        },
        Control::EndIf => match st.last() {
            ProcessState::IfBlock { .. } | ProcessState::ElseBlock { .. } => Some(st.drop_last()),
            _ => None,
        },
        Control::EndRandom => spec_end_random(st),
        Control::Switch => {
            let pre = if st.last() is Random {
                spec_end_random(st.drop_last())
            } else {
                Some(st)
            };
            match pre {
                None => None,
                Some(p) => match arg {
                    None => Some(p),
                    Some(max) => switch_push(p, g, Some(max)),
                },
            }
        },
        Control::SetSwitch => {
            let pre = if st.last() is Random {
                spec_end_random(st.drop_last())
            } else {
                Some(st)
            };
            match pre {
                None => None,
                Some(p) => match arg {
                    None => Some(p),
                    Some(v) => switch_push(p, v, None),
                },
            }
        },
        Control::Case => match arg {
            None => Some(st),
            Some(v) => {
                let q = pop_blocks(st);
                match q.last() {
                    ProcessState::SwitchBeforeActive { generated } | ProcessState::SwitchAfterActive {
                        generated,
                    } => if generated == v {
                        Some(q.drop_last().push(ProcessState::SwitchActive { generated }))
                    } else {
                        Some(q)
                    },
                    ProcessState::SwitchActive { .. } | ProcessState::SwitchSkipping => Some(q),
                    _ => None,
                }
            },
        },
        Control::Skip => match st.last() {
            ProcessState::SwitchActive { .. } => Some(
                st.drop_last().push(ProcessState::SwitchSkipping),
            ),
            ProcessState::SwitchBeforeActive { .. } | ProcessState::SwitchAfterActive { .. }
            | ProcessState::SwitchSkipping => Some(st),
            _ => None,
        },
        Control::Def => match st.last() {
            ProcessState::SwitchBeforeActive { generated } => Some(
                st.drop_last().push(ProcessState::SwitchActive { generated }),
            ),
            ProcessState::SwitchActive { .. } | ProcessState::SwitchAfterActive { .. }
            | ProcessState::SwitchSkipping => Some(st),
            _ => None,
        },
        Control::EndSwitch => match st.last() {
            ProcessState::SwitchBeforeActive { .. } | ProcessState::SwitchActive { .. }
            | ProcessState::SwitchAfterActive { .. } | ProcessState::SwitchSkipping => Some(
                st.drop_last(),
            ),
            _ => None,
        },
    }
}

/// Whether a control command can fail on the stack `st` for some number drawn: it is
/// misplaced, or it draws for a scope that is read and the number may fall outside its
/// range.
pub open spec fn step_may_fail(st: Seq<ProcessState>, c: Control, arg: Option<u64>) -> bool {
    exists|g: u64| #[trigger] spec_step(st, c, arg, g) is None
}

/// Whether a control command opens a branch: `#IF`, `#ELSEIF`, `#ELSE`, `#CASE`, `#DEF`.
pub open spec fn opens_branch(c: Control) -> bool {
    c is If || c is ElseIf || c is Else || c is Case || c is Def
}

/// Whether the token is a control command that opens a branch.
pub open spec fn token_opens(t: TokenWithRange) -> bool {
    token_control(t) matches Some((c, _)) && opens_branch(c)
}

/// Whether a token before the `k`-th opens a branch.
pub open spec fn opened_before(ts: Seq<TokenWithRange>, k: int) -> bool {
    exists|j: int| 0 <= j < k && #[trigger] token_opens(ts[j])
}

/// Whether no token is a control command.
pub open spec fn no_control(ts: Seq<TokenWithRange>) -> bool {
    forall|k: int| 0 <= k < ts.len() ==> #[trigger] token_control(ts[k]) is None
}

/// Whether reading the control commands may fail: some control command, reached for some
/// numbers drawn before it, can fail for some number drawn (it is misplaced, or draws for a
/// scope that is read), or comes after a branch was opened (reading a branch may fail).
pub open spec fn may_fail(ts: Seq<TokenWithRange>) -> bool {
    exists|k: int, gens: Seq<u64>|
        0 <= k < ts.len() && #[trigger] fails_at(ts, k, run(ts.take(k), gens))
}

/// Whether the `k`-th token is a control command that, on the stack `st` reached before it,
/// can fail for some number drawn or comes after a branch was opened.
pub open spec fn fails_at(ts: Seq<TokenWithRange>, k: int, st: Option<Seq<ProcessState>>) -> bool {
    match (token_control(ts[k]), st) {
        (Some((c, a)), Some(s)) => step_may_fail(s, c, a) || opened_before(ts, k),
        _ => false,
    }
}

/// The control command of a token with its argument, if the token is one.
pub open spec fn token_control(t: TokenWithRange) -> Option<(Control, Option<u64>)> {
    match t.content {
        Token::Header { name, args } => match spec_control(name@) {
            Some(c) => Some((c, spec_arg(args@))),
            None => None,
        },
        _ => None,
    }
}

/// Whether reading the token draws a number.
pub open spec fn token_needs_gen(t: TokenWithRange) -> bool {
    match token_control(t) {
        Some((c, arg)) => needs_gen(c, arg),
        None => false,
    }
}

/// How many numbers reading the tokens draws.
pub open spec fn gens_needed(ts: Seq<TokenWithRange>) -> nat
    decreases ts.len(),
{
    if ts.len() == 0 {
        0
    } else {
        gens_needed(ts.drop_last()) + if token_needs_gen(ts.last()) {
            1nat
        } else {
            0nat
        }
    }
}

/// The stack of scopes after reading the tokens, the numbers drawn being `gens` in turn;
/// `None` when a control command fails.
pub open spec fn run(ts: Seq<TokenWithRange>, gens: Seq<u64>) -> Option<Seq<ProcessState>>
    decreases ts.len(),
{
    if ts.len() == 0 {
        Some(seq![ProcessState::Root])
    } else {
        match run(ts.drop_last(), gens) {
            None => None,
            Some(st) => match token_control(ts.last()) {
                None => Some(st),
                Some((c, arg)) => spec_step(
                    st,
                    c,
                    arg,
                    if needs_gen(c, arg) {
                        gens[gens_needed(ts.drop_last()) as int]
                    } else {
                        0
                    },
                ),
            },
        }
    }
}

/// The tokens read while every enclosing scope is active, control commands included.
pub open spec fn activated_tokens(ts: Seq<TokenWithRange>, gens: Seq<u64>) -> Seq<TokenWithRange>
    decreases ts.len(),
{
    if ts.len() == 0 {
        seq![]
    } else {
        let prev = activated_tokens(ts.drop_last(), gens);
        match run(ts, gens) {
            Some(st) => if stack_activated(st) {
                prev.push(ts.last())
            } else {
                prev
            },
            None => prev,
        }
    }
}

/// A line that is no control command changes neither the stack of scopes nor the numbers
/// drawn: the run after it is the run before it.
pub proof fn lemma_non_control_keeps_stack(ts: Seq<TokenWithRange>, t: TokenWithRange, gens: Seq<u64>)
    requires
        token_control(t) is None,
    ensures
        run(ts.push(t), gens) == run(ts, gens),
        gens_needed(ts.push(t)) == gens_needed(ts),
{
    assert(ts.push(t).drop_last() =~= ts);
}

/// Every run that succeeds keeps the root scope at the bottom of a non-empty stack.
pub proof fn lemma_run_keeps_root(ts: Seq<TokenWithRange>, gens: Seq<u64>)
    requires
        run(ts, gens) is Some,
    ensures
        run(ts, gens)->0.len() >= 1,
        run(ts, gens)->0[0] == ProcessState::Root,
        wf_stack(run(ts, gens)->0),
    decreases ts.len(),
{
    if ts.len() > 0 {
        let p = ts.drop_last();
        lemma_run_keeps_root(p, gens);
        match token_control(ts.last()) {
            Some((c, a)) => {
                let st = run(p, gens)->0;
                let g = if needs_gen(c, a) {
                    gens[gens_needed(p) as int]
                } else {
                    0
                };
                lemma_step_keeps_root(st, c, a, g);
            },
            None => {},
        }
    }
}

/// Numbers drawn after the ones a run needs change nothing of it.
pub proof fn lemma_run_extend(ts: Seq<TokenWithRange>, g1: Seq<u64>, g2: Seq<u64>)
    requires
        g1.len() >= gens_needed(ts),
        g2.len() >= g1.len(),
        g2.take(g1.len() as int) == g1,
    ensures
        run(ts, g1) == run(ts, g2),
        activated_tokens(ts, g1) == activated_tokens(ts, g2),
    decreases ts.len(),
{
    if ts.len() > 0 {
        lemma_run_extend(ts.drop_last(), g1, g2);
        let k = gens_needed(ts.drop_last()) as int;
        if token_needs_gen(ts.last()) {
            assert(g1[k] == g2.take(g1.len() as int)[k]);
        }
    }
}

/// A control command never closes the root: every step keeps the stack well formed.
pub proof fn lemma_step_keeps_root(st: Seq<ProcessState>, c: Control, arg: Option<u64>, g: u64)
    requires
        wf_stack(st),
        spec_step(st, c, arg, g) is Some,
    ensures
        wf_stack(spec_step(st, c, arg, g)->0),
{
    let r = spec_step(st, c, arg, g)->0;
    lemma_pop_blocks_wf(st);
    if st.len() > 1 {
        assert(st.drop_last()[0] == st[0]);
        if st.len() > 2 {
            assert(st.drop_last().drop_last()[0] == st[0]);
        }
    }
    assert forall|i: int| 1 <= i < r.len() implies !(#[trigger] r[i] is Root) by {
        if i < st.len() - 2 {
            assert(st.drop_last().drop_last()[i] == st[i]);
        }
        if i < st.len() - 1 {
            assert(st.drop_last()[i] == st[i]);
        }
        let q = pop_blocks(st);
        if i < q.len() {
            assert(q[i] == st[i]);
        }
        if i < q.len() - 1 {
            assert(q.drop_last()[i] == q[i]);
        }
    }
}

/// Closing blocks keeps the root and keeps a prefix of the stack.
pub proof fn lemma_pop_blocks_wf(st: Seq<ProcessState>)
    requires
        wf_stack(st),
    ensures
        wf_stack(pop_blocks(st)),
        pop_blocks(st).len() <= st.len(),
        forall|i: int| 0 <= i < pop_blocks(st).len() ==> #[trigger] pop_blocks(st)[i] == st[i],
    decreases st.len(),
{
    if st.len() > 1 && (st.last() is Random || st.last() is IfBlock || st.last() is ElseBlock) {
        let d = st.drop_last();
        assert(d[0] == st[0]);
        assert forall|i: int| 1 <= i < d.len() implies !(#[trigger] d[i] is Root) by {
            assert(d[i] == st[i]);
        }
        lemma_pop_blocks_wf(d);
        assert forall|i: int| 0 <= i < pop_blocks(st).len() implies #[trigger] pop_blocks(st)[i]
            == st[i] by {
            assert(pop_blocks(d)[i] == d[i]);
        }
    }
}

/// Under a random scope that drew `g`, `#IF c` opens a block that is read exactly when
/// `c == g` and the scope is read.
pub proof fn lemma_if_matches_generated(st: Seq<ProcessState>, g: u64, a: bool, c: u64, x: u64)
    requires
        wf_stack(st),
        st.last() == (ProcessState::Random { generated: g, activated: a }),
    ensures
        spec_step(st, Control::If, Some(c), x) == Some(
            st.push(ProcessState::IfBlock { if_chain_has_been_activated: g == c, activated: g == c }),
        ),
        stack_activated(spec_step(st, Control::If, Some(c), x)->0) <==> (stack_activated(st) && g
            == c),
{
    let r = st.push(ProcessState::IfBlock { if_chain_has_been_activated: g == c, activated: g == c });
    if stack_activated(r) {
        assert forall|i: int| 0 <= i < st.len() implies #[trigger] state_activates(st[i]) by {
            assert(r[i] == st[i]);
        }
        assert(state_activates(r[r.len() - 1]));
    }
    if stack_activated(st) && g == c {
        assert forall|i: int| 0 <= i < r.len() implies #[trigger] state_activates(r[i]) by {
            if i < st.len() {
                assert(r[i] == st[i]);
            }
        }
    }
}

/// `#ELSE` is read exactly when no block of its chain matched and the scope is read.
pub proof fn lemma_else_after_chain(st: Seq<ProcessState>, chain: bool, a: bool)
    requires
        wf_stack(st),
        st.last() == (ProcessState::IfBlock { if_chain_has_been_activated: chain, activated: a }),
    ensures
        spec_step(st, Control::Else, None, 0) == Some(
            st.drop_last().push(ProcessState::ElseBlock { activated: !chain }),
        ),
        stack_activated(spec_step(st, Control::Else, None, 0)->0) <==> (stack_activated(
            st.drop_last(),
        ) && !chain),
{
    let p = st.drop_last();
    let r = p.push(ProcessState::ElseBlock { activated: !chain });
    if stack_activated(r) {
        assert forall|i: int| 0 <= i < p.len() implies #[trigger] state_activates(p[i]) by {
            assert(r[i] == p[i]);
        }
        assert(state_activates(r[r.len() - 1]));
    }
    if stack_activated(p) && !chain {
        assert forall|i: int| 0 <= i < r.len() implies #[trigger] state_activates(r[i]) by {
            if i < p.len() {
                assert(r[i] == p[i]);
            }
        }
    }
}

/// A header named `ELSE`, in any ASCII case, read in an `#IF` or `#ELSEIF` block closes
/// that block and opens the `#ELSE` block of its chain: the tokens after it are read exactly
/// when no block of the chain matched the drawn number and the enclosing scopes are read.
pub proof fn lemma_else_header_in_run(
    ts: Seq<TokenWithRange>,
    t: TokenWithRange,
    gens: Seq<u64>,
    chain: bool,
    a: bool,
)
    requires
        t.content matches Token::Header { name, .. } && eq_ignore_case(name@, "ELSE"@),
        run(ts, gens) matches Some(st) && st.last() == (ProcessState::IfBlock {
            if_chain_has_been_activated: chain,
            activated: a,
        }),
    ensures
        run(ts.push(t), gens) == Some(
            run(ts, gens)->0.drop_last().push(ProcessState::ElseBlock { activated: !chain }),
        ),
        stack_activated(run(ts.push(t), gens)->0) <==> (stack_activated(
            run(ts, gens)->0.drop_last(),
        ) && !chain),
{
    let st = run(ts, gens)->0;
    lemma_run_keeps_root(ts, gens);
    match t.content {
        Token::Header { name, .. } => lemma_control_words(name@),
        _ => {},
    }
    assert(ts.push(t).drop_last() =~= ts);
    lemma_else_after_chain(st, chain, a);
}

/// Lines that are no control commands leave the stack of scopes and the numbers drawn as
/// they were.
pub proof fn lemma_no_control_keeps_stack(ts: Seq<TokenWithRange>, body: Seq<TokenWithRange>, gens: Seq<u64>)
    requires
        no_control(body),
    ensures
        run(ts + body, gens) == run(ts, gens),
        gens_needed(ts + body) == gens_needed(ts),
    decreases body.len(),
{
    if body.len() == 0 {
        assert(ts + body =~= ts);
    } else {
        let b = body.drop_last();
        assert forall|k: int| 0 <= k < b.len() implies #[trigger] token_control(b[k]) is None by {
            assert(b[k] == body[k]);
        }
        lemma_no_control_keeps_stack(ts, b, gens);
        assert(ts + body =~= (ts + b).push(body.last()));
        assert(token_control(body[body.len() - 1]) is None);
        lemma_non_control_keeps_stack(ts + b, body.last(), gens);
    }
}

/// `#IF c`, then lines that are no control commands, then `#ELSE` (in any ASCII case),
/// under a random scope that drew `g`: the tokens after `#ELSE` are read exactly when `c`
/// is not the drawn number and the enclosing scopes are read.
pub proof fn lemma_if_else_selects(
    ts: Seq<TokenWithRange>,
    t_if: TokenWithRange,
    body: Seq<TokenWithRange>,
    t_else: TokenWithRange,
    gens: Seq<u64>,
    g: u64,
    a: bool,
    c: u64,
)
    requires
        run(ts, gens) matches Some(st) && st.last() == (ProcessState::Random {
            generated: g,
            activated: a,
        }),
        token_control(t_if) == Some((Control::If, Some(c))),
        no_control(body),
        t_else.content matches Token::Header { name, .. } && eq_ignore_case(name@, "ELSE"@),
    ensures
        run((ts.push(t_if) + body).push(t_else), gens) matches Some(s) && (stack_activated(s) <==> (
        stack_activated(run(ts, gens)->0) && g != c)),
{
    let st = run(ts, gens)->0;
    lemma_run_keeps_root(ts, gens);
    lemma_if_matches_generated(st, g, a, c, 0);
    assert(ts.push(t_if).drop_last() =~= ts);
    let s1 = st.push(ProcessState::IfBlock { if_chain_has_been_activated: g == c, activated: g == c });
    assert(run(ts.push(t_if), gens) == Some(s1));
    lemma_no_control_keeps_stack(ts.push(t_if), body, gens);
    lemma_else_header_in_run(ts.push(t_if) + body, t_else, gens, g == c, g == c);
    assert(s1.drop_last() =~= st);
}

/// Once a block of a chain matched, no later `#ELSEIF` of the chain is read.
pub proof fn lemma_else_if_after_match(st: Seq<ProcessState>, a: bool, c: u64)
    requires
        wf_stack(st),
        st.last() == (ProcessState::IfBlock { if_chain_has_been_activated: true, activated: a }),
        st.drop_last().last() is Random,
    ensures
        spec_step(st, Control::ElseIf, Some(c), 0) == Some(
            st.drop_last().push(
                ProcessState::IfBlock { if_chain_has_been_activated: true, activated: false },
            ),
        ),
        !stack_activated(spec_step(st, Control::ElseIf, Some(c), 0)->0),
{
    let r = spec_step(st, Control::ElseIf, Some(c), 0)->0;
    assert(!state_activates(r[r.len() - 1]));
}

/// In the active part of a switch, `#CASE` and `#DEF` go on with it (fall through) and
/// `#SKIP` ends it.
pub proof fn lemma_switch_falls_through(st: Seq<ProcessState>, g: u64, c: u64)
    requires
        wf_stack(st),
        st.last() == (ProcessState::SwitchActive { generated: g }),
    ensures
        spec_step(st, Control::Case, Some(c), 0) == Some(st),
        spec_step(st, Control::Def, None, 0) == Some(st),
        spec_step(st, Control::Skip, None, 0) == Some(
            st.drop_last().push(ProcessState::SwitchSkipping),
        ),
        !stack_activated(spec_step(st, Control::Skip, None, 0)->0),
{
    assert(pop_blocks(st) == st);
    let r = st.drop_last().push(ProcessState::SwitchSkipping);
    assert(!state_activates(r[r.len() - 1]));
}

/// Before the active part, `#CASE c` starts it exactly when `c` is the number of the
/// switch; `#DEF` starts it when no `#CASE` has.
pub proof fn lemma_case_selects(st: Seq<ProcessState>, g: u64, c: u64)
    requires
        wf_stack(st),
        st.last() == (ProcessState::SwitchBeforeActive { generated: g }),
    ensures
        spec_step(st, Control::Case, Some(c), 0) == Some(
            if g == c {
                st.drop_last().push(ProcessState::SwitchActive { generated: g })
            } else {
                st
            },
        ),
        spec_step(st, Control::Def, None, 0) == Some(
            st.drop_last().push(ProcessState::SwitchActive { generated: g }),
        ),
{
    assert(pop_blocks(st) == st);
}

/// A number drawn outside `1..=max` for a scope that is read fails the command.
pub proof fn lemma_out_of_range_fails(st: Seq<ProcessState>, max: u64, g: u64)
    requires
        wf_stack(st),
        !(st.last() is Random),
        stack_activated(st),
        !(1 <= g && g <= max),
    ensures
        spec_step(st, Control::Random, Some(max), g) is None,
        spec_step(st, Control::Switch, Some(max), g) is None,
{
}

/// `#SETRANDOM v` followed by `#IF v` reads the block, and by `#IF w` for another `w` does
/// not, in a part of the score that is read.
pub proof fn lemma_set_random_selects_if(st: Seq<ProcessState>, v: u64, w: u64)
    requires
        wf_stack(st),
        !(st.last() is Random),
        stack_activated(st),
    ensures
        spec_step(st, Control::SetRandom, Some(v), 0) is Some,
        stack_activated(
            spec_step(spec_step(st, Control::SetRandom, Some(v), 0)->0, Control::If, Some(w), 0)->0,
        ) <==> v == w,
{
    let s1 = spec_step(st, Control::SetRandom, Some(v), 0)->0;
    assert(s1 == st.push(ProcessState::Random { generated: v, activated: true }));
    assert forall|i: int| 0 <= i < s1.len() implies #[trigger] state_activates(s1[i]) by {
        if i < st.len() {
            assert(s1[i] == st[i]);
        }
    }
    assert(s1.drop_last() =~= st);
    assert(wf_stack(s1)) by {
        assert(s1[0] == st[0]);
        assert forall|i: int| 1 <= i < s1.len() implies !(#[trigger] s1[i] is Root) by {
            if i < st.len() {
                assert(s1[i] == st[i]);
            }
        }
    }
    lemma_if_matches_generated(s1, v, true, w, 0);
}

/// The records of an open branch: the numbers that select it, the tokens read in it and the
/// scopes closed in it.
pub struct BranchBuffer {
    conditions: Vec<u64>,
    tokens: Vec<TokenWithRange>,
    nested_objects: Vec<RandomizedObjects>,
}

/// An open random or switch scope being recorded.
pub struct RandomScope {
    line_number: usize,
    generating: Option<ControlFlowValue>,
    max_value: Option<u64>,
    branches: BTreeMap<u64, RandomizedBranch>,
    covered_values: Vec<u64>,
    current_branch: Option<BranchBuffer>,
}

/// The recorder of every branch of the scopes of a score.
pub struct Collector {
    stack: Vec<RandomScope>,
    finished_objects: Vec<RandomizedObjects>,
}

impl BranchBuffer {
    /// The numbers that select the branch.
    pub closed spec fn condition_list(&self) -> Seq<u64> {
        self.conditions@
    }

    /// The tokens read in the branch.
    pub closed spec fn token_list(&self) -> Seq<TokenWithRange> {
        self.tokens@
    }

    /// The scopes closed in the branch.
    pub closed spec fn nested_list(&self) -> Seq<RandomizedObjects> {
        self.nested_objects@
    }
}

impl RandomScope {
    /// Where the scope starts in the source.
    pub closed spec fn line(&self) -> usize {
        self.line_number
    }

    /// How the number of the scope is picked.
    pub closed spec fn generating_value(&self) -> Option<ControlFlowValue> {
        self.generating
    }

    /// The largest number the scope draws, when it draws one.
    pub closed spec fn max(&self) -> Option<u64> {
        self.max_value
    }

    /// The branches recorded so far, by their number.
    pub closed spec fn branch_map(&self) -> Map<u64, RandomizedBranch> {
        self.branches@
    }

    /// The numbers that some branch took.
    pub closed spec fn covered(&self) -> Seq<u64> {
        self.covered_values@
    }

    /// The branch being read, if one is.
    pub closed spec fn open_branch(&self) -> Option<BranchBuffer> {
        self.current_branch
    }

    /// The record of the scope once closed.
    pub closed spec fn record(&self) -> RandomizedObjects {
        RandomizedObjects { line_number: self.line_number, generating: self.generating, branches: self.branches }
    }
}

/// Two scopes agree on all but their covered numbers and their open branch.
pub open spec fn same_scope_head(a: RandomScope, b: RandomScope) -> bool {
    &&& a.line() == b.line()
    &&& a.generating_value() == b.generating_value()
    &&& a.max() == b.max()
    &&& a.branch_map() == b.branch_map()
    &&& a.record() == b.record()
}

/// The scopes below the innermost one stay as they were.
pub open spec fn same_below(a: Seq<RandomScope>, b: Seq<RandomScope>) -> bool {
    &&& a.len() == b.len()
    &&& forall|i: int| 0 <= i < a.len() - 1 ==> a[i] == b[i]
}

/// The numbers from 1 to `k` that `cov` does not hold, in increasing order.
pub open spec fn uncovered(cov: Seq<u64>, k: nat) -> Seq<u64>
    decreases k,
{
    if k == 0 {
        Seq::empty()
    } else {
        uncovered(cov, (k - 1) as nat) + if cov.contains(k as u64) {
            Seq::empty()
        } else {
            seq![k as u64]
        }
    }
}

/// Every number of `uncovered(cov, k)` lies in `1..=k`.
proof fn lemma_uncovered_range(cov: Seq<u64>, k: nat)
    requires
        k <= u64::MAX,
    ensures
        forall|i: int| 0 <= i < uncovered(cov, k).len() ==> 1 <= #[trigger] uncovered(cov, k)[i] <= k,
    decreases k,
{
    if k > 0 {
        lemma_uncovered_range(cov, (k - 1) as nat);
        let p = uncovered(cov, (k - 1) as nat);
        assert forall|i: int| 0 <= i < uncovered(cov, k).len() implies 1 <= #[trigger] uncovered(cov, k)[i] <= k by {
            if i < p.len() {
                assert(uncovered(cov, k)[i] == p[i]);
            }
        }
    }
}

/// The recorder after a closed scope `obj` is added to the scopes `scopes` and top-level
/// records `finished`: into the open branch of the innermost scope; nowhere when that scope
/// has none; at the top level when no scope is open.
pub open spec fn adds_nested(
    scopes: Seq<RandomScope>,
    finished: Seq<RandomizedObjects>,
    after: Collector,
    obj: RandomizedObjects,
) -> bool {
    if scopes.len() == 0 {
        after.scopes() == scopes && after.finished() == finished.push(obj)
    } else {
        match scopes.last().open_branch() {
            None => after.scopes() == scopes && after.finished() == finished,
            Some(b) => {
                let l = after.scopes().last();
                &&& after.finished() == finished
                &&& same_below(after.scopes(), scopes)
                &&& same_scope_head(l, scopes.last())
                &&& l.covered() == scopes.last().covered()
                &&& l.open_branch() matches Some(b2) && b2.condition_list() == b.condition_list()
                    && b2.token_list() == b.token_list() && b2.nested_list() == b.nested_list().push(obj)
            },
        }
    }
}

/// The recorder after a scope of the given kind is opened at `line`, with no branch yet:
/// one more scope, the others and the top-level records unchanged.
pub open spec fn opened_scope(before: Collector, after: Collector, generating: ControlFlowValue, line: usize) -> bool {
    let l = after.scopes().last();
    &&& after.scopes().len() == before.scopes().len() + 1
    &&& forall|i: int| 0 <= i < before.scopes().len() ==> after.scopes()[i] == before.scopes()[i]
    &&& l.line() == line
    &&& l.generating_value() == Some(generating)
    &&& l.max() == match generating {
        ControlFlowValue::GenMax(m) => Some(m),
        ControlFlowValue::SetTo(_) => None,
    }
    &&& l.branch_map() == Map::<u64, RandomizedBranch>::empty()
    &&& l.covered().len() == 0
    &&& l.open_branch() is None
    &&& after.finished() == before.finished()
}

impl Collector {
    /// Every open branch holds fewer than `b` tokens.
    pub closed spec fn bounded(&self, b: int) -> bool {
        forall|i: int|
            0 <= i < self.stack@.len() ==> match (#[trigger] self.stack@[i]).current_branch {
                Some(buf) => buf.tokens@.len() < b,
                None => true,
            }
    }

    /// The open scopes, the innermost last.
    pub closed spec fn scopes(&self) -> Seq<RandomScope> {
        self.stack@
    }

    /// The scopes closed at the top level.
    pub closed spec fn finished(&self) -> Seq<RandomizedObjects> {
        self.finished_objects@
    }

    /// Whether some open scope is reading a branch.
    pub open spec fn has_open_branch(&self) -> bool {
        exists|i: int| 0 <= i < self.scopes().len() && (#[trigger] self.scopes()[i]).open_branch() is Some
    }

    /// Nothing recorded.
    pub fn new() -> (r: Self)
        ensures
            r.bounded(0),
            r.scopes().len() == 0,
            r.finished().len() == 0,
    {
        Collector { stack: Vec::new(), finished_objects: Vec::new() }
    }

    /// Opens a scope of the given kind at `line_number`, with no branch yet.
    pub fn push_random(&mut self, generating: ControlFlowValue, line_number: usize)
        ensures
            forall|b: int| old(self).bounded(b) ==> final(self).bounded(b),
            final(self).scopes().len() == old(self).scopes().len() + 1,
            forall|i: int| 0 <= i < old(self).scopes().len() ==> final(self).scopes()[i] == old(self).scopes()[i],
            final(self).scopes().last().line() == line_number,
            final(self).scopes().last().generating_value() == Some(generating),
            final(self).scopes().last().max() == match generating {
                ControlFlowValue::GenMax(m) => Some(m),
                ControlFlowValue::SetTo(_) => None,
            },
            final(self).scopes().last().branch_map() == Map::<u64, RandomizedBranch>::empty(),
            final(self).scopes().last().covered().len() == 0,
            final(self).scopes().last().open_branch() is None,
            final(self).finished() == old(self).finished(),
            final(self).has_open_branch() == old(self).has_open_branch(),
    {
        let max_value = match generating {
            ControlFlowValue::GenMax(m) => Some(m),
            ControlFlowValue::SetTo(_) => None,
        };
        self.stack.push(
            RandomScope {
                line_number,
                generating: Some(generating),
                max_value,
                branches: BTreeMap::new(),
                covered_values: Vec::new(),
                current_branch: None,
            },
        );
        proof {
            if self.has_open_branch() {
                let i = choose|i: int| 0 <= i < self.scopes().len() && (#[trigger] self.scopes()[i]).open_branch() is Some;
                assert(i < old(self).scopes().len());
                assert(old(self).scopes()[i].open_branch() is Some);
            }
            if old(self).has_open_branch() {
                let i = choose|i: int| 0 <= i < old(self).scopes().len() && (#[trigger] old(self).scopes()[i]).open_branch() is Some;
                assert(self.scopes()[i].open_branch() is Some);
            }
        }
    }

    /// Starts the branch of `condition` in the innermost scope, which covers it from now on.
    pub fn start_branch(&mut self, condition: u64)
        ensures
            forall|b: int| b >= 1 && old(self).bounded(b) ==> final(self).bounded(b),
            old(self).scopes().len() == 0 ==> final(self).scopes() == old(self).scopes(),
            old(self).scopes().len() > 0 ==> {
                let o = old(self).scopes().last();
                let l = final(self).scopes().last();
                &&& same_below(final(self).scopes(), old(self).scopes())
                &&& same_scope_head(l, o)
                &&& l.covered() == if o.covered().contains(condition) {
                    o.covered()
                } else {
                    o.covered().push(condition)
                }
                &&& l.open_branch() matches Some(b) && b.condition_list() == seq![condition]
                    && b.token_list().len() == 0 && b.nested_list().len() == 0
            },
            final(self).finished() == old(self).finished(),
    {
        if self.stack.len() > 0 {
            let mut scope = self.stack.pop().unwrap();
            if !contains_u64(&scope.covered_values, condition) {
                scope.covered_values.push(condition);
            }
            scope.current_branch = Some(
                BranchBuffer { conditions: vec![condition], tokens: Vec::new(), nested_objects: Vec::new() },
            );
            self.stack.push(scope);
        }
    }

    /// Records a token in the open branch of the innermost scope; nothing changes when no
    /// branch is open there.
    pub fn add_token(&mut self, token: TokenWithRange)
        ensures
            forall|b: int| old(self).bounded(b) ==> final(self).bounded(b + 1),
            old(self).scopes().len() == 0 || old(self).scopes().last().open_branch() is None
                ==> final(self).scopes() == old(self).scopes(),
            old(self).scopes().len() > 0 ==> match old(self).scopes().last().open_branch() {
                None => true,
                Some(b) => {
                    let l = final(self).scopes().last();
                    &&& same_below(final(self).scopes(), old(self).scopes())
                    &&& same_scope_head(l, old(self).scopes().last())
                    &&& l.covered() == old(self).scopes().last().covered()
                    &&& l.open_branch() matches Some(b2) && b2.condition_list() == b.condition_list()
                        && b2.token_list() == b.token_list().push(token) && b2.nested_list()
                        == b.nested_list()
                },
            },
            final(self).finished() == old(self).finished(),
            final(self).has_open_branch() == old(self).has_open_branch(),
    {
        if self.stack.len() > 0 {
            let mut scope = self.stack.pop().unwrap();
            match scope.current_branch {
                Some(mut buf) => {
                    buf.tokens.push(token);
                    scope.current_branch = Some(buf);
                },
                None => {},
            }
            self.stack.push(scope);
            assert(self.stack@ =~= old(self).stack@.drop_last().push(self.stack@.last()));
            assert(old(self).stack@ =~= old(self).stack@.drop_last().push(old(self).stack@.last()));
        }
        proof {
            let last = old(self).scopes().len() - 1;
            if self.has_open_branch() {
                let i = choose|i: int| 0 <= i < self.scopes().len() && (#[trigger] self.scopes()[i]).open_branch() is Some;
                if i != last {
                    assert(old(self).scopes()[i].open_branch() is Some);
                } else {
                    assert(old(self).scopes()[last].open_branch() is Some);
                }
            }
            if old(self).has_open_branch() {
                let i = choose|i: int| 0 <= i < old(self).scopes().len() && (#[trigger] old(self).scopes()[i]).open_branch() is Some;
                assert(self.scopes()[i].open_branch() is Some);
            }
        }
    }

    /// Records a closed scope in the open branch of the innermost scope, or at the top level
    /// when no scope is open.
    pub fn add_nested_object(&mut self, obj: RandomizedObjects)
        ensures
            forall|b: int| old(self).bounded(b) ==> final(self).bounded(b),
            adds_nested(old(self).scopes(), old(self).finished(), *final(self), obj),
            !old(self).has_open_branch() ==> !final(self).has_open_branch(),
    {
        if self.stack.len() > 0 {
            let mut scope = self.stack.pop().unwrap();
            match scope.current_branch {
                Some(mut buf) => {
                    buf.nested_objects.push(obj);
                    scope.current_branch = Some(buf);
                },
                None => {},
            }
            self.stack.push(scope);
            assert(self.stack@ =~= old(self).stack@.drop_last().push(self.stack@.last()));
            assert(old(self).stack@ =~= old(self).stack@.drop_last().push(old(self).stack@.last()));
        } else {
            self.finished_objects.push(obj);
        }
        proof {
            if !old(self).has_open_branch() {
                assert forall|i: int| 0 <= i < self.scopes().len() implies (
                #[trigger] self.scopes()[i]).open_branch() is None by {
                    assert(old(self).scopes()[i].open_branch() is None);
                }
            }
        }
    }

    /// Closes the innermost scope and records it where `add_nested_object` does.
    fn close_scope(&mut self)
        ensures
            forall|b: int| old(self).bounded(b) ==> final(self).bounded(b),
            old(self).scopes().len() == 0 ==> final(self).scopes() == old(self).scopes()
                && final(self).finished() == old(self).finished(),
            old(self).scopes().len() > 0 ==> adds_nested(
                old(self).scopes().drop_last(),
                old(self).finished(),
                *final(self),
                old(self).scopes().last().record(),
            ),
            !old(self).has_open_branch() ==> !final(self).has_open_branch(),
    {
        if self.stack.len() > 0 {
            let scope = self.stack.pop().unwrap();
            let obj = RandomizedObjects {
                line_number: scope.line_number,
                generating: scope.generating,
                branches: scope.branches,
            };
            proof {
                if !old(self).has_open_branch() {
                    assert forall|i: int| 0 <= i < self.scopes().len() implies (
                    #[trigger] self.scopes()[i]).open_branch() is None by {
                        assert(old(self).scopes()[i].open_branch() is None);
                    }
                }
            }
            self.add_nested_object(obj);
        }
    }

    /// Starts, in the innermost scope with a maximum, the branch of every number from 1 to
    /// the maximum that no branch has taken yet (`#ELSE`, `#DEF`); they are covered from now
    /// on. Nothing changes without an open scope or a maximum.
    fn start_remaining_branch(&mut self)
        ensures
            forall|b: int| b >= 1 && old(self).bounded(b) ==> final(self).bounded(b),
            old(self).scopes().len() == 0 || old(self).scopes().last().max() is None
                ==> final(self).scopes() == old(self).scopes(),
            old(self).scopes().len() > 0 ==> match old(self).scopes().last().max() {
                None => true,
                Some(m) => {
                    let o = old(self).scopes().last();
                    let l = final(self).scopes().last();
                    let rest = uncovered(o.covered(), m as nat);
                    &&& same_below(final(self).scopes(), old(self).scopes())
                    &&& same_scope_head(l, o)
                    &&& l.covered() == o.covered() + rest
                    &&& l.open_branch() matches Some(b) && b.condition_list() == rest
                        && b.token_list().len() == 0 && b.nested_list().len() == 0
                },
            },
            final(self).finished() == old(self).finished(),
    {
        if self.stack.len() > 0 {
            let mut scope = self.stack.pop().unwrap();
            let ghost cov0 = scope.covered_values@;
            let ghost s0 = scope;
            match scope.max_value {
                Some(max) => {
                    let mut conditions: Vec<u64> = Vec::new();
                    let mut current: u64 = 1;
                    while current <= max
                        invariant_except_break
                            1 <= current,
                            current <= max + 1,
                            conditions@ == uncovered(cov0, (current - 1) as nat),
                        invariant
                            scope.covered_values@ == cov0 + conditions@,
                            scope.max_value == Some(max),
                            scope.line_number == s0.line_number,
                            scope.generating == s0.generating,
                            scope.branches == s0.branches,
                        ensures
                            conditions@ == uncovered(cov0, max as nat),
                            scope.covered_values@ == cov0 + conditions@,
                            scope.max_value == Some(max),
                            scope.line_number == s0.line_number,
                            scope.generating == s0.generating,
                            scope.branches == s0.branches,
                        decreases max - current,
                    {
                        proof {
                            lemma_uncovered_range(cov0, (current - 1) as nat);
                            assert(scope.covered_values@.contains(current) <==> cov0.contains(current)) by {
                                if scope.covered_values@.contains(current) && !cov0.contains(current) {
                                    let k = choose|k: int| 0 <= k < scope.covered_values@.len() && scope.covered_values@[k] == current;
                                    assert(conditions@[k - cov0.len()] == current);
                                }
                                if cov0.contains(current) {
                                    let k = choose|k: int| 0 <= k < cov0.len() && cov0[k] == current;
                                    assert(scope.covered_values@[k] == current);
                                }
                            }
                        }
                        if !contains_u64(&scope.covered_values, current) {
                            conditions.push(current);
                            scope.covered_values.push(current);
                        }
                        assert(conditions@ == uncovered(cov0, current as nat));
                        if current == max {
                            break ;
                        }
                        current = current + 1;
                    }
                    scope.current_branch = Some(
                        BranchBuffer { conditions, tokens: Vec::new(), nested_objects: Vec::new() },
                    );
                },
                None => {},
            }
            self.stack.push(scope);
            assert(self.stack@ =~= old(self).stack@.drop_last().push(self.stack@.last()));
            assert(old(self).stack@ =~= old(self).stack@.drop_last().push(old(self).stack@.last()));
        }
    }
}

/// Whether `v` holds `x`.
fn contains_u64(v: &Vec<u64>, x: u64) -> (r: bool)
    ensures
        r == v@.contains(x),
{
    let mut i: usize = 0;
    while i < v.len()
        invariant
            i <= v@.len(),
            forall|j: int| 0 <= j < i ==> v@[j] != x,
        decreases v@.len() - i,
    {
        if v[i] == x {
            return true;
        }
        i += 1;
    }
    false
}

/// The stack that `#RANDOM` opens its scope on: without the random scope on top.
pub open spec fn random_base(st: Seq<ProcessState>) -> Seq<ProcessState> {
    if st.last() is Random {
        st.drop_last()
    } else {
        st
    }
}

/// The stack that `#SWITCH` opens its scope on: the random scope on top and the one it
/// closes removed; `None` when that is misplaced.
pub open spec fn switch_base(st: Seq<ProcessState>) -> Option<Seq<ProcessState>> {
    if st.last() is Random {
        spec_end_random(st.drop_last())
    } else {
        Some(st)
    }
}

/// Opens the scope of `#RANDOM max` at the line `range.start` for the number `drawn`. A
/// number outside `1..=max` for a scope that is read is the error
/// `RandomGeneratedValueOutOfRange`, and nothing changes; otherwise the scope records the
/// number and whether it is read.
pub fn open_random_drawn(
    max: u64,
    drawn: u64,
    stack: &mut Vec<ProcessState>,
    collector: &mut Collector,
    range: SourceRange,
) -> (r: Result<(), ParseErrorWithRange>)
    requires
        wf_stack(old(stack)@),
    ensures
        r is Err <==> stack_activated(old(stack)@) && !(1 <= drawn <= max),
        r is Err ==> r == Err::<(), ParseErrorWithRange>(
            ParseErrorWithRange {
                error: ParseError::RandomGeneratedValueOutOfRange { start: 1, end: max, actual: drawn },
                range,
            },
        ) && final(stack)@ == old(stack)@ && *final(collector) == *old(collector),
        r is Ok ==> final(stack)@ == old(stack)@.push(
            ProcessState::Random { generated: drawn, activated: stack_activated(old(stack)@) },
        ) && opened_scope(*old(collector), *final(collector), ControlFlowValue::GenMax(max), range.start),
        random_push(old(stack)@, drawn, Some(max)) == if r is Ok {
            Some(final(stack)@)
        } else {
            None
        },
        wf_stack(final(stack)@),
        final(collector).has_open_branch() == old(collector).has_open_branch(),
{
    let activated = is_activated(stack);
    if activated && !(1 <= drawn && drawn <= max) {
        return Err(
            ParseErrorWithRange {
                error: ParseError::RandomGeneratedValueOutOfRange { start: 1, end: max, actual: drawn },
                range,
            },
        );
    }
    stack.push(ProcessState::Random { generated: drawn, activated });
    collector.push_random(ControlFlowValue::GenMax(max), range.start);
    Ok(())
}

/// Opens the scope of `#SWITCH max` at the line `range.start` for the number `drawn`. A
/// number outside `1..=max` for a scope that is read is the error
/// `SwitchGeneratedValueOutOfRange`, and nothing changes; otherwise a read scope waits for
/// its `#CASE` and one that is not read is passed over.
pub fn open_switch_drawn(
    max: u64,
    drawn: u64,
    stack: &mut Vec<ProcessState>,
    collector: &mut Collector,
    range: SourceRange,
) -> (r: Result<(), ParseErrorWithRange>)
    requires
        wf_stack(old(stack)@),
    ensures
        r is Err <==> stack_activated(old(stack)@) && !(1 <= drawn <= max),
        r is Err ==> r == Err::<(), ParseErrorWithRange>(
            ParseErrorWithRange {
                error: ParseError::SwitchGeneratedValueOutOfRange { start: 1, end: max, actual: drawn },
                range,
            },
        ) && final(stack)@ == old(stack)@ && *final(collector) == *old(collector),
        r is Ok ==> Some(final(stack)@) == switch_push(old(stack)@, drawn, Some(max)) && opened_scope(
            *old(collector),
            *final(collector),
            ControlFlowValue::GenMax(max),
            range.start,
        ),
        r is Err ==> switch_push(old(stack)@, drawn, Some(max)) is None,
        wf_stack(final(stack)@),
        final(collector).has_open_branch() == old(collector).has_open_branch(),
{
    let activated = is_activated(stack);
    if activated {
        if !(1 <= drawn && drawn <= max) {
            return Err(
                ParseErrorWithRange {
                    error: ParseError::SwitchGeneratedValueOutOfRange { start: 1, end: max, actual: drawn },
                    range,
                },
            );
        }
        stack.push(ProcessState::SwitchBeforeActive { generated: drawn });
    } else {
        stack.push(ProcessState::SwitchAfterActive { generated: drawn });
    }
    collector.push_random(ControlFlowValue::GenMax(max), range.start);
    Ok(())
}

/// The control command that a header name stands for.
pub fn control_of(name: &str) -> (r: Option<Control>)
    ensures
        r == spec_control(name@),
        eq_ignore_case(name@, "RANDOM"@) <==> r == Some(Control::Random),
        eq_ignore_case(name@, "SETRANDOM"@) <==> r == Some(Control::SetRandom),
        eq_ignore_case(name@, "IF"@) <==> r == Some(Control::If),
        eq_ignore_case(name@, "ELSEIF"@) <==> r == Some(Control::ElseIf),
        eq_ignore_case(name@, "ELSE"@) <==> r == Some(Control::Else),
        eq_ignore_case(name@, "ENDIF"@) <==> r == Some(Control::EndIf),
        eq_ignore_case(name@, "ENDRANDOM"@) <==> r == Some(Control::EndRandom),
        eq_ignore_case(name@, "SWITCH"@) <==> r == Some(Control::Switch),
        eq_ignore_case(name@, "SETSWITCH"@) <==> r == Some(Control::SetSwitch),
        eq_ignore_case(name@, "CASE"@) <==> r == Some(Control::Case),
        eq_ignore_case(name@, "SKIP"@) <==> r == Some(Control::Skip),
        eq_ignore_case(name@, "DEF"@) <==> r == Some(Control::Def),
        eq_ignore_case(name@, "ENDSW"@) <==> r == Some(Control::EndSwitch),
{
    proof {
        lemma_control_words(name@);
    }
    if eq_ignore_ascii_case(name, "RANDOM") {
        Some(Control::Random)
    } else if eq_ignore_ascii_case(name, "SETRANDOM") {
        Some(Control::SetRandom)
    } else if eq_ignore_ascii_case(name, "IF") {
        Some(Control::If)
    } else if eq_ignore_ascii_case(name, "ELSEIF") {
        Some(Control::ElseIf)
    } else if eq_ignore_ascii_case(name, "ELSE") {
        Some(Control::Else)
    } else if eq_ignore_ascii_case(name, "ENDIF") {
        Some(Control::EndIf)
    } else if eq_ignore_ascii_case(name, "ENDRANDOM") {
        Some(Control::EndRandom)
    } else if eq_ignore_ascii_case(name, "SWITCH") {
        Some(Control::Switch)
    } else if eq_ignore_ascii_case(name, "SETSWITCH") {
        Some(Control::SetSwitch)
    } else if eq_ignore_ascii_case(name, "CASE") {
        Some(Control::Case)
    } else if eq_ignore_ascii_case(name, "SKIP") {
        Some(Control::Skip)
    } else if eq_ignore_ascii_case(name, "DEF") {
        Some(Control::Def)
    } else if eq_ignore_ascii_case(name, "ENDSW") {
        Some(Control::EndSwitch)
    } else {
        None
    }
}

/// Whether every enclosing scope lets tokens through.
pub fn is_activated(stack: &Vec<ProcessState>) -> (r: bool)
    ensures
        r == stack_activated(stack@),
{
    let mut i: usize = 0;
    while i < stack.len()
        invariant
            i <= stack@.len(),
            forall|j: int| 0 <= j < i ==> #[trigger] state_activates(stack@[j]),
        decreases stack@.len() - i,
    {
        let active = match stack[i] {
            ProcessState::Root => true,
            ProcessState::Random { activated, .. } => activated,
            ProcessState::IfBlock { activated, .. } => activated,
            ProcessState::ElseBlock { activated } => activated,
            ProcessState::SwitchActive { .. } => true,
            _ => false,
        };
        if !active {
            assert(!state_activates(stack@[i as int]));
            return false;
        }
        i += 1;
    }
    true
}

/// The innermost scope.
pub fn top_state(stack: &Vec<ProcessState>) -> (r: ProcessState)
    requires
        stack@.len() >= 1,
    ensures
        r == stack@.last(),
{
    stack[stack.len() - 1]
}

/// The warning for an argument that is no number.
fn integer_warning(args: &str, range: SourceRange) -> (r: ParseWarningWithRange)
    ensures
        r.warning is SyntaxError,
        r.range == range,
{
    let quoted = debug_quoted(args);
    let message = concat("expected integer but got ", quoted.as_str());
    ParseWarningWithRange { warning: ParseWarning::SyntaxError(message), range }
}

/// A misplaced control command.
fn control_error(message: &str, range: SourceRange) -> (r: ParseErrorWithRange)
    ensures
        r.error is UnexpectedControlFlow,
        r.range == range,
{
    ParseErrorWithRange { error: ParseError::UnexpectedControlFlow(owned(message)), range }
}

/// What reading control commands gives: the tokens handed on, the scopes with all their
/// branches, and the warnings.
pub struct Selection {
    /// The tokens read while every enclosing scope is active.
    pub activated: Vec<TokenWithRange>,
    /// The scopes at the top level, each with all its branches.
    pub randomized: Vec<RandomizedObjects>,
    /// Warnings about arguments that are no numbers.
    pub warnings: Vec<ParseWarningWithRange>,
    /// The numbers drawn for the scopes at the top level, in turn, as the generator gave them.
    pub draws: Vec<u64>,
}

/// The processor of control commands; `next` reads the tokens that are active.
pub struct RandomTokenProcessor<N> {
    /// The processor of the active tokens.
    pub next: N,
}

impl<N> RandomTokenProcessor<N> {
    /// A processor that hands the active tokens to `next`.
    pub fn new(next: N) -> (r: Self)
        ensures
            r.next == next,
    {
        RandomTokenProcessor { next }
    }
}

impl<N> RandomTokenProcessor<N> {

    /// Reads the tokens of a branch on their own, as a score with its own scopes.
    fn process_branch_buffer<R: Rng, P: Prompter>(
        &self,
        rng: &mut R,
        buffer: &BranchBuffer,
        prompter: &P,
        Ghost(n): Ghost<nat>,
    ) -> (r: Result<Bms, ParseErrorWithRange>)
        where
            N: TokenProcessor<P, Output = Bms>,
        requires
            buffer.tokens@.len() < n,
        ensures
            r matches Ok(b) ==> {
                &&& exists|gens: Seq<u64>|
                    gens.len() == gens_needed(buffer.token_list()) && #[trigger] run(buffer.token_list(), gens)
                        is Some
                &&& b.randomized@.len() >= buffer.nested_list().len()
            },
        decreases n, 1nat,
    {
        let ts = buffer.tokens.as_slice();
        assert(ts@ == buffer.token_list());
        let (bms, nested, _warnings) = self.process(rng, ts, prompter)?;
        let mut final_bms = bms;
        let mut i: usize = 0;
        while i < nested.len()
            decreases nested@.len() - i,
        {
            final_bms.randomized.push(nested[i].clone());
            i += 1;
        }
        let ghost base = final_bms.randomized@.len();
        let mut j: usize = 0;
        while j < buffer.nested_objects.len()
            invariant
                j <= buffer.nested_objects@.len(),
                final_bms.randomized@.len() == base + j,
            decreases buffer.nested_objects@.len() - j,
        {
            final_bms.randomized.push(buffer.nested_objects[j].clone());
            j += 1;
        }
        Ok(final_bms)
    }

    /// Closes the open branch of the innermost scope: reads its tokens and records the score
    /// under each number that selects it.
    fn finish_current_branch<R: Rng, P: Prompter>(
        &self,
        rng: &mut R,
        collector: &mut Collector,
        prompter: &P,
        Ghost(n): Ghost<nat>,
    ) -> (r: Result<(), ParseErrorWithRange>)
        where
            N: TokenProcessor<P, Output = Bms>,
        requires
            old(collector).bounded(n as int),
        ensures
            forall|b: int| old(collector).bounded(b) ==> final(collector).bounded(b),
            final(collector).finished() == old(collector).finished(),
            old(collector).scopes().len() == 0 ==> r is Ok && final(collector).scopes() == old(
                collector,
            ).scopes(),
            old(collector).scopes().len() > 0 ==> {
                let o = old(collector).scopes().last();
                let l = final(collector).scopes().last();
                &&& same_below(final(collector).scopes(), old(collector).scopes())
                &&& l.line() == o.line()
                &&& l.generating_value() == o.generating_value()
                &&& l.max() == o.max()
                &&& l.covered() == o.covered()
                &&& l.open_branch() is None
                &&& o.open_branch() is None ==> r is Ok && final(collector).scopes() == old(collector).scopes()
                &&& r is Err ==> o.open_branch() is Some && l.branch_map() == o.branch_map()
                &&& r is Ok ==> match o.open_branch() {
                    None => true,
                    Some(b) => {
                        &&& forall|k: u64|
                            #[trigger] l.branch_map().contains_key(k) <==> o.branch_map().contains_key(k)
                                || b.condition_list().contains(k)
                        &&& forall|k: u64|
                            b.condition_list().contains(k) ==> (#[trigger] l.branch_map()[k]).condition == k
                        &&& forall|k: u64|
                            o.branch_map().contains_key(k) && !b.condition_list().contains(k)
                                ==> #[trigger] l.branch_map()[k] == o.branch_map()[k]
                    },
                }
            },
            r is Err ==> old(collector).has_open_branch(),
            !old(collector).has_open_branch() ==> !final(collector).has_open_branch(),
            old(collector).scopes().len() == 0 || old(collector).scopes().last().open_branch() is None
                ==> *final(rng) == *old(rng),
        decreases n, 2nat,
    {
        if collector.stack.len() == 0 {
            return Ok(());
        }
        let mut scope = collector.stack.pop().unwrap();
        assert(old(collector).stack@[old(collector).stack@.len() - 1] == scope);
        let ghost s0 = scope;
        let taken = scope.current_branch.take();
        let result = match taken {
            Some(buffer) => {
                match self.process_branch_buffer(rng, &buffer, prompter, Ghost(n)) {
                    Ok(bms) => {
                        let shared = Rc::new(bms);
                        let ghost m0 = scope.branches@;
                        let ghost conds = buffer.conditions@;
                        let mut i: usize = 0;
                        while i < buffer.conditions.len()
                            invariant
                                scope.current_branch is None,
                                scope.line_number == s0.line_number,
                                scope.generating == s0.generating,
                                scope.max_value == s0.max_value,
                                scope.covered_values == s0.covered_values,
                                m0 == s0.branches@,
                                conds == buffer.conditions@,
                                i <= conds.len(),
                                forall|k: u64|
                                    #[trigger] scope.branches@.contains_key(k) <==> m0.contains_key(k)
                                        || conds.take(i as int).contains(k),
                                forall|k: u64|
                                    conds.take(i as int).contains(k) ==> (#[trigger] scope.branches@[k]).condition
                                        == k,
                                forall|k: u64|
                                    m0.contains_key(k) && !conds.take(i as int).contains(k)
                                        ==> #[trigger] scope.branches@[k] == m0[k],
                            decreases buffer.conditions@.len() - i,
                        {
                            let cond = buffer.conditions[i];
                            scope.branches.insert(cond, RandomizedBranch::new(cond, shared.clone()));
                            proof {
                                let t0 = conds.take(i as int);
                                let t1 = conds.take(i + 1);
                                assert(t1 =~= t0.push(cond));
                                assert forall|k: u64| t1.contains(k) <==> t0.contains(k) || k == cond by {
                                    if t1.contains(k) {
                                        let j = choose|j: int| 0 <= j < t1.len() && #[trigger] t1[j] == k;
                                        if j < t0.len() {
                                            assert(t0[j] == k);
                                        }
                                    }
                                    if t0.contains(k) {
                                        let j = choose|j: int| 0 <= j < t0.len() && #[trigger] t0[j] == k;
                                        assert(t1[j] == k);
                                    }
                                    if k == cond {
                                        assert(t1[t0.len() as int] == k);
                                    }
                                }
                            }
                            i += 1;
                        }
                        assert(conds.take(conds.len() as int) =~= conds);
                        Ok(())
                    },
                    Err(e) => Err(e),
                }
            },
            None => Ok(()),
        };
        collector.stack.push(scope);
        assert(collector.stack@.last().current_branch is None);
        assert(collector.stack@ =~= old(collector).stack@.drop_last().push(collector.stack@.last()));
        assert(old(collector).stack@ =~= old(collector).stack@.drop_last().push(old(collector).stack@.last()));
        assert forall|b: int| old(collector).bounded(b) implies collector.bounded(b) by {
            assert forall|i: int| 0 <= i < collector.stack@.len() implies match (
            #[trigger] collector.stack@[i]).current_branch {
                Some(buf) => buf.tokens@.len() < b,
                None => true,
            } by {
                if i < collector.stack@.len() - 1 {
                    assert(collector.stack@[i] == old(collector).stack@[i]);
                }
            }
        }
        proof {
            let last = old(collector).scopes().len() - 1;
            if result is Err {
                assert(old(collector).scopes()[last].open_branch() is Some);
            }
            if !old(collector).has_open_branch() {
                assert(old(collector).scopes()[last].open_branch() is None);
                assert forall|i: int| 0 <= i < collector.scopes().len() implies (
                #[trigger] collector.scopes()[i]).open_branch() is None by {
                    assert(old(collector).scopes()[i].open_branch() is None);
                }
            }
        }
        result
    }

    /// `#ENDRANDOM`: closes the random scope or block on top.
    fn visit_end_random<R: Rng, P: Prompter>(
        &self,
        rng: &mut R,
        stack: &mut Vec<ProcessState>,
        collector: &mut Collector,
        prompter: &P,
        range: SourceRange,
        Ghost(n): Ghost<nat>,
    ) -> (r: Result<(), ParseErrorWithRange>)
        where
            N: TokenProcessor<P, Output = Bms>,
        requires
            wf_stack(old(stack)@),
            old(collector).bounded(n as int),
        ensures
            r is Ok ==> Some(final(stack)@) == spec_end_random(old(stack)@),
            forall|b: int| old(collector).bounded(b) ==> final(collector).bounded(b),
            r is Err ==> old(collector).has_open_branch() || step_may_fail(old(stack)@, Control::EndRandom, None),
            !old(collector).has_open_branch() ==> !final(collector).has_open_branch(),
            r is Ok ==> final(collector).scopes().len() == if old(collector).scopes().len() > 0 {
                old(collector).scopes().len() - 1
            } else {
                0
            },
            !old(collector).has_open_branch() ==> *final(rng) == *old(rng),
            wf_stack(final(stack)@),
        decreases n, 3nat,
    {
        proof {
            if !old(collector).has_open_branch() && old(collector).scopes().len() > 0 {
                assert(old(collector).scopes()[old(collector).scopes().len() - 1].open_branch() is None);
            }
        }
        let top = top_state(stack);
        match top {
            ProcessState::Random { .. } | ProcessState::IfBlock { .. } | ProcessState::ElseBlock {
                ..
            } => {
                stack.pop();
                self.finish_current_branch(rng, collector, prompter, Ghost(n))?;
                collector.close_scope();
                Ok(())
            },
            _ => {
                assert(spec_step(old(stack)@, Control::EndRandom, None, 0) is None);
                Err(control_error("#ENDRANDOM must come after #RANDOM", range))
            },
        }
    }

    /// `#ENDIF`: closes the block on top.
    fn visit_end_if<R: Rng, P: Prompter>(
        &self,
        rng: &mut R,
        stack: &mut Vec<ProcessState>,
        collector: &mut Collector,
        prompter: &P,
        range: SourceRange,
        Ghost(n): Ghost<nat>,
    ) -> (r: Result<(), ParseErrorWithRange>)
        where
            N: TokenProcessor<P, Output = Bms>,
        requires
            wf_stack(old(stack)@),
            old(collector).bounded(n as int),
        ensures
            r is Ok ==> spec_step(old(stack)@, Control::EndIf, None, 0) == Some(final(stack)@),
            forall|b: int| old(collector).bounded(b) ==> final(collector).bounded(b),
            r is Err ==> old(collector).has_open_branch() || step_may_fail(old(stack)@, Control::EndIf, None),
            !old(collector).has_open_branch() ==> !final(collector).has_open_branch(),
            r is Ok ==> final(collector).scopes().len() == old(collector).scopes().len(),
            r is Ok && old(collector).scopes().len() > 0 ==> final(collector).scopes().last().open_branch() is None,
            wf_stack(final(stack)@),
        decreases n, 3nat,
    {
        let top = top_state(stack);
        match top {
            ProcessState::IfBlock { .. } | ProcessState::ElseBlock { .. } => {
                stack.pop();
                self.finish_current_branch(rng, collector, prompter, Ghost(n))?;
                Ok(())
            },
            _ => Err(control_error("#ENDIF must come after #IF, #ELSEIF or #ELSE", range)),
        }
    }

    /// `#RANDOM n`: opens a random scope drawing from 1 to `n`, closing a random scope on
    /// top first. Returns the warning for an argument that is no number and the number drawn.
    fn visit_random<R: Rng, P: Prompter>(
        &self,
        rng: &mut R,
        args: &str,
        stack: &mut Vec<ProcessState>,
        collector: &mut Collector,
        prompter: &P,
        range: SourceRange,
        Ghost(n): Ghost<nat>,
    ) -> (r: Result<(Option<ParseWarningWithRange>, Option<u64>), ParseErrorWithRange>)
        where
            N: TokenProcessor<P, Output = Bms>,
        requires
            wf_stack(old(stack)@),
            old(collector).bounded(n as int),
            n >= 1,
        ensures
            r matches Ok((w, g)) ==> {
                &&& (g is Some <==> spec_arg(args@) is Some)
                &&& (w is Some <==> spec_arg(args@) is None)
                &&& spec_step(old(stack)@, Control::Random, spec_arg(args@), g.unwrap_or(0))
                    == Some(final(stack)@)
            },
            forall|b: int| b >= 1 && old(collector).bounded(b) ==> final(collector).bounded(b),
            r is Err ==> old(collector).has_open_branch() || step_may_fail(old(stack)@, Control::Random, spec_arg(args@)),
            r is Ok && spec_arg(args@) is Some ==> {
                let l = final(collector).scopes().last();
                &&& final(collector).scopes().len() >= 1
                &&& l.generating_value() == Some(ControlFlowValue::GenMax(spec_arg(args@)->0))
                &&& l.line() == range.start
                &&& l.open_branch() is None
                &&& l.branch_map() == Map::<u64, RandomizedBranch>::empty()
            },
            (!(old(stack)@.last() is Random) || !old(collector).has_open_branch()) && spec_arg(args@)
                is Some ==> {
                let max = spec_arg(args@)->0;
                let base = random_base(old(stack)@);
                match r {
                    Ok((w, g)) => {
                        &&& w is None
                        &&& g is Some
                        &&& old(rng).gives(1, max, g->0, *final(rng))
                        &&& !(stack_activated(base) && !(1 <= g->0 <= max))
                        &&& final(stack)@ == base.push(
                            ProcessState::Random { generated: g->0, activated: stack_activated(base) },
                        )
                    },
                    Err(e) => {
                        &&& (e.error matches ParseError::RandomGeneratedValueOutOfRange { start, end, actual }
                            && start == 1 && end == max && old(rng).gives(1, max, actual, *final(rng))
                            && stack_activated(base) && !(1 <= actual <= max))
                        &&& e.range == range
                        &&& final(stack)@ == base
                    },
                }
            },
            wf_stack(final(stack)@),
            !old(collector).has_open_branch() ==> !final(collector).has_open_branch(),
        decreases n, 4nat,
    {
        let top = top_state(stack);
        if let ProcessState::Random { .. } = top {
            match self.visit_end_random(rng, stack, collector, prompter, range, Ghost(n)) {
                Ok(()) => {},
                Err(e) => {
                    proof {
                        if step_may_fail(old(stack)@, Control::EndRandom, None) {
                            let g = choose|g: u64| #[trigger] spec_step(old(stack)@, Control::EndRandom, None, g) is None;
                            assert(spec_step(old(stack)@, Control::EndRandom, None, g) is Some);
                        }
                    }
                    return Err(e);
                },
            }
        }
        let max = match parse_u64(args) {
            Some(m) => m,
            None => {
                return Ok((Some(integer_warning(args, range)), None));
            },
        };
        let generated = rng.generate(RangeInclusive::new(1, max));
        match open_random_drawn(max, generated, stack, collector, range) {
            Ok(()) => Ok((None, Some(generated))),
            Err(e) => {
                assert(spec_step(old(stack)@, Control::Random, spec_arg(args@), generated) is None);
                Err(e)
            },
        }
    }

    /// `#SETRANDOM n`: opens a random scope whose number is `n`.
    fn visit_set_random<R: Rng, P: Prompter>(
        &self,
        rng: &mut R,
        args: &str,
        stack: &mut Vec<ProcessState>,
        collector: &mut Collector,
        prompter: &P,
        range: SourceRange,
        Ghost(n): Ghost<nat>,
    ) -> (r: Result<Option<ParseWarningWithRange>, ParseErrorWithRange>)
        where
            N: TokenProcessor<P, Output = Bms>,
        requires
            wf_stack(old(stack)@),
            old(collector).bounded(n as int),
            n >= 1,
        ensures
            r matches Ok(w) ==> {
                &&& (w is Some <==> spec_arg(args@) is None)
                &&& spec_step(old(stack)@, Control::SetRandom, spec_arg(args@), 0) == Some(
                    final(stack)@,
                )
            },
            forall|b: int| b >= 1 && old(collector).bounded(b) ==> final(collector).bounded(b),
            r is Err ==> old(collector).has_open_branch() || step_may_fail(old(stack)@, Control::SetRandom, spec_arg(args@)),
            r is Ok && spec_arg(args@) is Some ==> {
                let l = final(collector).scopes().last();
                &&& final(collector).scopes().len() >= 1
                &&& l.generating_value() == Some(ControlFlowValue::SetTo(spec_arg(args@)->0))
                &&& l.line() == range.start
                &&& l.open_branch() is None
                &&& l.branch_map() == Map::<u64, RandomizedBranch>::empty()
            },
            wf_stack(final(stack)@),
            !old(collector).has_open_branch() ==> !final(collector).has_open_branch(),
        decreases n, 4nat,
    {
        let top = top_state(stack);
        if let ProcessState::Random { .. } = top {
            self.visit_end_random(rng, stack, collector, prompter, range, Ghost(n))?;
        }
        let generated = match parse_u64(args) {
            Some(v) => v,
            None => {
                return Ok(Some(integer_warning(args, range)));
            },
        };
        let activated = is_activated(stack);
        stack.push(ProcessState::Random { generated, activated });
        collector.push_random(ControlFlowValue::SetTo(generated), range.start);
        Ok(None)
    }

    /// `#IF n`: opens a block active when `n` is the number of the random scope, closing the
    /// block on top first.
    fn visit_if<R: Rng, P: Prompter>(
        &self,
        rng: &mut R,
        args: &str,
        stack: &mut Vec<ProcessState>,
        collector: &mut Collector,
        prompter: &P,
        range: SourceRange,
        Ghost(n): Ghost<nat>,
    ) -> (r: Result<Option<ParseWarningWithRange>, ParseErrorWithRange>)
        where
            N: TokenProcessor<P, Output = Bms>,
        requires
            wf_stack(old(stack)@),
            old(collector).bounded(n as int),
            n >= 1,
        ensures
            r matches Ok(w) ==> {
                &&& (w is Some <==> spec_arg(args@) is None)
                &&& spec_step(old(stack)@, Control::If, spec_arg(args@), 0) == Some(final(stack)@)
            },
            forall|b: int| b >= 1 && old(collector).bounded(b) ==> final(collector).bounded(b),
            r is Err ==> old(collector).has_open_branch() || step_may_fail(old(stack)@, Control::If, spec_arg(args@)),
            r is Ok && spec_arg(args@) is Some && final(collector).scopes().len() > 0 ==> (final(collector).scopes().last().open_branch() matches Some(b) && b.condition_list()
                == seq![spec_arg(args@)->0] && b.token_list().len() == 0),
            wf_stack(final(stack)@),
        decreases n, 4nat,
    {
        let top = top_state(stack);
        let generated = match top {
            ProcessState::Random { generated, .. } => generated,
            ProcessState::IfBlock { .. } | ProcessState::ElseBlock { .. } => {
                self.visit_end_if(rng, stack, collector, prompter, range, Ghost(n))?;
                match top_state(stack) {
                    ProcessState::Random { generated, .. } => generated,
                    _ => {
                        return Err(control_error("#IF must be on a random scope", range));
                    },
                }
            },
            _ => {
                return Err(control_error("#IF must be on a random scope", range));
            },
        };
        let cond = match parse_u64(args) {
            Some(c) => c,
            None => {
                return Ok(Some(integer_warning(args, range)));
            },
        };
        let activated = generated == cond;
        stack.push(ProcessState::IfBlock { if_chain_has_been_activated: activated, activated });
        self.finish_current_branch(rng, collector, prompter, Ghost(n))?;
        collector.start_branch(cond);
        Ok(None)
    }

    /// `#ELSEIF n`: closes the block on top and opens the next block of its chain.
    fn visit_else_if<R: Rng, P: Prompter>(
        &self,
        rng: &mut R,
        args: &str,
        stack: &mut Vec<ProcessState>,
        collector: &mut Collector,
        prompter: &P,
        range: SourceRange,
        Ghost(n): Ghost<nat>,
    ) -> (r: Result<Option<ParseWarningWithRange>, ParseErrorWithRange>)
        where
            N: TokenProcessor<P, Output = Bms>,
        requires
            wf_stack(old(stack)@),
            old(collector).bounded(n as int),
            n >= 1,
        ensures
            r matches Ok(w) ==> {
                &&& (w is Some <==> spec_arg(args@) is None)
                &&& spec_step(old(stack)@, Control::ElseIf, spec_arg(args@), 0) == Some(
                    final(stack)@,
                )
            },
            forall|b: int| b >= 1 && old(collector).bounded(b) ==> final(collector).bounded(b),
            r is Err ==> old(collector).has_open_branch() || step_may_fail(old(stack)@, Control::ElseIf, spec_arg(args@)),
            r is Ok && spec_arg(args@) is Some && final(collector).scopes().len() > 0 ==> (final(collector).scopes().last().open_branch() matches Some(b) && b.condition_list()
                == seq![spec_arg(args@)->0] && b.token_list().len() == 0),
            wf_stack(final(stack)@),
        decreases n, 4nat,
    {
        let top = top_state(stack);
        let chain = match top {
            ProcessState::IfBlock { if_chain_has_been_activated, .. } => if_chain_has_been_activated,
            _ => {
                return Err(control_error("#ELSEIF must come after of a #IF", range));
            },
        };
        stack.pop();
        let generated = match top_state(stack) {
            ProcessState::Random { generated, .. } => generated,
            _ => {
                return Err(control_error("#ELSEIF must be on a random scope", range));
            },
        };
        self.finish_current_branch(rng, collector, prompter, Ghost(n))?;
        let cond = match parse_u64(args) {
            Some(c) => c,
            None => {
                return Ok(Some(integer_warning(args, range)));
            },
        };
        if chain {
            stack.push(ProcessState::IfBlock { if_chain_has_been_activated: true, activated: false });
        } else {
            let activated = generated == cond;
            stack.push(ProcessState::IfBlock { if_chain_has_been_activated: activated, activated });
        }
        collector.start_branch(cond);
        Ok(None)
    }

    /// `#ELSE`: closes the block on top and opens the block of the numbers no block of the
    /// chain took.
    fn visit_else<R: Rng, P: Prompter>(
        &self,
        rng: &mut R,
        stack: &mut Vec<ProcessState>,
        collector: &mut Collector,
        prompter: &P,
        range: SourceRange,
        Ghost(n): Ghost<nat>,
    ) -> (r: Result<(), ParseErrorWithRange>)
        where
            N: TokenProcessor<P, Output = Bms>,
        requires
            wf_stack(old(stack)@),
            old(collector).bounded(n as int),
            n >= 1,
        ensures
            r is Ok ==> spec_step(old(stack)@, Control::Else, None, 0) == Some(final(stack)@),
            forall|b: int| b >= 1 && old(collector).bounded(b) ==> final(collector).bounded(b),
            r is Err ==> old(collector).has_open_branch() || step_may_fail(old(stack)@, Control::Else, None),
            r is Ok && old(collector).scopes().len() > 0 ==> match old(collector).scopes().last().max() {
                Some(m) => (final(collector).scopes().last().open_branch() matches Some(b)
                    && b.condition_list() == uncovered(old(collector).scopes().last().covered(), m as nat)
                    && b.token_list().len() == 0),
                None => true,
            },
            wf_stack(final(stack)@),
        decreases n, 4nat,
    {
        let top = top_state(stack);
        match top {
            ProcessState::IfBlock { if_chain_has_been_activated, .. } => {
                stack.pop();
                stack.push(ProcessState::ElseBlock { activated: !if_chain_has_been_activated });
                self.finish_current_branch(rng, collector, prompter, Ghost(n))?;
                collector.start_remaining_branch();
                Ok(())
            },
            _ => Err(control_error("#ELSE must come after #IF or #ELSEIF", range)),
        }
    }

    /// `#SWITCH n`: opens a switch scope drawing from 1 to `n`, closing a random scope on top
    /// first.
    fn visit_switch<R: Rng, P: Prompter>(
        &self,
        rng: &mut R,
        args: &str,
        stack: &mut Vec<ProcessState>,
        collector: &mut Collector,
        prompter: &P,
        range: SourceRange,
        Ghost(n): Ghost<nat>,
    ) -> (r: Result<(Option<ParseWarningWithRange>, Option<u64>), ParseErrorWithRange>)
        where
            N: TokenProcessor<P, Output = Bms>,
        requires
            wf_stack(old(stack)@),
            old(collector).bounded(n as int),
            n >= 1,
        ensures
            r matches Ok((w, g)) ==> {
                &&& (g is Some <==> spec_arg(args@) is Some)
                &&& (w is Some <==> spec_arg(args@) is None)
                &&& spec_step(old(stack)@, Control::Switch, spec_arg(args@), g.unwrap_or(0))
                    == Some(final(stack)@)
            },
            forall|b: int| b >= 1 && old(collector).bounded(b) ==> final(collector).bounded(b),
            r is Err ==> old(collector).has_open_branch() || step_may_fail(old(stack)@, Control::Switch, spec_arg(args@)),
            r is Ok && spec_arg(args@) is Some ==> {
                let l = final(collector).scopes().last();
                &&& final(collector).scopes().len() >= 1
                &&& l.generating_value() == Some(ControlFlowValue::GenMax(spec_arg(args@)->0))
                &&& l.line() == range.start
                &&& l.open_branch() is None
                &&& l.branch_map() == Map::<u64, RandomizedBranch>::empty()
            },
            (!(old(stack)@.last() is Random) || !old(collector).has_open_branch()) && spec_arg(args@)
                is Some && switch_base(old(stack)@) is Some ==> {
                let max = spec_arg(args@)->0;
                let base = switch_base(old(stack)@)->0;
                match r {
                    Ok((w, g)) => {
                        &&& w is None
                        &&& g is Some
                        &&& old(rng).gives(1, max, g->0, *final(rng))
                        &&& Some(final(stack)@) == switch_push(base, g->0, Some(max))
                    },
                    Err(e) => {
                        &&& (e.error matches ParseError::SwitchGeneratedValueOutOfRange { start, end, actual }
                            && start == 1 && end == max && old(rng).gives(1, max, actual, *final(rng))
                            && stack_activated(base) && !(1 <= actual <= max))
                        &&& e.range == range
                        &&& final(stack)@ == base
                    },
                }
            },
            wf_stack(final(stack)@),
            !old(collector).has_open_branch() ==> !final(collector).has_open_branch(),
        decreases n, 4nat,
    {
        let top = top_state(stack);
        if let ProcessState::Random { .. } = top {
            stack.pop();
            if stack.len() == 0 {
                return Err(control_error("#ENDRANDOM must come after #RANDOM", range));
            }
            self.visit_end_random(rng, stack, collector, prompter, range, Ghost(n))?;
        }
        let max = match parse_u64(args) {
            Some(m) => m,
            None => {
                return Ok((Some(integer_warning(args, range)), None));
            },
        };
        let generated = rng.generate(RangeInclusive::new(1, max));
        match open_switch_drawn(max, generated, stack, collector, range) {
            Ok(()) => Ok((None, Some(generated))),
            Err(e) => {
                assert(spec_step(old(stack)@, Control::Switch, spec_arg(args@), generated) is None);
                Err(e)
            },
        }
    }

    /// `#SETSWITCH n`: opens a switch scope whose number is `n`.
    fn visit_set_switch<R: Rng, P: Prompter>(
        &self,
        rng: &mut R,
        args: &str,
        stack: &mut Vec<ProcessState>,
        collector: &mut Collector,
        prompter: &P,
        range: SourceRange,
        Ghost(n): Ghost<nat>,
    ) -> (r: Result<Option<ParseWarningWithRange>, ParseErrorWithRange>)
        where
            N: TokenProcessor<P, Output = Bms>,
        requires
            wf_stack(old(stack)@),
            old(collector).bounded(n as int),
            n >= 1,
        ensures
            r matches Ok(w) ==> {
                &&& (w is Some <==> spec_arg(args@) is None)
                &&& spec_step(old(stack)@, Control::SetSwitch, spec_arg(args@), 0) == Some(
                    final(stack)@,
                )
            },
            forall|b: int| b >= 1 && old(collector).bounded(b) ==> final(collector).bounded(b),
            r is Err ==> old(collector).has_open_branch() || step_may_fail(old(stack)@, Control::SetSwitch, spec_arg(args@)),
            r is Ok && spec_arg(args@) is Some ==> {
                let l = final(collector).scopes().last();
                &&& final(collector).scopes().len() >= 1
                &&& l.generating_value() == Some(ControlFlowValue::SetTo(spec_arg(args@)->0))
                &&& l.line() == range.start
                &&& l.open_branch() is None
                &&& l.branch_map() == Map::<u64, RandomizedBranch>::empty()
            },
            wf_stack(final(stack)@),
            !old(collector).has_open_branch() ==> !final(collector).has_open_branch(),
        decreases n, 4nat,
    {
        let top = top_state(stack);
        if let ProcessState::Random { .. } = top {
            stack.pop();
            if stack.len() == 0 {
                return Err(control_error("#ENDRANDOM must come after #RANDOM", range));
            }
            self.visit_end_random(rng, stack, collector, prompter, range, Ghost(n))?;
        }
        let generated = match parse_u64(args) {
            Some(v) => v,
            None => {
                return Ok(Some(integer_warning(args, range)));
            },
        };
        let activated = is_activated(stack);
        if activated {
            stack.push(ProcessState::SwitchBeforeActive { generated });
        } else {
            stack.push(ProcessState::SwitchAfterActive { generated });
        }
        collector.push_random(ControlFlowValue::SetTo(generated), range.start);
        Ok(None)
    }

    /// `#CASE n`: closes the random scopes and blocks on top, then starts the active part of
    /// the switch when `n` is its number; an active part goes on through it.
    fn visit_case<R: Rng, P: Prompter>(
        &self,
        rng: &mut R,
        args: &str,
        stack: &mut Vec<ProcessState>,
        collector: &mut Collector,
        prompter: &P,
        range: SourceRange,
        Ghost(n): Ghost<nat>,
    ) -> (r: Result<Option<ParseWarningWithRange>, ParseErrorWithRange>)
        where
            N: TokenProcessor<P, Output = Bms>,
        requires
            wf_stack(old(stack)@),
            old(collector).bounded(n as int),
            n >= 1,
        ensures
            r matches Ok(w) ==> {
                &&& (w is Some <==> spec_arg(args@) is None)
                &&& spec_step(old(stack)@, Control::Case, spec_arg(args@), 0) == Some(
                    final(stack)@,
                )
            },
            forall|b: int| b >= 1 && old(collector).bounded(b) ==> final(collector).bounded(b),
            r is Err ==> old(collector).has_open_branch() || step_may_fail(old(stack)@, Control::Case, spec_arg(args@)),
            r is Ok && spec_arg(args@) is Some && final(collector).scopes().len() > 0 ==> (final(collector).scopes().last().open_branch() matches Some(b) && b.condition_list()
                == seq![spec_arg(args@)->0] && b.token_list().len() == 0),
            wf_stack(final(stack)@),
        decreases n, 4nat,
    {
        let cond = match parse_u64(args) {
            Some(c) => c,
            None => {
                return Ok(Some(integer_warning(args, range)));
            },
        };
        proof {
            lemma_pop_blocks_wf(stack@);
        }
        loop
            invariant
                wf_stack(stack@),
                pop_blocks(stack@) == pop_blocks(old(stack)@),
                forall|b: int| b >= 1 && old(collector).bounded(b) ==> collector.bounded(b),
                !old(collector).has_open_branch() ==> !collector.has_open_branch(),
                collector.bounded(n as int),
                n >= 1,
            ensures
                wf_stack(stack@),
                stack@ == pop_blocks(old(stack)@),
                forall|b: int| b >= 1 && old(collector).bounded(b) ==> collector.bounded(b),
                !old(collector).has_open_branch() ==> !collector.has_open_branch(),
                collector.bounded(n as int),
            decreases stack@.len(),
        {
            let top = top_state(stack);
            match top {
                ProcessState::Random { .. } | ProcessState::IfBlock { .. }
                | ProcessState::ElseBlock { .. } => {
                    if stack.len() <= 1 {
                        break ;
                    }
                    let ghost before = stack@;
                    stack.pop();
                    proof {
                        assert(stack@[0] == before[0]);
                        assert forall|i: int| 1 <= i < stack@.len() implies !(
                        #[trigger] stack@[i] is Root) by {
                            assert(stack@[i] == before[i]);
                        }
                    }
                    self.finish_current_branch(rng, collector, prompter, Ghost(n))?;
                    if let ProcessState::Random { .. } = top {
                        collector.close_scope();
                    }
                },
                _ => {
                    break ;
                },
            }
        }
        self.finish_current_branch(rng, collector, prompter, Ghost(n))?;
        let top = top_state(stack);
        match top {
            ProcessState::SwitchBeforeActive { generated } | ProcessState::SwitchAfterActive {
                generated,
            } => {
                if generated == cond {
                    stack.pop();
                    stack.push(ProcessState::SwitchActive { generated });
                }
                collector.start_branch(cond);
                Ok(None)
            },
            ProcessState::SwitchActive { .. } | ProcessState::SwitchSkipping => {
                collector.start_branch(cond);
                Ok(None)
            },
            _ => Err(control_error("#CASE must be on a switch block", range)),
        }
    }

    /// `#SKIP`: ends the active part of the switch.
    fn visit_skip(stack: &mut Vec<ProcessState>, range: SourceRange) -> (r: Result<
        (),
        ParseErrorWithRange,
    >)
        requires
            wf_stack(old(stack)@),
        ensures
            r is Ok ==> spec_step(old(stack)@, Control::Skip, None, 0) == Some(final(stack)@),
            r is Err <==> spec_step(old(stack)@, Control::Skip, None, 0) is None,
            wf_stack(final(stack)@),
    {
        let top = top_state(stack);
        match top {
            ProcessState::SwitchActive { .. } => {
                stack.pop();
                stack.push(ProcessState::SwitchSkipping);
                Ok(())
            },
            ProcessState::SwitchBeforeActive { .. } | ProcessState::SwitchAfterActive { .. }
            | ProcessState::SwitchSkipping => Ok(()),
            _ => Err(control_error("#SKIP must be on a switch block", range)),
        }
    }

    /// `#DEF`: starts the active part of the switch when no `#CASE` has, with the branch of
    /// the numbers no `#CASE` took.
    fn visit_default<R: Rng, P: Prompter>(
        &self,
        rng: &mut R,
        stack: &mut Vec<ProcessState>,
        collector: &mut Collector,
        prompter: &P,
        range: SourceRange,
        Ghost(n): Ghost<nat>,
    ) -> (r: Result<(), ParseErrorWithRange>)
        where
            N: TokenProcessor<P, Output = Bms>,
        requires
            wf_stack(old(stack)@),
            old(collector).bounded(n as int),
            n >= 1,
        ensures
            r is Ok ==> spec_step(old(stack)@, Control::Def, None, 0) == Some(final(stack)@),
            forall|b: int| b >= 1 && old(collector).bounded(b) ==> final(collector).bounded(b),
            r is Err ==> old(collector).has_open_branch() || step_may_fail(old(stack)@, Control::Def, None),
            r is Ok && old(collector).scopes().len() > 0 ==> match old(collector).scopes().last().max() {
                Some(m) => (final(collector).scopes().last().open_branch() matches Some(b)
                    && b.condition_list() == uncovered(old(collector).scopes().last().covered(), m as nat)
                    && b.token_list().len() == 0),
                None => true,
            },
            wf_stack(final(stack)@),
        decreases n, 4nat,
    {
        self.finish_current_branch(rng, collector, prompter, Ghost(n))?;
        let top = top_state(stack);
        match top {
            ProcessState::SwitchBeforeActive { generated } => {
                stack.pop();
                stack.push(ProcessState::SwitchActive { generated });
            },
            ProcessState::SwitchActive { .. } | ProcessState::SwitchAfterActive { .. }
            | ProcessState::SwitchSkipping => {},
            _ => {
                return Err(control_error("#DEF must be on a switch block", range));
            },
        }
        collector.start_remaining_branch();
        Ok(())
    }

    /// `#ENDSW`: closes the switch scope on top.
    fn visit_end_switch<R: Rng, P: Prompter>(
        &self,
        rng: &mut R,
        stack: &mut Vec<ProcessState>,
        collector: &mut Collector,
        prompter: &P,
        range: SourceRange,
        Ghost(n): Ghost<nat>,
    ) -> (r: Result<(), ParseErrorWithRange>)
        where
            N: TokenProcessor<P, Output = Bms>,
        requires
            wf_stack(old(stack)@),
            old(collector).bounded(n as int),
            n >= 1,
        ensures
            r is Ok ==> spec_step(old(stack)@, Control::EndSwitch, None, 0) == Some(
                final(stack)@,
            ),
            forall|b: int| b >= 1 && old(collector).bounded(b) ==> final(collector).bounded(b),
            r is Err ==> old(collector).has_open_branch() || step_may_fail(old(stack)@, Control::EndSwitch, None),
            r is Ok ==> final(collector).scopes().len() == if old(collector).scopes().len() > 0 {
                old(collector).scopes().len() - 1
            } else {
                0
            },
            wf_stack(final(stack)@),
            !old(collector).has_open_branch() ==> !final(collector).has_open_branch(),
        decreases n, 4nat,
    {
        let top = top_state(stack);
        match top {
            ProcessState::SwitchBeforeActive { .. } | ProcessState::SwitchActive { .. }
            | ProcessState::SwitchAfterActive { .. } | ProcessState::SwitchSkipping => {
                stack.pop();
                self.finish_current_branch(rng, collector, prompter, Ghost(n))?;
                collector.close_scope();
                Ok(())
            },
            _ => Err(control_error("#ENDSWITCH must come after #SWITCH", range)),
        }
    }

    /// Applies one control command. Returns the warning for an argument that is no number
    /// and the number drawn, if one was.
    pub fn on_header<R: Rng, P: Prompter>(
        &self,
        rng: &mut R,
        c: Control,
        args: &str,
        stack: &mut Vec<ProcessState>,
        collector: &mut Collector,
        prompter: &P,
        range: SourceRange,
        Ghost(n): Ghost<nat>,
    ) -> (r: Result<(Option<ParseWarningWithRange>, Option<u64>), ParseErrorWithRange>)
        where
            N: TokenProcessor<P, Output = Bms>,
        requires
            wf_stack(old(stack)@),
            old(collector).bounded(n as int),
            n >= 1,
        ensures
            r matches Ok((w, g)) ==> {
                &&& (g is Some <==> needs_gen(c, spec_arg(args@)))
                &&& spec_step(old(stack)@, c, spec_arg(args@), g.unwrap_or(0)) == Some(final(stack)@)
            },
            forall|b: int| b >= 1 && old(collector).bounded(b) ==> final(collector).bounded(b),
            r is Err ==> old(collector).has_open_branch() || step_may_fail(old(stack)@, c, spec_arg(args@)),
            wf_stack(final(stack)@),
            final(collector).has_open_branch() ==> old(collector).has_open_branch() || opens_branch(c),
            final(stack)@.len() >= 1 && final(stack)@[0] == ProcessState::Root,
        decreases n, 5nat,
    {
        match c {
            Control::Random => self.visit_random(rng, args, stack, collector, prompter, range, Ghost(n)),
            Control::SetRandom => {
                let w = self.visit_set_random(rng, args, stack, collector, prompter, range, Ghost(n))?;
                Ok((w, None))
            },
            Control::If => {
                let w = self.visit_if(rng, args, stack, collector, prompter, range, Ghost(n))?;
                Ok((w, None))
            },
            Control::ElseIf => {
                let w = self.visit_else_if(rng, args, stack, collector, prompter, range, Ghost(n))?;
                Ok((w, None))
            },
            Control::Else => {
                self.visit_else(rng, stack, collector, prompter, range, Ghost(n))?;
                Ok((None, None))
            },
            Control::EndIf => {
                self.visit_end_if(rng, stack, collector, prompter, range, Ghost(n))?;
                Ok((None, None))
            },
            Control::EndRandom => {
                self.visit_end_random(rng, stack, collector, prompter, range, Ghost(n))?;
                Ok((None, None))
            },
            Control::Switch => self.visit_switch(rng, args, stack, collector, prompter, range, Ghost(n)),
            Control::SetSwitch => {
                let w = self.visit_set_switch(rng, args, stack, collector, prompter, range, Ghost(n))?;
                Ok((w, None))
            },
            Control::Case => {
                let w = self.visit_case(rng, args, stack, collector, prompter, range, Ghost(n))?;
                Ok((w, None))
            },
            Control::Skip => {
                Self::visit_skip(stack, range)?;
                Ok((None, None))
            },
            Control::Def => {
                self.visit_default(rng, stack, collector, prompter, range, Ghost(n))?;
                Ok((None, None))
            },
            Control::EndSwitch => {
                self.visit_end_switch(rng, stack, collector, prompter, range, Ghost(n))?;
                Ok((None, None))
            },
        }
    }

    /// Reads the control commands of `tokens`, drawing numbers from `rng`. On success, the
    /// tokens handed on are those read while every enclosing scope is active, for the numbers
    /// that were drawn in turn.
    pub fn select<R: Rng, P: Prompter>(&self, rng: &mut R, tokens: &[TokenWithRange], prompter: &P) -> (r:
        Result<Selection, ParseErrorWithRange>)
        where
            N: TokenProcessor<P, Output = Bms>,
        ensures
            r matches Ok(sel) ==> {
                &&& sel.draws@.len() == gens_needed(tokens@)
                &&& run(tokens@, sel.draws@) is Some
                &&& sel.activated@ == activated_tokens(tokens@, sel.draws@)
            },
            r is Err ==> may_fail(tokens@),
            no_control(tokens@) ==> (r matches Ok(sel) && sel.activated@ == tokens@ && sel.warnings@.len() == 0),
        decreases tokens@.len(), 6nat,
    {
        let ghost n: nat = tokens@.len();
        let mut stack: Vec<ProcessState> = vec![ProcessState::Root];
        let mut collector = Collector::new();
        let mut activated: Vec<TokenWithRange> = Vec::new();
        let mut warnings: Vec<ParseWarningWithRange> = Vec::new();
        let ghost mut gens: Seq<u64> = seq![];
        let mut draws: Vec<u64> = Vec::new();
        let mut i: usize = 0;
        assert(tokens@.take(0) =~= Seq::<TokenWithRange>::empty());
        while i < tokens.len()
            invariant
                n == tokens@.len(),
                i <= tokens@.len(),
                wf_stack(stack@),
                collector.bounded(i as int),
                gens.len() == gens_needed(tokens@.take(i as int)),
                run(tokens@.take(i as int), gens) == Some(stack@),
                activated@ == activated_tokens(tokens@.take(i as int), gens),
                draws@ == gens,
                collector.has_open_branch() ==> opened_before(tokens@, i as int),
                no_control(tokens@.take(i as int)) ==> stack@ == seq![ProcessState::Root] && activated@
                    == tokens@.take(i as int) && warnings@.len() == 0,
            decreases tokens@.len() - i,
        {
            let token = &tokens[i];
            let ghost pre = tokens@.take(i as int);
            let ghost next_pre = tokens@.take(i + 1);
            assert(next_pre.drop_last() =~= pre);
            assert(next_pre.last() == *token);
            let ghost old_gens = gens;
            let ghost old_stack = stack@;
            let control = match &token.content {
                Token::Header { name, args } => match control_of(name.as_str()) {
                    Some(c) => Some((c, args)),
                    None => None,
                },
                _ => None,
            };
            match control {
                Some((c, args)) => {
                    assert(token_control(tokens@[i as int]) == Some((c, spec_arg(args@))));
                    let ghost had_open = collector.has_open_branch();
                    let (w, g) = match self.on_header(
                        rng,
                        c,
                        args.as_str(),
                        &mut stack,
                        &mut collector,
                        prompter,
                        token.range,
                        Ghost(n),
                    ) {
                        Ok(v) => v,
                        Err(e) => {
                            proof {
                                assert(pre == tokens@.take(i as int));
                                assert(fails_at(tokens@, i as int, run(tokens@.take(i as int), old_gens)));
                            }
                            return Err(e);
                        },
                    };
                    match w {
                        Some(w) => warnings.push(w),
                        None => {},
                    }
                    match g {
                        Some(v) => draws.push(v),
                        None => {},
                    }
                    proof {
                        if let Some(v) = g {
                            gens = gens.push(v);
                        }
                        if collector.has_open_branch() {
                            if had_open {
                                let j = choose|j: int| 0 <= j < i && #[trigger] token_opens(tokens@[j]);
                                assert(0 <= j < i + 1 && token_opens(tokens@[j]));
                            } else {
                                assert(token_opens(tokens@[i as int]));
                            }
                        }
                        assert(!no_control(tokens@.take(i + 1))) by {
                            assert(tokens@.take(i + 1)[i as int] == tokens@[i as int]);
                        }
                        lemma_step_keeps_root(
                            old_stack,
                            c,
                            spec_arg(args@),
                            g.unwrap_or(0),
                        );
                        assert(gens.take(old_gens.len() as int) =~= old_gens);
                        lemma_run_extend(pre, old_gens, gens);
                    }
                },
                None => {
                    collector.add_token(token.clone());
                    proof {
                        assert(gens.take(old_gens.len() as int) =~= old_gens);
                        lemma_run_extend(pre, old_gens, gens);
                        if collector.has_open_branch() {
                            let j = choose|j: int| 0 <= j < i && #[trigger] token_opens(tokens@[j]);
                            assert(0 <= j < i + 1 && token_opens(tokens@[j]));
                        }
                        if no_control(tokens@.take(i + 1)) {
                            assert forall|k: int| 0 <= k < i implies #[trigger] token_control(pre[k]) is None by {
                                assert(pre[k] == tokens@.take(i + 1)[k]);
                            }
                        }
                    }
                },
            }
            if is_activated(&stack) {
                activated.push(token.clone());
            }
            i += 1;
            proof {
                assert(token_control(*token) == match control {
                    Some((c, args)) => Some((c, spec_arg(args@))),
                    None => None::<(Control, Option<u64>)>,
                });
                assert(gens.take(old_gens.len() as int) =~= old_gens);
                lemma_run_extend(pre, old_gens, gens);
            }
        }
        assert(tokens@.take(tokens@.len() as int) =~= tokens@);
        Ok(Selection { activated, randomized: collector.finished_objects, warnings, draws })
    }

    /// Reads the control commands of `tokens`, then hands the active tokens to the next
    /// processor. Returns its score, the scopes with all their branches, and the warnings of
    /// both.
    pub fn process<R: Rng, P: Prompter>(&self, rng: &mut R, tokens: &[TokenWithRange], prompter: &P) -> (r:
        Result<(Bms, Vec<RandomizedObjects>, Vec<ParseWarningWithRange>), ParseErrorWithRange>)
        where
            N: TokenProcessor<P, Output = Bms>,
        ensures
            r matches Ok((bms, _, ws)) ==> exists|draws: Seq<u64>, nws: Vec<ParseWarningWithRange>, sw: Seq<ParseWarningWithRange>|
                #![trigger run(tokens@, draws), self.next.outcome(activated_tokens(tokens@, draws), *prompter, Ok((bms, nws))), sw + nws@]
                {
                    &&& draws.len() == gens_needed(tokens@)
                    &&& run(tokens@, draws) is Some
                    &&& self.next.outcome(activated_tokens(tokens@, draws), *prompter, Ok((bms, nws)))
                    &&& ws@ == sw + nws@
                },
            r matches Err(e) ==> may_fail(tokens@) || exists|draws: Seq<u64>|
                #![trigger run(tokens@, draws)]
                run(tokens@, draws) is Some && self.next.outcome(activated_tokens(tokens@, draws), *prompter, Err(e)),
            no_control(tokens@) ==> exists|nr: Result<(Bms, Vec<ParseWarningWithRange>), ParseErrorWithRange>|
                #[trigger] self.next.outcome(tokens@, *prompter, nr) && match nr {
                    Ok((o, nws)) => (r matches Ok((b, _, ws)) && b == o && ws@ == nws@),
                    Err(e) => r == Err::<(Bms, Vec<RandomizedObjects>, Vec<ParseWarningWithRange>), ParseErrorWithRange>(e),
                },
        decreases tokens@.len(), 7nat,
    {
        let sel = self.select(rng, tokens, prompter)?;
        let acts = sel.activated.as_slice();
        assert(acts@ == sel.activated@);
        let nr = self.next.process(acts, prompter);
        let ghost nrg = nr;
        let (bms, next_warnings) = match nr {
            Ok(v) => v,
            Err(e) => {
                proof {
                    assert(run(tokens@, sel.draws@) is Some);
                }
                return Err(e);
            },
        };
        let ghost sw = sel.warnings@;
        let ghost nws = next_warnings;
        let mut warnings = sel.warnings;
        let mut more = next_warnings;
        warnings.append(&mut more);
        proof {
            assert(run(tokens@, sel.draws@) is Some);
            assert(nrg == Ok::<(Bms, Vec<ParseWarningWithRange>), ParseErrorWithRange>((bms, nws)));
            assert(warnings@ == sw + nws@);
        }
        Ok((bms, sel.randomized, warnings))
    }

}

} // verus!
