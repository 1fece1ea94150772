//! The engine that runs instructions.
//!
//! An instruction is run against a stack, a dictionary, the stages of the
//! `IF`s that are open, and the chain of the words whose calls are under
//! way. A word that is already on the chain is not called again, so every
//! run ends.

use vstd::prelude::*;
use crate::effects::{report, reported, Effect, EffectModel};
use crate::errors::ForthError;
use crate::forth_value::{ForthValue, ValueModel};
use crate::operations::arithmetic::{arithmetic_spec, execute_arithmetic_op};
use crate::operations::boolean::{boolean_spec, execute_boolean_op};
use crate::operations::conditional::{
    conditional_spec,
    else_spec,
    execute_conditional_op,
    then_spec,
    ConditionalOperation,
};
use crate::operations::forth_operation::{ForthOperation, OperationModel};
use crate::operations::output::{execute_output_op, output_spec};
use crate::operations::stack_type::{execute_stack_op, stack_op_spec};
use crate::stack::{push_spec, Stack};
use crate::words::dictionary::{Body, WordsDictionary};
use crate::words::word::{ForthWord, WordModel};

verus! {

/// Whether instructions are being run or passed over.
///
/// One stage is kept for each `IF` that is open. `Skipping` counts the
/// `IF`s that were opened since skipping began, its own included.
#[derive(Debug, Clone, Copy, PartialEq, Eq, Structural)]
pub enum ExecutionStage {
    Executing,
    Skipping(usize),
}

/// What running instructions changes: the stack, the stages of the open
/// `IF`s, and the lines put out so far.
pub struct Machine {
    pub stack: Seq<i16>,
    pub stages: Seq<ExecutionStage>,
    pub log: Seq<EffectModel>,
}

/// The bodies of the words, each under its name.
pub type Words = Map<Seq<char>, Seq<ValueModel>>;

/// The stage that governs the next instruction: that of the innermost
/// `IF`, and running where none is open.
pub open spec fn current_stage(stages: Seq<ExecutionStage>) -> ExecutionStage {
    if stages.len() == 0 {
        ExecutionStage::Executing
    } else {
        stages.last()
    }
}

/// Whether no stage skips deeper than `bound`.
pub open spec fn depth_bounded(stages: Seq<ExecutionStage>, bound: int) -> bool {
    forall|k: int|
        0 <= k < stages.len() ==> match #[trigger] stages[k] {
            ExecutionStage::Skipping(depth) => depth <= bound,
            ExecutionStage::Executing => true,
        }
}

/// Whether every stage that skips counts at least one `IF`: its own.
pub open spec fn depths_positive(stages: Seq<ExecutionStage>) -> bool {
    forall|k: int|
        0 <= k < stages.len() ==> match #[trigger] stages[k] {
            ExecutionStage::Skipping(depth) => depth >= 1,
            ExecutionStage::Executing => true,
        }
}

/// The stages after `value` was passed over. Only `IF`, `ELSE` and `THEN`
/// count: an `IF` opens one more conditional inside the skipped part.
pub open spec fn skip_spec(value: ValueModel, stages: Seq<ExecutionStage>) -> Seq<ExecutionStage>
    recommends
        current_stage(stages) is Skipping,
{
    match value {
        ValueModel::Operation(OperationModel::Conditional(ConditionalOperation::Then)) => then_spec(
            stages,
        ),
        ValueModel::Operation(OperationModel::Conditional(ConditionalOperation::Else)) => else_spec(
            stages,
        ),
        ValueModel::Operation(OperationModel::Conditional(ConditionalOperation::If)) => {
            match stages.last() {
                ExecutionStage::Skipping(depth) => stages.update(
                    stages.len() - 1,
                    ExecutionStage::Skipping((depth + 1) as usize),
                ),
                ExecutionStage::Executing => stages,
            }
        },
        _ => stages,
    }
}

/// What a number or a built-in operation other than `IF`, `ELSE` and
/// `THEN` makes of the stack and of the lines put out. Every other value
/// leaves both as they are.
pub open spec fn plain_spec(
    value: ValueModel,
    stack: Seq<i16>,
    log: Seq<EffectModel>,
    capacity: nat,
) -> (Seq<i16>, Seq<EffectModel>) {
    match value {
        ValueModel::Operation(OperationModel::Arithmetic(op)) => {
            let (stack, result) = arithmetic_spec(op, stack, capacity);
            (stack, reported(log, result))
        },
        ValueModel::Operation(OperationModel::StackTypeOp(op)) => {
            let (stack, result) = stack_op_spec(op, stack, capacity);
            (stack, reported(log, result))
        },
        ValueModel::Operation(OperationModel::Output(op)) => {
            let (stack, effect) = output_spec(op, stack);
            (stack, log.push(effect))
        },
        ValueModel::Operation(OperationModel::Boolean(op)) => {
            let (stack, result) = boolean_spec(op, stack, capacity);
            (stack, reported(log, result))
        },
        ValueModel::Number(n) => {
            let (stack, result) = push_spec(stack, capacity, n);
            (stack, reported(log, result))
        },
        _ => (stack, log),
    }
}

/// The words of `words` whose call is not under way: those that may
/// still be called.
pub open spec fn pending(words: Words, chain: Seq<Seq<char>>) -> Set<Seq<char>> {
    words.dom().filter(|name: Seq<char>| !chain.contains(name))
}

/// Calling a word that may still be called leaves fewer such words for
/// the calls inside it.
pub proof fn lemma_pending_shrinks(words: Words, chain: Seq<Seq<char>>, name: Seq<char>)
    requires
        words.dom().finite(),
        words.contains_key(name),
        !chain.contains(name),
    ensures
        pending(words, chain.push(name)).len() < pending(words, chain).len(),
{
    let before = pending(words, chain);
    let after = pending(words, chain.push(name));
    words.dom().lemma_len_filter(|name: Seq<char>| !chain.contains(name));
    assert forall|other: Seq<char>| after.contains(other) <==> before.remove(name).contains(
        other,
    ) by {
        let longer = chain.push(name);
        if chain.contains(other) {
            let i = choose|i: int| 0 <= i < chain.len() && chain[i] == other;
            assert(longer[i] == other);
        }
        if longer.contains(other) && other != name {
            let i = choose|i: int| 0 <= i < longer.len() && longer[i] == other;
            assert(chain[i] == other);
        }
        assert(longer[chain.len() as int] == name);
    }
    assert(after =~= before.remove(name));
    assert(before.contains(name));
    vstd::set::axiom_set_remove_len(before, name);
}

/// The stages with which the run of every body starts.
pub open spec fn fresh_stages() -> Seq<ExecutionStage> {
    seq![ExecutionStage::Executing]
}

/// What the call of the word `name` makes of the stack and of the lines
/// put out.
///
/// A word whose call is under way is not called again: nothing happens.
/// A word that `words` does not hold is reported as `UnknownWord`.
/// Otherwise the body of the word is run from its first instruction to its
/// last, with stages of its own.
pub open spec fn call_spec(
    name: Seq<char>,
    stack: Seq<i16>,
    log: Seq<EffectModel>,
    capacity: nat,
    words: Words,
    chain: Seq<Seq<char>>,
) -> (Seq<i16>, Seq<EffectModel>)
    decreases pending(words, chain).len(), 0nat, 0nat,
    when words.dom().finite()
    via call_spec_decreases
{
    if chain.contains(name) {
        (stack, log)
    } else if !words.contains_key(name) {
        (stack, log.push(EffectModel::Failure(ForthError::UnknownWord)))
    } else {
        let end = run_spec(
            words[name],
            words[name].len(),
            Machine { stack, stages: fresh_stages(), log },
            capacity,
            words,
            chain.push(name),
        );
        (end.stack, end.log)
    }
}

#[via_fn]
proof fn call_spec_decreases(
    name: Seq<char>,
    stack: Seq<i16>,
    log: Seq<EffectModel>,
    capacity: nat,
    words: Words,
    chain: Seq<Seq<char>>,
) {
    if !chain.contains(name) && words.contains_key(name) {
        lemma_pending_shrinks(words, chain, name);
    }
}

/// What the instruction `value` makes of `machine`.
///
/// While skipping, only `IF`, `ELSE` and `THEN` have an effect, and only
/// on the stages. While running, a reference to a word calls it, `IF`,
/// `ELSE` and `THEN` work on the stages, and everything else works on the
/// stack.
pub open spec fn step_spec(
    value: ValueModel,
    machine: Machine,
    capacity: nat,
    words: Words,
    chain: Seq<Seq<char>>,
) -> Machine
    decreases pending(words, chain).len(), 0nat, 1nat,
    when words.dom().finite()
{
    match current_stage(machine.stages) {
        ExecutionStage::Executing => match value {
            ValueModel::Word(WordModel::Start(name)) => {
                let (stack, log) = call_spec(
                    name,
                    machine.stack,
                    machine.log,
                    capacity,
                    words,
                    chain,
                );
                Machine { stack, stages: machine.stages, log }
            },
            ValueModel::Operation(OperationModel::Conditional(op)) => {
                let (stack, stages, result) = conditional_spec(op, machine.stack, machine.stages);
                Machine { stack, stages, log: reported(machine.log, result) }
            },
            _ => {
                let (stack, log) = plain_spec(value, machine.stack, machine.log, capacity);
                Machine { stack, stages: machine.stages, log }
            },
        },
        ExecutionStage::Skipping(_) => Machine {
            stack: machine.stack,
            stages: skip_spec(value, machine.stages),
            log: machine.log,
        },
    }
}

/// What the first `count` instructions of `body`, run one after the
/// other, make of `machine`.
pub open spec fn run_spec(
    body: Seq<ValueModel>,
    count: nat,
    machine: Machine,
    capacity: nat,
    words: Words,
    chain: Seq<Seq<char>>,
) -> Machine
    decreases pending(words, chain).len(), 1nat, count,
    when words.dom().finite()
{
    if count == 0 {
        machine
    } else {
        step_spec(
            body[count - 1],
            run_spec(body, (count - 1) as nat, machine, capacity, words, chain),
            capacity,
            words,
            chain,
        )
    }
}

/// What `value` makes of the stack and of the lines put out when it is
/// run outside any conditional, inside the body of `current_word` if
/// that is given.
///
/// A reference to `current_word` itself does nothing. A reference to
/// another word runs the body of that word as it is, without entering the
/// word in the chain: `UnknownWord` is reported if there is none.
/// `IF`, `ELSE` and `THEN` do nothing here.
pub open spec fn other_operations_spec(
    value: ValueModel,
    stack: Seq<i16>,
    log: Seq<EffectModel>,
    capacity: nat,
    words: Words,
    current_word: Option<Seq<char>>,
    chain: Seq<Seq<char>>,
) -> (Seq<i16>, Seq<EffectModel>)
    recommends
        words.dom().finite(),
{
    match value {
        ValueModel::Word(WordModel::Start(name)) => {
            if current_word == Some(name) {
                (stack, log)
            } else if !words.contains_key(name) {
                (stack, log.push(EffectModel::Failure(ForthError::UnknownWord)))
            } else {
                let end = run_spec(
                    words[name],
                    words[name].len(),
                    Machine { stack, stages: fresh_stages(), log },
                    capacity,
                    words,
                    chain,
                );
                (end.stack, end.log)
            }
        },
        _ => plain_spec(value, stack, log, capacity),
    }
}

/// Whether `value` refers to a word.
pub open spec fn is_reference(value: ValueModel) -> bool {
    value is Word && value->Word_0 is Start
}

/// Whether `names` holds `name`.
pub fn contains_name(names: &Vec<String>, name: &String) -> (found: bool)
    ensures
        found == names.deep_view().contains(name@),
{
    let mut i: usize = 0;
    while i < names.len()
        invariant
            i <= names@.len(),
            forall|j: int| 0 <= j < i ==> names.deep_view()[j] != name@,
        decreases names@.len() - i,
    {
        if names[i] == *name {
            assert(names.deep_view()[i as int] == name@);
            return true;
        }
        i += 1;
    }
    false
}

/// Runs `definition`, the body of a word, from its first instruction to
/// its last, with stages of its own.
fn run_body(
    definition: &Body,
    stack: &mut Stack,
    dictionary: &WordsDictionary,
    word_name: &String,
    executed_words: &mut Vec<String>,
    log: &mut Vec<Effect>,
)
    ensures
        final(stack).capacity() == old(stack).capacity(),
        old(stack).wf() ==> final(stack).wf(),
        final(executed_words).deep_view() == old(executed_words).deep_view(),
        ({
            let end = run_spec(
                definition.deep_view(),
                definition@.len(),
                Machine { stack: old(stack)@, stages: fresh_stages(), log: old(log).deep_view() },
                old(stack).capacity(),
                dictionary@,
                old(executed_words).deep_view(),
            );
            final(stack)@ == end.stack && final(log).deep_view() == end.log
        }),
    decreases pending(dictionary@, old(executed_words).deep_view()).len(), 4nat, 0nat,
{
    proof {
        dictionary.lemma_finite();
    }
    let mut mode_stack = vec![ExecutionStage::Executing];
    assert(mode_stack@ =~= fresh_stages());
    let mut i: usize = 0;
    while i < definition.len()
        invariant
            i <= definition@.len(),
            dictionary@.dom().finite(),
            stack.capacity() == old(stack).capacity(),
            old(stack).wf() ==> stack.wf(),
            executed_words.deep_view() == old(executed_words).deep_view(),
            depth_bounded(mode_stack@, i as int),
            (Machine { stack: stack@, stages: mode_stack@, log: log.deep_view() } == run_spec(
                definition.deep_view(),
                i as nat,
                Machine { stack: old(stack)@, stages: fresh_stages(), log: old(log).deep_view() },
                old(stack).capacity(),
                dictionary@,
                old(executed_words).deep_view(),
            )),
        decreases definition@.len() - i,
    {
        execute_instruction(
            &*definition[i],
            stack,
            dictionary,
            &mut mode_stack,
            Some(word_name.clone()),
            executed_words,
            log,
        );
        i += 1;
    }
}

/// Calls the word `word_name`, unless its call is under way.
///
/// The name is on the chain `executed_words` while the body of the word
/// runs, and off it again afterwards. A word that the dictionary does not
/// hold is reported as `UnknownWord`.
pub fn handle_word_execution(
    word_name: &String,
    stack: &mut Stack,
    dictionary: &WordsDictionary,
    executed_words: &mut Vec<String>,
    log: &mut Vec<Effect>,
)
    ensures
        final(stack).capacity() == old(stack).capacity(),
        old(stack).wf() ==> final(stack).wf(),
        final(executed_words).deep_view() == old(executed_words).deep_view(),
        (final(stack)@, final(log).deep_view()) == call_spec(
            word_name@,
            old(stack)@,
            old(log).deep_view(),
            old(stack).capacity(),
            dictionary@,
            old(executed_words).deep_view(),
        ),
    decreases pending(dictionary@, old(executed_words).deep_view()).len(), 0nat, 0nat,
{
    proof {
        dictionary.lemma_finite();
    }
    if contains_name(executed_words, word_name) {
        return ;
    }
    match dictionary.get_word(word_name.as_str()) {
        Some(definition) => {
            executed_words.push(word_name.clone());
            proof {
                assert(executed_words.deep_view() =~= old(executed_words).deep_view().push(
                    word_name@,
                ));
                lemma_pending_shrinks(dictionary@, old(executed_words).deep_view(), word_name@);
            }
            run_body(definition, stack, dictionary, word_name, executed_words, log);
            let ghost longer = executed_words.deep_view();
            executed_words.pop();
            assert(executed_words.deep_view() =~= longer.drop_last());
        },
        None => {
            log.push(Effect::Failure(ForthError::UnknownWord));
            assert(log.deep_view() =~= old(log).deep_view().push(
                EffectModel::Failure(ForthError::UnknownWord),
            ));
        },
    }
}

/// Runs a number or a built-in operation other than `IF`, `ELSE` and
/// `THEN`; runs the body of a word other than `current_word` as it is,
/// without entering the word in the chain.
pub fn execute_other_operations(
    val: &ForthValue,
    stack: &mut Stack,
    dictionary: &WordsDictionary,
    current_word: Option<String>,
    executed_words: &mut Vec<String>,
    log: &mut Vec<Effect>,
)
    ensures
        final(stack).capacity() == old(stack).capacity(),
        old(stack).wf() ==> final(stack).wf(),
        final(executed_words).deep_view() == old(executed_words).deep_view(),
        (final(stack)@, final(log).deep_view()) == other_operations_spec(
            val@,
            old(stack)@,
            old(log).deep_view(),
            old(stack).capacity(),
            dictionary@,
            current_word.deep_view(),
            old(executed_words).deep_view(),
        ),
    decreases
            pending(dictionary@, old(executed_words).deep_view()).len(),
            (if is_reference(val@) {
                5nat
            } else {
                1nat
            }),
            0nat,
{
    match val {
        ForthValue::Operation(ForthOperation::Arithmetic(op)) => {
            let result = execute_arithmetic_op(op, stack);
            report(log, result);
        },
        ForthValue::Operation(ForthOperation::StackTypeOp(op)) => {
            let result = execute_stack_op(op, stack);
            report(log, result);
        },
        ForthValue::Operation(ForthOperation::Output(op)) => {
            let effect = execute_output_op(op, stack);
            log.push(effect);
            assert(log.deep_view() =~= old(log).deep_view().push(effect@));
        },
        ForthValue::Operation(ForthOperation::Boolean(op)) => {
            let result = execute_boolean_op(op, stack);
            report(log, result);
        },
        ForthValue::Number(n) => {
            let result = stack.push(*n);
            report(log, result);
        },
        ForthValue::Word(ForthWord::Start(word_name)) => {
            if let Some(ref current) = current_word {
                if *current == *word_name {
                    return ;
                }
            }
            match dictionary.get_word(word_name.as_str()) {
                Some(definition) => {
                    run_body(definition, stack, dictionary, word_name, executed_words, log);
                },
                None => {
                    log.push(Effect::Failure(ForthError::UnknownWord));
                    assert(log.deep_view() =~= old(log).deep_view().push(
                        EffectModel::Failure(ForthError::UnknownWord),
                    ));
                },
            }
        },
        _ => {},
    }
}

/// Runs or passes over the instruction `val`, as the innermost open `IF`
/// demands.
///
/// The counts of the skipping stages must have room to grow by one: none
/// may be the greatest number there is.
pub fn execute_instruction(
    val: &ForthValue,
    stack: &mut Stack,
    dictionary: &WordsDictionary,
    execution_stage: &mut Vec<ExecutionStage>,
    current_word: Option<String>,
    executed_words: &mut Vec<String>,
    log: &mut Vec<Effect>,
)
    requires
        depth_bounded(old(execution_stage)@, usize::MAX - 1),
    ensures
        final(stack).capacity() == old(stack).capacity(),
        old(stack).wf() ==> final(stack).wf(),
        final(executed_words).deep_view() == old(executed_words).deep_view(),
        (Machine {
            stack: final(stack)@,
            stages: final(execution_stage)@,
            log: final(log).deep_view(),
        } == step_spec(
            val@,
            Machine {
                stack: old(stack)@,
                stages: old(execution_stage)@,
                log: old(log).deep_view(),
            },
            old(stack).capacity(),
            dictionary@,
            old(executed_words).deep_view(),
        )),
        forall|bound: int|
            0 <= bound && #[trigger] depth_bounded(old(execution_stage)@, bound) ==> depth_bounded(
                final(execution_stage)@,
                bound + 1,
            ),
    decreases pending(dictionary@, old(executed_words).deep_view()).len(), 3nat, 0nat,
{
    proof {
        dictionary.lemma_finite();
    }
    let n = execution_stage.len();
    let skipping = n > 0 && match execution_stage[n - 1] {
        ExecutionStage::Skipping(_) => true,
        ExecutionStage::Executing => false,
    };
    if skipping {
        handle_skipping_mode(val, execution_stage);
    } else {
        handle_executing_mode(
            val,
            stack,
            dictionary,
            execution_stage,
            current_word,
            executed_words,
            log,
        );
    }
}

/// Runs the instruction `val`.
fn handle_executing_mode(
    val: &ForthValue,
    stack: &mut Stack,
    dictionary: &WordsDictionary,
    execution_stage: &mut Vec<ExecutionStage>,
    current_word: Option<String>,
    executed_words: &mut Vec<String>,
    log: &mut Vec<Effect>,
)
    requires
        current_stage(old(execution_stage)@) is Executing,
    ensures
        final(stack).capacity() == old(stack).capacity(),
        old(stack).wf() ==> final(stack).wf(),
        final(executed_words).deep_view() == old(executed_words).deep_view(),
        (Machine {
            stack: final(stack)@,
            stages: final(execution_stage)@,
            log: final(log).deep_view(),
        } == step_spec(
            val@,
            Machine {
                stack: old(stack)@,
                stages: old(execution_stage)@,
                log: old(log).deep_view(),
            },
            old(stack).capacity(),
            dictionary@,
            old(executed_words).deep_view(),
        )),
        forall|bound: int|
            0 <= bound && #[trigger] depth_bounded(old(execution_stage)@, bound) ==> depth_bounded(
                final(execution_stage)@,
                bound + 1,
            ),
    decreases pending(dictionary@, old(executed_words).deep_view()).len(), 2nat, 0nat,
{
    proof {
        dictionary.lemma_finite();
    }
    match val {
        ForthValue::Word(ForthWord::Start(word_name)) => {
            handle_word_execution(word_name, stack, dictionary, executed_words, log);
        },
        ForthValue::Operation(ForthOperation::Conditional(op)) => {
            let result = execute_conditional_op(op, stack, execution_stage);
            report(log, result);
        },
        _ => execute_other_operations(val, stack, dictionary, current_word, executed_words, log),
    }
}

/// Passes over the instruction `val`, keeping count of the conditionals
/// inside the skipped part.
fn handle_skipping_mode(val: &ForthValue, execution_stage: &mut Vec<ExecutionStage>)
    requires
        current_stage(old(execution_stage)@) is Skipping,
        depth_bounded(old(execution_stage)@, usize::MAX - 1),
    ensures
        final(execution_stage)@ == skip_spec(val@, old(execution_stage)@),
{
    if let ForthValue::Operation(ForthOperation::Conditional(op)) = val {
        match op {
            ConditionalOperation::Then => handle_skipping_then(execution_stage),
            ConditionalOperation::Else => handle_skipping_else(execution_stage),
            ConditionalOperation::If => handle_skipping_if(execution_stage),
        }
    }
}

/// A `THEN` in a skipped part: closes the conditional it belongs to.
fn handle_skipping_then(execution_stage: &mut Vec<ExecutionStage>)
    requires
        current_stage(old(execution_stage)@) is Skipping,
    ensures
        final(execution_stage)@ == then_spec(old(execution_stage)@),
{
    let n = execution_stage.len();
    if n > 0 {
        if let ExecutionStage::Skipping(current_depth) = execution_stage[n - 1] {
            if current_depth > 1 {
                execution_stage[n - 1] = ExecutionStage::Skipping(current_depth - 1);
            } else {
                execution_stage.pop();
            }
        }
    }
}

/// An `ELSE` in a skipped part: ends the skipping if it belongs to the
/// `IF` at which skipping began.
fn handle_skipping_else(execution_stage: &mut Vec<ExecutionStage>)
    requires
        current_stage(old(execution_stage)@) is Skipping,
    ensures
        final(execution_stage)@ == else_spec(old(execution_stage)@),
{
    let n = execution_stage.len();
    if n > 0 {
        if let ExecutionStage::Skipping(depth) = execution_stage[n - 1] {
            if depth == 1 {
                execution_stage[n - 1] = ExecutionStage::Executing;
            }
        }
    }
}

/// An `IF` in a skipped part: one more conditional is open inside it.
fn handle_skipping_if(execution_stage: &mut Vec<ExecutionStage>)
    requires
        current_stage(old(execution_stage)@) is Skipping,
        depth_bounded(old(execution_stage)@, usize::MAX - 1),
    ensures
        final(execution_stage)@ == skip_spec(
            ValueModel::Operation(OperationModel::Conditional(ConditionalOperation::If)),
            old(execution_stage)@,
        ),
{
    let n = execution_stage.len();
    if n > 0 {
        if let ExecutionStage::Skipping(depth) = execution_stage[n - 1] {
            execution_stage[n - 1] = ExecutionStage::Skipping(depth + 1);
        }
    }
}

} // verus!
