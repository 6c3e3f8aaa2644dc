//! The remap engine: single-key substitution, the history of pressed keys,
//! and chord replacement.

use std::collections::HashMap;
use std::collections::VecDeque;
use vstd::prelude::*;
use crate::emitter::{emit_key, emit_key_sequence, emit_key_sequence_toggle};
use crate::emitter::{lemma_wire_concat, lemma_wire_one, presses, toggle, wire};
use crate::combo_key::{combo_key_text, lemma_combo_key_injective};
use crate::keys::{KeyCode, KeyEvent, KeyValue};

verus! {

broadcast use vstd::std_specs::hash::group_hash_axioms;

/// One chord remap: the ordered presses that trigger it and the keys that
/// are emitted in their place.
pub struct Combo {
    pub from: Vec<KeyCode>,
    pub to: Vec<KeyCode>,
}

/// The remap configuration. Of two chord remaps with the same trigger the
/// later one counts.
pub struct Config {
    pub singles: HashMap<KeyCode, KeyCode>,
    pub combos: Vec<Combo>,
}

/// The keys believed to be held, oldest press first.
pub struct State {
    pub pressed: VecDeque<KeyCode>,
}

/// The replacement that a list of chord remaps gives for a history: that of
/// the last remap whose trigger is the whole history, code for code.
pub open spec fn chord_lookup(combos: Seq<Combo>, history: Seq<KeyCode>) -> Option<Seq<KeyCode>>
    decreases combos.len(),
{
    if combos.len() == 0 {
        None
    } else if combos.last().from@ == history {
        Some(combos.last().to@)
    } else {
        chord_lookup(combos.drop_last(), history)
    }
}

/// The event after single-key substitution: a configured code is replaced,
/// the state is kept.
pub open spec fn substituted(singles: Map<KeyCode, KeyCode>, event: KeyEvent) -> KeyEvent {
    if singles.contains_key(event.code) {
        KeyEvent { code: singles[event.code], value: event.value }
    } else {
        event
    }
}

/// The history after an event: a press is appended, a release removes the
/// oldest entry whichever key was released, a repeat changes nothing.
pub open spec fn next_history(history: Seq<KeyCode>, event: KeyEvent) -> Seq<KeyCode> {
    match event.value {
        KeyValue::On => history.push(event.code),
        KeyValue::Off => if history.len() > 0 {
            history.drop_first()
        } else {
            history
        },
        KeyValue::Hold => history,
    }
}

/// What a matched chord emits: a release of every replacement key, then the
/// toggle burst of the replacement keys.
pub open spec fn chord_burst(to: Seq<KeyCode>) -> Seq<KeyEvent> {
    presses(to, KeyValue::Off) + toggle(to)
}

/// What the engine emits for an event: the chord burst if the history after
/// the event is a configured trigger, else the substituted event alone.
pub open spec fn emitted(
    singles: Map<KeyCode, KeyCode>,
    chords: Map<Seq<KeyCode>, Seq<KeyCode>>,
    history: Seq<KeyCode>,
    event: KeyEvent,
) -> Seq<KeyEvent> {
    let sent = substituted(singles, event);
    let held = next_history(history, sent);
    if chords.contains_key(held) {
        chord_burst(chords[held])
    } else {
        seq![sent]
    }
}

impl Config {
    /// The chord remaps as a map from trigger to replacement.
    pub open spec fn chords(&self) -> Map<Seq<KeyCode>, Seq<KeyCode>> {
        Map::new(
            |h: Seq<KeyCode>| chord_lookup(self.combos@, h).is_some(),
            |h: Seq<KeyCode>| chord_lookup(self.combos@, h).unwrap(),
        )
    }

    /// A configuration that remaps nothing.
    pub fn new() -> (config: Config)
        ensures
            config.singles@ == Map::<KeyCode, KeyCode>::empty(),
            config.combos@.len() == 0,
            config.chords() == Map::<Seq<KeyCode>, Seq<KeyCode>>::empty(),
    {
        let config = Config { singles: HashMap::new(), combos: Vec::new() };
        assert(config.chords() =~= Map::<Seq<KeyCode>, Seq<KeyCode>>::empty());
        config
    }

    /// Remaps one key to another; an earlier remap of the same key is
    /// replaced.
    pub fn add_single(&mut self, from: KeyCode, to: KeyCode)
        ensures
            final(self).singles@ == old(self).singles@.insert(from, to),
            final(self).combos == old(self).combos,
    {
        self.singles.insert(from, to);
    }

    /// Remaps a chord to a replacement sequence; an earlier remap of the same
    /// trigger is replaced.
    pub fn add_combo(&mut self, from: Vec<KeyCode>, to: Vec<KeyCode>)
        ensures
            final(self).singles == old(self).singles,
            final(self).combos@ == old(self).combos@.push(Combo { from, to }),
            final(self).chords() == old(self).chords().insert(from@, to@),
    {
        self.combos.push(Combo { from, to });
        proof {
            assert(self.combos@.drop_last() =~= old(self).combos@);
            assert(self.chords() =~= old(self).chords().insert(from@, to@));
        }
    }
}

impl State {
    /// A history with no key held.
    pub fn new() -> (state: State)
        ensures
            state.pressed@ == Seq::<KeyCode>::empty(),
    {
        State { pressed: VecDeque::new() }
    }
}

/// Tells whether a trigger is the whole history: same codes, same order,
/// same length.
pub fn same_codes(trigger: &Vec<KeyCode>, pressed: &VecDeque<KeyCode>) -> (same: bool)
    ensures
        same == (trigger@ == pressed@),
{
    if trigger.len() != pressed.len() {
        return false;
    }
    let mut i: usize = 0;
    while i < trigger.len()
        invariant
            i <= trigger@.len(),
            trigger@.len() == pressed@.len(),
            forall|k: int| 0 <= k < i ==> trigger@[k] == pressed@[k],
        decreases trigger@.len() - i,
    {
        if trigger[i] != pressed[i] {
            return false;
        }
        i = i + 1;
    }
    assert(trigger@ =~= pressed@);
    true
}

/// Finds the chord remap that the history triggers: the last one in the
/// list whose trigger is the whole history.
pub fn find_combo(config: &Config, pressed: &VecDeque<KeyCode>) -> (found: Option<usize>)
    ensures
        found.is_some() <==> config.chords().contains_key(pressed@),
        found.is_some() ==> found.unwrap() < config.combos@.len()
            && config.combos@[found.unwrap() as int].from@ == pressed@
            && config.combos@[found.unwrap() as int].to@ == config.chords()[pressed@],
        found.is_some() ==> forall|j: int|
            found.unwrap() < j < config.combos@.len() ==> (#[trigger] config.combos@[j]).from@
                != pressed@,
{
    let mut i: usize = config.combos.len();
    assert(config.combos@.take(i as int) =~= config.combos@);
    while i > 0
        invariant
            i <= config.combos@.len(),
            forall|j: int|
                i <= j < config.combos@.len() ==> (#[trigger] config.combos@[j]).from@
                    != pressed@,
            chord_lookup(config.combos@, pressed@) == chord_lookup(
                config.combos@.take(i as int),
                pressed@,
            ),
        decreases i,
    {
        i = i - 1;
        assert(config.combos@.take(i + 1).last() == config.combos@[i as int]);
        assert(config.combos@.take(i + 1).drop_last() =~= config.combos@.take(i as int));
        if same_codes(&config.combos[i].from, pressed) {
            return Some(i);
        }
    }
    None
}

/// Resolves the chord that the history triggers, if any: releases every
/// replacement key, then emits their toggle burst. Tells whether a chord
/// matched; if none did, nothing is emitted.
pub fn handle_meta_combo(out: &mut Vec<u8>, state: &State, config: &Config) -> (handled: bool)
    ensures
        handled == config.chords().contains_key(state.pressed@),
        handled ==> final(out)@ == old(out)@ + wire(
            chord_burst(config.chords()[state.pressed@]),
        ),
        !handled ==> final(out)@ == old(out)@,
{
    match find_combo(config, &state.pressed) {
        Some(i) => {
            let key_sequence = config.combos[i].to.clone();
            let again = config.combos[i].to.clone();
            assert(key_sequence@ =~= config.combos@[i as int].to@);
            assert(again@ =~= config.combos@[i as int].to@);
            emit_key_sequence(out, key_sequence, KeyValue::Off);
            emit_key_sequence_toggle(out, again);
            proof {
                let to = config.chords()[state.pressed@];
                lemma_wire_concat(presses(to, KeyValue::Off), toggle(to));
                assert(out@ =~= old(out)@ + wire(chord_burst(to)));
            }
            true
        },
        None => false,
    }
}

/// Handles one incoming key event: substitutes its code if a single remap
/// is configured for it, updates the history, and emits either the burst of
/// the chord that the history now triggers or the substituted event.
pub fn process_event(out: &mut Vec<u8>, state: &mut State, config: &Config, event: KeyEvent)
    ensures
        final(state).pressed@ == next_history(
            old(state).pressed@,
            substituted(config.singles@, event),
        ),
        final(out)@ == old(out)@ + wire(
            emitted(config.singles@, config.chords(), old(state).pressed@, event),
        ),
{
    let mut event = event;
    match config.singles.get(&event.code) {
        Some(key_code) => {
            event.code = *key_code;
        },
        None => {},
    }
    match event.value {
        KeyValue::Off => {
            let _ = state.pressed.pop_front();
        },
        KeyValue::On => {
            state.pressed.push_back(event.code);
        },
        KeyValue::Hold => {},
    }
    assert(state.pressed@ =~= next_history(old(state).pressed@, event));
    if !handle_meta_combo(out, state, config) {
        emit_key(out, event.code, event.value);
        proof {
            lemma_wire_one(event);
        }
    }
}

/// A configured single remap decides the outgoing code and keeps the state,
/// for a press, a release and a repeat alike; where no chord is triggered,
/// the substituted event is all that is emitted.
pub proof fn lemma_single_remap(
    singles: Map<KeyCode, KeyCode>,
    chords: Map<Seq<KeyCode>, Seq<KeyCode>>,
    history: Seq<KeyCode>,
    from: KeyCode,
    to: KeyCode,
    value: KeyValue,
)
    requires
        singles.contains_key(from),
        singles[from] == to,
    ensures
        substituted(singles, KeyEvent { code: from, value }) == (KeyEvent { code: to, value }),
        !chords.contains_key(next_history(history, KeyEvent { code: to, value })) ==> emitted(
            singles,
            chords,
            history,
            KeyEvent { code: from, value },
        ) == seq![KeyEvent { code: to, value }],
{
}

/// A key without a single remap, arriving at a history that triggers no
/// chord, goes out exactly as it came in.
pub proof fn lemma_passthrough(
    singles: Map<KeyCode, KeyCode>,
    chords: Map<Seq<KeyCode>, Seq<KeyCode>>,
    history: Seq<KeyCode>,
    event: KeyEvent,
)
    requires
        !singles.contains_key(event.code),
        !chords.contains_key(next_history(history, event)),
    ensures
        emitted(singles, chords, history, event) == seq![event],
        wire(emitted(singles, chords, history, event)) == crate::emitter::key_bytes(event),
{
    lemma_wire_one(event);
}

/// A history triggers a chord exactly when it equals the trigger of some
/// configured remap as a whole: the same codes in the same order, no more and
/// no fewer.
pub proof fn lemma_chord_exactness(combos: Seq<Combo>, history: Seq<KeyCode>)
    ensures
        chord_lookup(combos, history).is_some() <==> exists|i: int|
            0 <= i < combos.len() && #[trigger] combos[i].from@ == history,
    decreases combos.len(),
{
    if combos.len() > 0 {
        let rest = combos.drop_last();
        lemma_chord_exactness(rest, history);
        if combos.last().from@ == history {
            assert(combos[combos.len() - 1].from@ == history);
        } else if chord_lookup(rest, history).is_some() {
            let i = choose|i: int| 0 <= i < rest.len() && #[trigger] rest[i].from@ == history;
            assert(combos[i].from@ == history);
        } else {
            assert forall|i: int| 0 <= i < combos.len() implies #[trigger] combos[i].from@
                != history by {
                if i < rest.len() {
                    assert(rest[i].from@ == combos[i].from@);
                }
            }
        }
    }
}

/// Where the history after an event differs from every configured trigger,
/// be it longer, shorter or in another order, no chord fires: the
/// substituted event itself is emitted.
pub proof fn lemma_other_history_does_not_fire(
    config: Config,
    history: Seq<KeyCode>,
    event: KeyEvent,
)
    requires
        forall|i: int|
            0 <= i < config.combos@.len() ==> #[trigger] config.combos@[i].from@ != next_history(
                history,
                substituted(config.singles@, event),
            ),
    ensures
        emitted(config.singles@, config.chords(), history, event) == seq![
            substituted(config.singles@, event),
        ],
{
    lemma_chord_exactness(
        config.combos@,
        next_history(history, substituted(config.singles@, event)),
    );
}

/// A release removes the oldest press, whichever key was released: after
/// pressing `a` and then `b` from an empty history, any release leaves `b`.
pub proof fn lemma_history_fifo(a: KeyCode, b: KeyCode, released: KeyCode)
    ensures
        next_history(
            next_history(
                next_history(Seq::empty(), KeyEvent { code: a, value: KeyValue::On }),
                KeyEvent { code: b, value: KeyValue::On },
            ),
            KeyEvent { code: released, value: KeyValue::Off },
        ) == seq![b],
{
    let h1 = next_history(Seq::empty(), KeyEvent { code: a, value: KeyValue::On });
    let h2 = next_history(h1, KeyEvent { code: b, value: KeyValue::On });
    let h3 = next_history(h2, KeyEvent { code: released, value: KeyValue::Off });
    assert(h3 =~= seq![b]);
}

/// Presses queue up in their order and each release takes one entry from
/// the front; a release at an empty history and a repeat change nothing.
pub proof fn lemma_history_steps(history: Seq<KeyCode>, code: KeyCode)
    ensures
        next_history(history, KeyEvent { code, value: KeyValue::On }) == history + seq![code],
        next_history(history, KeyEvent { code, value: KeyValue::Hold }) == history,
        history.len() == 0 ==> next_history(history, KeyEvent { code, value: KeyValue::Off })
            == history,
        history.len() > 0 ==> history == seq![history[0]] + next_history(
            history,
            KeyEvent { code, value: KeyValue::Off },
        ),
{
    assert(history.push(code) =~= history + seq![code]);
    if history.len() > 0 {
        assert(history =~= seq![history[0]] + history.drop_first());
    }
}

/// Chords are told apart by their text: a history triggers a chord exactly
/// when the text of the history is the text of a configured trigger.
pub proof fn lemma_chord_text_decides(combos: Seq<Combo>, history: Seq<KeyCode>)
    ensures
        chord_lookup(combos, history).is_some() <==> exists|i: int|
            0 <= i < combos.len() && #[trigger] combo_key_text(combos[i].from@) == combo_key_text(
                history,
            ),
{
    lemma_chord_exactness(combos, history);
    if chord_lookup(combos, history).is_some() {
        let i = choose|i: int| 0 <= i < combos.len() && #[trigger] combos[i].from@ == history;
        assert(combo_key_text(combos[i].from@) == combo_key_text(history));
    }
    if exists|i: int|
        0 <= i < combos.len() && #[trigger] combo_key_text(combos[i].from@) == combo_key_text(
            history,
        ) {
        let i = choose|i: int|
            0 <= i < combos.len() && #[trigger] combo_key_text(combos[i].from@) == combo_key_text(
                history,
            );
        lemma_combo_key_injective(combos[i].from@, history);
        assert(combos[i].from@ == history);
    }
}

} // verus!
