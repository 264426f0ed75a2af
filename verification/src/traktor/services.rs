//! The mixer's events and what each does to the state.
//!
//! An effect event names its target by a dotted path, such as
//! `app.traktor.fx.1.knobs.3`: the knob is the sixth segment of the path, read
//! as a decimal number.  A deck event names its deck by a letter.  An event
//! that names nothing the state knows changes nothing, and is no error.

use super::{
    text_of, DeckContent, DeckContentView, DeckID, FxUnitType, TraktorState, TraktorStateView,
    FX_UNITS, KNOBS_PER_UNIT,
};
use vstd::prelude::*;

verus! {

/// The segments of `s` between occurrences of `sep`, in order.  There is
/// always at least one, and a segment may be empty.
pub open spec fn split(s: Seq<char>, sep: char) -> Seq<Seq<char>>
    decreases s.len(),
{
    if s.len() == 0 {
        seq![Seq::empty()]
    } else {
        let before = split(s.drop_last(), sep);
        if s.last() == sep {
            before.push(Seq::empty())
        } else {
            before.drop_last().push(before.last().push(s.last()))
        }
    }
}

/// How often `sep` occurs in `s`.
pub open spec fn count(s: Seq<char>, sep: char) -> nat
    decreases s.len(),
{
    if s.len() == 0 {
        0
    } else {
        count(s.drop_last(), sep) + if s.last() == sep {
            1nat
        } else {
            0nat
        }
    }
}

/// `parts` put together again, with `sep` between any two of them.
pub open spec fn joined(parts: Seq<Seq<char>>, sep: char) -> Seq<char>
    decreases parts.len(),
{
    if parts.len() == 0 {
        Seq::empty()
    } else if parts.len() == 1 {
        parts[0]
    } else {
        joined(parts.drop_last(), sep).push(sep) + parts.last()
    }
}

/// A string has one segment more than it has separators, no segment holds a
/// separator, and the segments joined by the separator are the string.
pub proof fn lemma_split(s: Seq<char>, sep: char)
    ensures
        split(s, sep).len() == count(s, sep) + 1,
        forall|i: int, j: int|
            0 <= i < split(s, sep).len() && 0 <= j < split(s, sep)[i].len() ==> split(
                s,
                sep,
            )[i][j] != sep,
        joined(split(s, sep), sep) == s,
    decreases s.len(),
{
    if s.len() == 0 {
        assert(joined(split(s, sep), sep) =~= s);
    } else {
        let head = s.drop_last();
        let before = split(head, sep);
        lemma_split(head, sep);
        let parts = split(s, sep);
        if s.last() == sep {
            assert(parts.drop_last() =~= before);
            assert(joined(parts, sep) =~= s);
        } else {
            let grown = before.last().push(s.last());
            assert(parts.last() == grown);
            if before.len() == 1 {
                assert(joined(parts, sep) =~= s);
            } else {
                assert(parts.drop_last() =~= before.drop_last());
                assert(joined(before, sep) == joined(before.drop_last(), sep).push(sep)
                    + before.last());
                assert(joined(parts, sep) =~= joined(before, sep).push(s.last()));
                assert(joined(parts, sep) =~= s);
            }
        }
    }
}

/// Whether `c` is one of the digits 0 to 9.
pub open spec fn is_digit(c: char) -> bool {
    '0' <= c <= '9'
}

/// The number that a string of digits spells in base ten.
pub open spec fn decimal(digits: Seq<char>) -> nat
    decreases digits.len(),
{
    if digits.len() == 0 {
        0
    } else {
        (decimal(digits.drop_last()) * 10 + (digits.last() as u32 - '0' as u32)) as nat
    }
}

/// Whether every character of `s` is a digit.
pub open spec fn all_digits(s: Seq<char>) -> bool {
    forall|i: int| 0 <= i < s.len() ==> is_digit(#[trigger] s[i])
}

/// `s` without the `+` that it may start with.
pub open spec fn without_sign(s: Seq<char>) -> Seq<char> {
    if s.len() > 0 && s[0] == '+' {
        s.subrange(1, s.len() as int)
    } else {
        s
    }
}

/// The byte that `s` spells: an optional `+`, then one or more digits whose
/// number is at most 255.  Anything else spells nothing.
pub open spec fn parsed_u8(s: Seq<char>) -> Option<u8> {
    let digits = without_sign(s);
    if digits.len() > 0 && all_digits(digits) && decimal(digits) <= 255 {
        Some(decimal(digits) as u8)
    } else {
        None
    }
}

/// The position in a path of the segment that holds the knob's number.
pub const SLOT_SEGMENT: usize = 5;

/// The knob that a path names: its sixth segment read as a byte.  A path
/// with fewer segments, or with a sixth segment that spells no byte, names no
/// knob.
pub open spec fn slot_of_path(path: Seq<char>) -> Option<u8> {
    let parts = split(path, '.');
    if parts.len() > SLOT_SEGMENT {
        parsed_u8(parts[SLOT_SEGMENT as int])
    } else {
        None
    }
}

/// The texts of a sequence of character vectors.
pub open spec fn part_views(parts: Seq<Vec<char>>) -> Seq<Seq<char>> {
    Seq::new(parts.len(), |i: int| parts[i]@)
}

/// A number spelled by digits does not shrink when digits are appended.
proof fn lemma_decimal_grows(digits: Seq<char>, k: int)
    requires
        all_digits(digits),
        0 <= k <= digits.len(),
    ensures
        decimal(digits.take(k)) <= decimal(digits),
    decreases digits.len() - k,
{
    if k == digits.len() {
        assert(digits.take(k) =~= digits);
    } else {
        lemma_decimal_grows(digits, k + 1);
        let longer = digits.take(k + 1);
        assert(longer.drop_last() =~= digits.take(k));
        assert(is_digit(digits[k]));
        assert(longer.last() == digits[k]);
    }
}

/// Splits a path at its dots.
fn split_path(path: &str) -> (parts: Vec<Vec<char>>)
    ensures
        part_views(parts@) == split(path@, '.'),
{
    let mut parts: Vec<Vec<char>> = Vec::new();
    let mut current: Vec<char> = Vec::new();
    for c in it: path.chars()
        invariant
            it.seq() == path@,
            part_views(parts@).push(current@) == split(path@.take(it.index() as int), '.'),
    {
        proof {
            let i = it.index() as int;
            let longer = path@.take(i + 1);
            assert(longer.drop_last() =~= path@.take(i));
            assert(longer.last() == c);
        }
        let ghost before = part_views(parts@).push(current@);
        if c == '.' {
            parts.push(current);
            current = Vec::new();
            assert(part_views(parts@).push(current@) =~= before.push(Seq::empty()));
        } else {
            current.push(c);
            assert(part_views(parts@).push(current@) =~= before.drop_last().push(
                before.last().push(c),
            ));
        }
    }
    assert(path@.take(path@.len() as int) =~= path@);
    let ghost before = part_views(parts@).push(current@);
    parts.push(current);
    assert(part_views(parts@) =~= before);
    parts
}

/// Reads a byte from its decimal spelling.
fn parse_u8(s: &Vec<char>) -> (number: Option<u8>)
    ensures
        number == parsed_u8(s@),
{
    let n = s.len();
    let start: usize = if n > 0 && s[0] == '+' {
        1
    } else {
        0
    };
    let ghost digits = without_sign(s@);
    assert(digits =~= s@.subrange(start as int, n as int));
    if start == n {
        return None;
    }
    let mut acc: u32 = 0;
    let mut i: usize = start;
    while i < n
        invariant
            n == s@.len(),
            start <= i <= n,
            digits == without_sign(s@),
            digits == s@.subrange(start as int, n as int),
            all_digits(digits.take(i - start)),
            acc == decimal(digits.take(i - start)),
            acc <= 255,
        decreases n - i,
    {
        let c = s[i];
        let ghost k = i - start;
        proof {
            assert(digits[k] == c);
            assert(digits.take(k + 1).drop_last() =~= digits.take(k));
            assert(digits.take(k + 1).last() == c);
        }
        if c < '0' || c > '9' {
            assert(!is_digit(digits[k]));
            return None;
        }
        acc = acc * 10 + (c as u32 - '0' as u32);
        assert(all_digits(digits.take(k + 1))) by {
            assert forall|j: int| 0 <= j < k + 1 implies is_digit(
                #[trigger] digits.take(k + 1)[j],
            ) by {
                if j < k {
                    assert(digits.take(k)[j] == digits.take(k + 1)[j]);
                }
            }
        }
        if acc > 255 {
            proof {
                if all_digits(digits) {
                    lemma_decimal_grows(digits, k + 1);
                }
            }
            return None;
        }
        i += 1;
    }
    assert(digits.take(n - start) =~= digits);
    Some(acc as u8)
}

/// The knob that an effect event's path names, if it names one.
pub fn fx_id_from_traktor_path(path: &str) -> (slot: Option<u8>)
    ensures
        slot == slot_of_path(path@),
{
    let parts = split_path(path);
    if parts.len() > SLOT_SEGMENT {
        assert(part_views(parts@)[SLOT_SEGMENT as int] == parts@[SLOT_SEGMENT as int]@);
        parse_u8(&parts[SLOT_SEGMENT])
    } else {
        None
    }
}

/// What an effect event carries when its value is a number.
#[derive(Debug, PartialEq, Eq)]
pub struct FxEventJsonParam {
    pub path: String,
    /// The bits of a double.
    pub value: u64,
    pub description: String,
}

/// A numeric effect payload as a mathematical value.
pub struct FxParamView {
    pub path: Seq<char>,
    pub value: u64,
    pub description: Seq<char>,
}

impl View for FxEventJsonParam {
    type V = FxParamView;

    open spec fn view(&self) -> FxParamView {
        FxParamView { path: self.path@, value: self.value, description: self.description@ }
    }
}

/// What an effect event carries when its value is a text.
#[derive(Debug, PartialEq, Eq)]
pub struct FxEventJsonName {
    pub path: String,
    pub value: String,
    pub description: String,
}

/// A textual effect payload as a mathematical value.
pub struct FxNameView {
    pub path: Seq<char>,
    pub value: Seq<char>,
    pub description: Seq<char>,
}

impl View for FxEventJsonName {
    type V = FxNameView;

    open spec fn view(&self) -> FxNameView {
        FxNameView { path: self.path@, value: self.value@, description: self.description@ }
    }
}

/// An event of an effect unit, one kind for each control.
#[derive(Debug, PartialEq, Eq)]
pub enum FxEvent {
    /// The unit was set up differently; the description names the new type.
    Type(FxEventJsonParam),
    /// Another effect was chosen for a knob; the description names it.
    Select(FxEventJsonParam),
    /// The dry/wet knob moved.
    DryWet(FxEventJsonParam),
    /// An effect knob moved.
    Knob(FxEventJsonParam),
    /// A knob's parameter was renamed; the value is the new name.
    Name(FxEventJsonName),
    /// A parameter changed.
    Param(FxEventJsonParam),
}

/// An effect event as a mathematical value.
pub enum FxEventView {
    Type(FxParamView),
    Select(FxParamView),
    DryWet(FxParamView),
    Knob(FxParamView),
    Name(FxNameView),
    Param(FxParamView),
}

impl View for FxEvent {
    type V = FxEventView;

    open spec fn view(&self) -> FxEventView {
        match *self {
            FxEvent::Type(e) => FxEventView::Type(e@),
            FxEvent::Select(e) => FxEventView::Select(e@),
            FxEvent::DryWet(e) => FxEventView::DryWet(e@),
            FxEvent::Knob(e) => FxEventView::Knob(e@),
            FxEvent::Name(e) => FxEventView::Name(e@),
            FxEvent::Param(e) => FxEventView::Param(e@),
        }
    }
}

/// What an effect event changes: the unit's type, or fields of one knob.  A
/// field that is `None` is left as it is.
#[derive(Debug, PartialEq, Eq)]
pub struct FxChangeEvent {
    pub fx_type: Option<String>,
    /// The knob that `value`, `value_description` and `name` are for.
    pub fx_id: Option<u8>,
    pub value: Option<u64>,
    pub value_description: Option<String>,
    pub name: Option<String>,
}

/// A change as a mathematical value.
pub struct FxChangeView {
    pub fx_type: Option<Seq<char>>,
    pub fx_id: Option<u8>,
    pub value: Option<u64>,
    pub value_description: Option<Seq<char>>,
    pub name: Option<Seq<char>>,
}

impl FxChangeView {
    /// The change that changes nothing.
    pub open spec fn nothing() -> FxChangeView {
        FxChangeView {
            fx_type: None,
            fx_id: None,
            value: None,
            value_description: None,
            name: None,
        }
    }
}

impl View for FxChangeEvent {
    type V = FxChangeView;

    open spec fn view(&self) -> FxChangeView {
        FxChangeView {
            fx_type: text_of(self.fx_type),
            fx_id: self.fx_id,
            value: self.value,
            value_description: text_of(self.value_description),
            name: text_of(self.name),
        }
    }
}

impl Default for FxChangeEvent {
    fn default() -> (change: Self)
        ensures
            change@ == FxChangeView::nothing(),
    {
        FxChangeEvent {
            fx_type: None,
            fx_id: None,
            value: None,
            value_description: None,
            name: None,
        }
    }
}

/// The label of the dry/wet knob.
pub open spec fn dry_wet_label() -> Seq<char> {
    "D/W"@
}

/// What an event changes.
///
/// | event  | unit type   | knob      | value | description | name        |
/// |--------|-------------|-----------|-------|-------------|-------------|
/// | Type   | description |           |       |             |             |
/// | Select |             | from path |       |             | description |
/// | DryWet |             | 0         | value | description | `D/W`       |
/// | Knob   |             | from path | value |             |             |
/// | Name   |             | from path |       |             | value       |
/// | Param  |             | from path | value |             |             |
pub open spec fn staged(event: FxEventView) -> FxChangeView {
    match event {
        FxEventView::Type(e) => FxChangeView {
            fx_type: Some(e.description),
            ..FxChangeView::nothing()
        },
        FxEventView::Select(e) => FxChangeView {
            fx_id: slot_of_path(e.path),
            name: Some(e.description),
            ..FxChangeView::nothing()
        },
        FxEventView::DryWet(e) => FxChangeView {
            fx_id: Some(0u8),
            value: Some(e.value),
            value_description: Some(e.description),
            name: Some(dry_wet_label()),
            ..FxChangeView::nothing()
        },
        FxEventView::Knob(e) => FxChangeView {
            fx_id: slot_of_path(e.path),
            value: Some(e.value),
            ..FxChangeView::nothing()
        },
        FxEventView::Name(e) => FxChangeView {
            fx_id: slot_of_path(e.path),
            name: Some(e.value),
            ..FxChangeView::nothing()
        },
        FxEventView::Param(e) => FxChangeView {
            fx_id: slot_of_path(e.path),
            value: Some(e.value),
            ..FxChangeView::nothing()
        },
    }
}

/// Whether a change can be made to unit `fx_unit_id`, counted from 1: the
/// unit exists, and so does the knob if the change names one.
pub open spec fn in_range(fx_unit_id: int, change: FxChangeView) -> bool {
    &&& 1 <= fx_unit_id <= FX_UNITS
    &&& match change.fx_id {
        Some(slot) => slot < KNOBS_PER_UNIT,
        None => true,
    }
}

/// The state after a change to unit `fx_unit_id`, counted from 1.  The
/// unit's type is set if the change names one; the fields of a knob are set
/// only if the change names the knob.
pub open spec fn after_fx_change(state: TraktorStateView, fx_unit_id: int, change: FxChangeView)
    -> TraktorStateView {
    let typed = match change.fx_type {
        Some(description) => state.with_unit_type(fx_unit_id - 1, FxUnitType::named(description)),
        None => state,
    };
    match change.fx_id {
        Some(slot) => typed.with_knob_patched(
            fx_unit_id - 1,
            slot as int,
            change.value,
            change.value_description,
            change.name,
        ),
        None => typed,
    }
}

/// The state after an effect event for unit `fx_unit_id`, counted from 1.
pub open spec fn after_fx_event(state: TraktorStateView, fx_unit_id: int, event: FxEventView)
    -> TraktorStateView {
    after_fx_change(state, fx_unit_id, staged(event))
}

/// Works out what an event changes.
pub fn stage_fx_event(event: FxEvent) -> (change: FxChangeEvent)
    ensures
        change@ == staged(event@),
{
    match event {
        FxEvent::Type(e) => FxChangeEvent {
            fx_type: Some(e.description),
            fx_id: None,
            value: None,
            value_description: None,
            name: None,
        },
        FxEvent::Select(e) => FxChangeEvent {
            fx_type: None,
            fx_id: fx_id_from_traktor_path(e.path.as_str()),
            value: None,
            value_description: None,
            name: Some(e.description),
        },
        FxEvent::DryWet(e) => FxChangeEvent {
            fx_type: None,
            fx_id: Some(0),
            value: Some(e.value),
            value_description: Some(e.description),
            name: Some("D/W".to_owned()),
        },
        FxEvent::Knob(e) => FxChangeEvent {
            fx_type: None,
            fx_id: fx_id_from_traktor_path(e.path.as_str()),
            value: Some(e.value),
            value_description: None,
            name: None,
        },
        FxEvent::Name(e) => FxChangeEvent {
            fx_type: None,
            fx_id: fx_id_from_traktor_path(e.path.as_str()),
            value: None,
            value_description: None,
            name: Some(e.value),
        },
        FxEvent::Param(e) => FxChangeEvent {
            fx_type: None,
            fx_id: fx_id_from_traktor_path(e.path.as_str()),
            value: Some(e.value),
            value_description: None,
            name: None,
        },
    }
}

/// Whether a change can be made to unit `fx_unit_id`, counted from 1.
pub fn fx_change_in_range(fx_unit_id: usize, change: &FxChangeEvent) -> (ok: bool)
    ensures
        ok == in_range(fx_unit_id as int, change@),
{
    1 <= fx_unit_id && fx_unit_id <= FX_UNITS && match change.fx_id {
        Some(slot) => (slot as usize) < KNOBS_PER_UNIT,
        None => true,
    }
}

/// Makes a change to unit `fx_unit_id`, counted from 1.
pub fn apply_fx_change(state: &mut TraktorState, fx_unit_id: usize, change: FxChangeEvent)
    requires
        in_range(fx_unit_id as int, change@),
    ensures
        final(state)@ == after_fx_change(old(state)@, fx_unit_id as int, change@),
        final(state)@.wf(),
{
    proof {
        use_type_invariant(&*state);
    }
    let unit = fx_unit_id - 1;
    let FxChangeEvent { fx_type, fx_id, value, value_description, name } = change;
    if let Some(fx_type) = fx_type {
        state.set_unit_type(unit, FxUnitType::from_description(fx_type.as_str()));
    }
    if let Some(fx_id) = fx_id {
        state.patch_knob(unit, fx_id as usize, value, value_description, name);
    }
}

/// Takes in an effect event for unit `fx_unit_id`, counted from 1.
pub fn receive_fx_event(state: &mut TraktorState, fx_unit_id: usize, event: FxEvent)
    requires
        in_range(fx_unit_id as int, staged(event@)),
    ensures
        final(state)@ == after_fx_event(old(state)@, fx_unit_id as int, event@),
        final(state)@.wf(),
{
    let change = stage_fx_event(event);
    apply_fx_change(state, fx_unit_id, change);
}

/// A track as the mixer announces it when it is loaded on a deck.
#[derive(Debug, PartialEq, Eq)]
pub struct DeckLoaded {
    pub file_path: String,
    pub title: String,
    pub artist: String,
    pub album: String,
    pub genre: String,
    pub label: String,
    pub key: String,
    /// The key after pitch and key lock.
    pub resulting_key: String,
    /// Seconds, as the bits of a double.
    pub track_length: u64,
}

impl View for DeckLoaded {
    type V = DeckContentView;

    /// The track that the event announces.
    open spec fn view(&self) -> DeckContentView {
        DeckContentView {
            title: self.title@,
            file_path: self.file_path@,
            artist: self.artist@,
            album: self.album@,
            genre: self.genre@,
            label: self.label@,
            key: self.key@,
            resulting_key: self.resulting_key@,
            length: self.track_length,
        }
    }
}

impl From<DeckLoaded> for DeckContent {
    /// The track that the event announces, field by field.
    fn from(event: DeckLoaded) -> (content: DeckContent)
        ensures
            content@ == event@,
    {
        DeckContent {
            title: event.title,
            file_path: event.file_path,
            artist: event.artist,
            album: event.album,
            genre: event.genre,
            label: event.label,
            key: event.key,
            resulting_key: event.resulting_key,
            length: event.track_length,
        }
    }
}

impl vstd::std_specs::convert::FromSpecImpl<DeckLoaded> for DeckContent {
    open spec fn obeys_from_spec() -> bool {
        true
    }

    open spec fn from_spec(event: DeckLoaded) -> DeckContent {
        DeckContent {
            title: event.title,
            file_path: event.file_path,
            artist: event.artist,
            album: event.album,
            genre: event.genre,
            label: event.label,
            key: event.key,
            resulting_key: event.resulting_key,
            length: event.track_length,
        }
    }
}

/// What the mixer reports of a deck while a track is on it.  Times, tempo and
/// cue positions are the bits of doubles.
#[derive(Debug, PartialEq, Eq)]
pub enum DeckUpdate {
    IsPlaying { is_playing: bool, elapsed_time: u64, next_cue_pos: u64 },
    IsSynced { is_synced: bool },
    IsKeyLockOn { is_key_lock_on: bool },
    Tempo { tempo: u64 },
    ResultingKey { resulting_key: String },
    ElapsedTime { elapsed_time: u64, next_cue_pos: u64 },
}

impl DeckUpdate {
    /// The resulting key that the update carries, if it is of that kind.
    pub open spec fn new_resulting_key(self) -> Option<Seq<char>> {
        match self {
            DeckUpdate::ResultingKey { resulting_key } => Some(resulting_key@),
            _ => None,
        }
    }
}

/// The deck that a route parameter names: the one that its first character
/// names, in either case.  An empty parameter, or one that starts with any
/// other character, names no deck.
pub open spec fn deck_of_route(deck_id: Seq<char>) -> Option<DeckID> {
    if deck_id.len() > 0 {
        DeckID::named(deck_id[0])
    } else {
        None
    }
}

/// The state after a track is announced for the deck that `deck_id` names:
/// the track replaces that deck's content.  Where `deck_id` names no deck the
/// state is as before.
pub open spec fn after_deck_loaded(
    state: TraktorStateView,
    deck_id: Seq<char>,
    content: DeckContentView,
) -> TraktorStateView {
    match deck_of_route(deck_id) {
        Some(id) => state.with_deck_loaded(id, content),
        None => state,
    }
}

/// The state after an update for the deck that `deck_id` names.  Only an
/// update that carries a resulting key has an effect, and only on a deck that
/// has a track: that track gets the new resulting key.
pub open spec fn after_deck_update(
    state: TraktorStateView,
    deck_id: Seq<char>,
    resulting_key: Option<Seq<char>>,
) -> TraktorStateView {
    match (deck_of_route(deck_id), resulting_key) {
        (Some(id), Some(key)) => state.with_resulting_key(id, key),
        _ => state,
    }
}

/// Reads the deck that a route parameter names.
pub fn deck_from_route(deck_id: &str) -> (id: Option<DeckID>)
    ensures
        id == deck_of_route(deck_id@),
{
    let mut chars = deck_id.chars();
    match chars.next() {
        Some(c) => DeckID::from_char(c),
        None => None,
    }
}

/// Takes in the announcement of a track for the deck that `deck_id` names.
pub fn receive_deck_loaded_event(state: &mut TraktorState, deck_id: &str, event: DeckLoaded)
    ensures
        final(state)@ == after_deck_loaded(old(state)@, deck_id@, event@),
        final(state)@.wf(),
{
    proof {
        use_type_invariant(&*state);
    }
    let deck_id = match deck_from_route(deck_id) {
        Some(d) => d,
        None => {
            return ;
        },
    };
    state.load_deck(deck_id, DeckContent::from(event));
}

/// Takes in an update for the deck that `deck_id` names.
pub fn receive_deck_update_event(state: &mut TraktorState, deck_id: &str, event: DeckUpdate)
    ensures
        final(state)@ == after_deck_update(old(state)@, deck_id@, event.new_resulting_key()),
        final(state)@.wf(),
{
    proof {
        use_type_invariant(&*state);
    }
    let deck_id = match deck_from_route(deck_id) {
        Some(d) => d,
        None => {
            return ;
        },
    };
    match event {
        DeckUpdate::ResultingKey { resulting_key } => {
            state.set_resulting_key(deck_id, resulting_key);
        },
        _ => (),
    }
}

impl FxEventView {
    /// The path that the event carries.
    pub open spec fn path(self) -> Seq<char> {
        match self {
            FxEventView::Type(e) => e.path,
            FxEventView::Select(e) => e.path,
            FxEventView::DryWet(e) => e.path,
            FxEventView::Knob(e) => e.path,
            FxEventView::Name(e) => e.path,
            FxEventView::Param(e) => e.path,
        }
    }
}

/// An effect event whose path has fewer than six segments changes no field of
/// any knob; of the unit it changes only the type, and that only if it is a
/// type event.  The dry/wet event is left out: it is for knob 0 whatever
/// its path is.
pub proof fn lemma_short_path_changes_no_knob(
    state: TraktorStateView,
    fx_unit_id: int,
    event: FxEventView,
)
    requires
        state.wf(),
        1 <= fx_unit_id <= FX_UNITS,
        !(event is DryWet),
        split(event.path(), '.').len() < 6,
    ensures
        in_range(fx_unit_id, staged(event)),
        forall|unit: int|
            0 <= unit < FX_UNITS ==> (#[trigger] after_fx_event(
                state,
                fx_unit_id,
                event,
            ).fx_units[unit]).knobs == state.fx_units[unit].knobs,
        after_fx_event(state, fx_unit_id, event).decks == state.decks,
        after_fx_event(state, fx_unit_id, event) == match event {
            FxEventView::Type(e) => state.with_unit_type(
                fx_unit_id - 1,
                FxUnitType::named(e.description),
            ),
            _ => state,
        },
{
    assert(slot_of_path(event.path()).is_none());
}

/// The two cases of a deck's letter name the same deck, so an event for the
/// one does what the same event for the other does.
pub proof fn lemma_deck_route_ignores_case(
    state: TraktorStateView,
    lower: Seq<char>,
    upper: Seq<char>,
    content: DeckContentView,
    resulting_key: Option<Seq<char>>,
)
    requires
        lower.len() > 0,
        upper.len() > 0,
        (lower[0] == 'a' && upper[0] == 'A') || (lower[0] == 'b' && upper[0] == 'B') || (lower[0]
            == 'c' && upper[0] == 'C') || (lower[0] == 'd' && upper[0] == 'D'),
    ensures
        deck_of_route(lower) is Some,
        deck_of_route(lower) == deck_of_route(upper),
        after_deck_loaded(state, lower, content) == after_deck_loaded(state, upper, content),
        after_deck_update(state, lower, resulting_key) == after_deck_update(
            state,
            upper,
            resulting_key,
        ),
{
}

/// A deck event whose route parameter is empty, or starts with anything but
/// a deck's letter, leaves the state as it is.
pub proof fn lemma_unknown_deck_route(
    state: TraktorStateView,
    deck_id: Seq<char>,
    content: DeckContentView,
    resulting_key: Option<Seq<char>>,
)
    requires
        deck_id.len() == 0 || DeckID::named(deck_id[0]).is_none(),
    ensures
        after_deck_loaded(state, deck_id, content) == state,
        after_deck_update(state, deck_id, resulting_key) == state,
{
}

/// An update that carries a resulting key, for a deck with a track, changes
/// that track's resulting key and nothing else: not another field of the
/// track, not another deck, not an effect unit.
pub proof fn lemma_resulting_key_update(
    state: TraktorStateView,
    deck_id: Seq<char>,
    resulting_key: Seq<char>,
)
    requires
        state.wf(),
        deck_of_route(deck_id) is Some,
        state.decks[deck_of_route(deck_id).unwrap().position()].content is Some,
    ensures
        ({
            let after = after_deck_update(state, deck_id, Some(resulting_key));
            let id = deck_of_route(deck_id).unwrap();
            let was = state.decks[id.position()].content.unwrap();
            &&& after.wf()
            &&& after.fx_units == state.fx_units
            &&& forall|i: int| 0 <= i < 4 && i != id.position() ==> after.decks[i] == state.decks[i]
            &&& after.decks[id.position()].id == id
            &&& after.decks[id.position()].content == Some(
                DeckContentView {
                    title: was.title,
                    file_path: was.file_path,
                    artist: was.artist,
                    album: was.album,
                    genre: was.genre,
                    label: was.label,
                    key: was.key,
                    resulting_key: resulting_key,
                    length: was.length,
                },
            )
        }),
{
    let id = deck_of_route(deck_id).unwrap();
    assert(state.decks[id.position()].id == DeckID::at(id.position()));
    super::lemma_deck_changes_keep_wf(state, id, arbitrary(), resulting_key);
}

/// An update of any other kind, and any update for an empty deck, leaves the
/// state as it is.
pub proof fn lemma_other_updates_change_nothing(
    state: TraktorStateView,
    deck_id: Seq<char>,
    resulting_key: Option<Seq<char>>,
)
    requires
        state.wf(),
        resulting_key is None || deck_of_route(deck_id) is None || state.decks[deck_of_route(
            deck_id,
        ).unwrap().position()].content is None,
    ensures
        after_deck_update(state, deck_id, resulting_key) == state,
{
    if resulting_key is Some && deck_of_route(deck_id) is Some {
        let id = deck_of_route(deck_id).unwrap();
        let after = after_deck_update(state, deck_id, resulting_key);
        assert(after.decks =~= state.decks);
    }
}

/// No event changes the state's shape: after any effect event that is in
/// range, and after any deck event, there are still four units numbered from
/// 1 with four knobs numbered from 0, and the decks A to D in order.
pub proof fn lemma_events_keep_wf(
    state: TraktorStateView,
    fx_unit_id: int,
    event: FxEventView,
    deck_id: Seq<char>,
    content: DeckContentView,
    resulting_key: Option<Seq<char>>,
)
    requires
        state.wf(),
    ensures
        in_range(fx_unit_id, staged(event)) ==> after_fx_event(state, fx_unit_id, event).wf(),
        after_deck_loaded(state, deck_id, content).wf(),
        after_deck_update(state, deck_id, resulting_key).wf(),
{
    if in_range(fx_unit_id, staged(event)) {
        let change = staged(event);
        let unit = fx_unit_id - 1;
        let typed = match change.fx_type {
            Some(description) => state.with_unit_type(unit, FxUnitType::named(description)),
            None => state,
        };
        if let Some(description) = change.fx_type {
            super::lemma_unit_type_keeps_wf(state, unit, FxUnitType::named(description));
        }
        if let Some(slot) = change.fx_id {
            super::lemma_knob_patch_keeps_wf(
                typed,
                unit,
                slot as int,
                change.value,
                change.value_description,
                change.name,
            );
        }
    }
    if let Some(id) = deck_of_route(deck_id) {
        super::lemma_deck_changes_keep_wf(state, id, content, Seq::empty());
        if let Some(key) = resulting_key {
            super::lemma_deck_changes_keep_wf(state, id, content, key);
        }
    }
}

} // verus!
