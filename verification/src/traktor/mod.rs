//! The mixer's state: four effect units of four knobs each, and four decks.
//!
//! [`TraktorState`] is the one value that the event handlers in [`services`]
//! change and that the renderer reads.  Its shape never changes: unit `i` of
//! the sequence has id `i + 1`, knob `j` of a unit has id `j`, and the decks
//! are A, B, C, D in that order.  Only fields of these entries change.
//!
//! A knob's value and a track's length are IEEE 754 doubles on the wire.  This
//! crate stores and hands them on and never computes with them, so it carries
//! each as the 64 bits of the double.

use vstd::prelude::*;

pub mod services;

verus! {

/// The bits of the double 0.5: where every knob starts.
pub const DEFAULT_KNOB_VALUE: u64 = 0x3fe0_0000_0000_0000;

/// Effect units of the mixer.
pub const FX_UNITS: usize = 4;

/// Knobs of an effect unit: dry/wet first, then three effect knobs.
pub const KNOBS_PER_UNIT: usize = 4;

/// `text` as an owned string.
fn owned(text: &str) -> (s: String)
    ensures
        s@ == text@,
{
    text.to_owned()
}

/// The text of an optional string.
pub open spec fn text_of(s: Option<String>) -> Option<Seq<char>> {
    match s {
        Some(s) => Some(s@),
        None => None,
    }
}

/// How an effect unit is set up.
#[derive(Clone, Copy, Debug, PartialEq, Eq, Structural)]
pub enum FxUnitType {
    Group,
    Single,
    UNK,
}

impl FxUnitType {
    /// The unit type that the mixer's description names: `Group`, `Single`,
    /// or unknown for any other text.
    pub open spec fn named(description: Seq<char>) -> FxUnitType {
        if description == "Group"@ {
            FxUnitType::Group
        } else if description == "Single"@ {
            FxUnitType::Single
        } else {
            FxUnitType::UNK
        }
    }

    /// Reads a unit type from the mixer's description of it.
    pub fn from_description(description: &str) -> (unit_type: FxUnitType)
        ensures
            unit_type == Self::named(description@),
    {
        let description = owned(description);
        if description == owned("Group") {
            FxUnitType::Group
        } else if description == owned("Single") {
            FxUnitType::Single
        } else {
            FxUnitType::UNK
        }
    }
}

/// One knob of an effect unit.
#[derive(Debug, PartialEq, Eq)]
pub struct Knob {
    /// 0 for dry/wet, 1 to 3 for the effect knobs.
    pub id: u8,
    /// The knob's position, as the bits of a double.
    pub value: u64,
    /// The position as the mixer words it.
    pub value_description: String,
    /// The effect that the knob controls.
    pub fx_name: String,
}

/// A knob as a mathematical value.
pub struct KnobView {
    pub id: u8,
    pub value: u64,
    pub value_description: Seq<char>,
    pub fx_name: Seq<char>,
}

impl KnobView {
    /// A knob as it is before any event: at 0.5, with `UNK` for both texts.
    pub open spec fn initial(id: u8) -> KnobView {
        KnobView { id, value: DEFAULT_KNOB_VALUE, value_description: "UNK"@, fx_name: "UNK"@ }
    }

    /// This knob with each given field replaced and the others kept.
    pub open spec fn patched(
        self,
        value: Option<u64>,
        value_description: Option<Seq<char>>,
        fx_name: Option<Seq<char>>,
    ) -> KnobView {
        KnobView {
            id: self.id,
            value: match value {
                Some(v) => v,
                None => self.value,
            },
            value_description: match value_description {
                Some(d) => d,
                None => self.value_description,
            },
            fx_name: match fx_name {
                Some(n) => n,
                None => self.fx_name,
            },
        }
    }
}

impl View for Knob {
    type V = KnobView;

    open spec fn view(&self) -> KnobView {
        KnobView {
            id: self.id,
            value: self.value,
            value_description: self.value_description@,
            fx_name: self.fx_name@,
        }
    }
}

impl Clone for Knob {
    fn clone(&self) -> (copy: Self)
        ensures
            copy@ == self@,
    {
        Knob {
            id: self.id,
            value: self.value,
            value_description: self.value_description.clone(),
            fx_name: self.fx_name.clone(),
        }
    }
}

impl Knob {
    /// A knob as it is before any event.
    pub fn new(id: u8) -> (knob: Knob)
        ensures
            knob@ == KnobView::initial(id),
    {
        Knob {
            id,
            value: DEFAULT_KNOB_VALUE,
            value_description: owned("UNK"),
            fx_name: owned("UNK"),
        }
    }
}

/// The knobs of a sequence as mathematical values.
pub open spec fn knob_views(knobs: Seq<Knob>) -> Seq<KnobView> {
    Seq::new(knobs.len(), |i: int| knobs[i]@)
}

/// Replaces the given fields of knob `slot` and keeps everything else.
fn patch_knob_at(
    knobs: &mut Vec<Knob>,
    slot: usize,
    value: Option<u64>,
    value_description: Option<String>,
    fx_name: Option<String>,
)
    requires
        slot < old(knobs)@.len(),
    ensures
        knob_views(final(knobs)@) == knob_views(old(knobs)@).update(
            slot as int,
            old(knobs)@[slot as int]@.patched(value, text_of(value_description), text_of(fx_name)),
        ),
    no_unwind
{
    let knob = &mut knobs[slot];
    if let Some(v) = value {
        knob.value = v;
    }
    if let Some(d) = value_description {
        knob.value_description = d;
    }
    if let Some(n) = fx_name {
        knob.fx_name = n;
    }
    assert(knob_views(knobs@) =~= knob_views(old(knobs)@).update(
        slot as int,
        old(knobs)@[slot as int]@.patched(value, text_of(value_description), text_of(fx_name)),
    ));
}

/// One effect unit.
#[derive(Debug, PartialEq, Eq)]
pub struct FXUnit {
    // The mixer's number for the unit, from 1.
    id: u8,
    unit_type: FxUnitType,
    // Dry/wet first, then the three effect knobs.
    knobs: Vec<Knob>,
}

/// An effect unit as a mathematical value.
pub struct FXUnitView {
    pub id: u8,
    pub unit_type: FxUnitType,
    pub knobs: Seq<KnobView>,
}

impl FXUnitView {
    /// A unit has four knobs, and knob `j` has id `j`.
    pub open spec fn wf(self) -> bool {
        &&& self.knobs.len() == KNOBS_PER_UNIT
        &&& forall|j: int| 0 <= j < KNOBS_PER_UNIT ==> (#[trigger] self.knobs[j]).id == j
    }

    /// A unit as it is before any event: of unknown type, every knob initial.
    pub open spec fn initial(id: u8) -> FXUnitView {
        FXUnitView {
            id,
            unit_type: FxUnitType::UNK,
            knobs: Seq::new(KNOBS_PER_UNIT as nat, |j: int| KnobView::initial(j as u8)),
        }
    }

    /// This unit with another type.
    pub open spec fn with_type(self, unit_type: FxUnitType) -> FXUnitView {
        FXUnitView { unit_type, ..self }
    }

    /// This unit with the given fields of knob `slot` replaced.
    pub open spec fn with_knob_patched(
        self,
        slot: int,
        value: Option<u64>,
        value_description: Option<Seq<char>>,
        fx_name: Option<Seq<char>>,
    ) -> FXUnitView {
        FXUnitView {
            knobs: self.knobs.update(
                slot,
                self.knobs[slot].patched(value, value_description, fx_name),
            ),
            ..self
        }
    }
}

impl View for FXUnit {
    type V = FXUnitView;

    closed spec fn view(&self) -> FXUnitView {
        FXUnitView { id: self.id, unit_type: self.unit_type, knobs: knob_views(self.knobs@) }
    }
}

impl Clone for FXUnit {
    fn clone(&self) -> (copy: Self)
        ensures
            copy@ == self@,
    {
        proof {
            use_type_invariant(self);
        }
        let mut knobs: Vec<Knob> = Vec::new();
        let mut j: usize = 0;
        while j < self.knobs.len()
            invariant
                j <= self.knobs@.len(),
                knobs@.len() == j,
                forall|k: int| 0 <= k < j ==> (#[trigger] knobs@[k])@ == self.knobs@[k]@,
            decreases self.knobs@.len() - j,
        {
            knobs.push(self.knobs[j].clone());
            j += 1;
        }
        assert(knob_views(knobs@) =~= knob_views(self.knobs@));
        FXUnit { id: self.id, unit_type: self.unit_type, knobs }
    }
}

impl FXUnit {
    #[verifier::type_invariant]
    spec fn well_formed(&self) -> bool {
        self@.wf()
    }

    /// A unit with the given id as it is before any event.
    pub fn new(id: u8) -> (unit: Self)
        ensures
            unit@ == FXUnitView::initial(id),
    {
        let mut knobs: Vec<Knob> = Vec::new();
        let mut j: u8 = 0;
        while j < 4
            invariant
                j <= 4,
                knobs@.len() == j,
                forall|k: int| 0 <= k < j ==> (#[trigger] knobs@[k])@ == KnobView::initial(k as u8),
            decreases 4 - j,
        {
            knobs.push(Knob::new(j));
            j += 1;
        }
        assert(knob_views(knobs@) =~= FXUnitView::initial(id).knobs);
        Self { id, knobs, unit_type: FxUnitType::UNK }
    }

    /// The mixer's number for the unit.
    pub fn id(&self) -> (id: u8)
        ensures
            id == self@.id,
    {
        self.id
    }

    /// How the unit is set up.
    pub fn unit_type(&self) -> (unit_type: FxUnitType)
        ensures
            unit_type == self@.unit_type,
    {
        self.unit_type
    }

    /// The unit's four knobs, dry/wet first.
    pub fn knobs(&self) -> (knobs: &Vec<Knob>)
        ensures
            knob_views(knobs@) == self@.knobs,
            self@.wf(),
    {
        proof {
            use_type_invariant(self);
        }
        &self.knobs
    }

    /// Sets how the unit is set up.
    pub fn set_unit_type(&mut self, unit_type: FxUnitType)
        ensures
            final(self)@ == old(self)@.with_type(unit_type),
        no_unwind
    {
        proof {
            use_type_invariant(&*self);
        }
        self.unit_type = unit_type;
    }

    /// Replaces the given fields of knob `slot`; a field that is `None` keeps
    /// its value.
    pub fn patch_knob(
        &mut self,
        slot: usize,
        value: Option<u64>,
        value_description: Option<String>,
        fx_name: Option<String>,
    )
        requires
            slot < KNOBS_PER_UNIT,
        ensures
            final(self)@ == old(self)@.with_knob_patched(
                slot as int,
                value,
                text_of(value_description),
                text_of(fx_name),
            ),
        no_unwind
    {
        proof {
            use_type_invariant(&*self);
        }
        patch_knob_at(&mut self.knobs, slot, value, value_description, fx_name);
    }
}

/// The name of a deck.
#[derive(Clone, Copy, Debug, PartialEq, Eq, Structural)]
pub enum DeckID {
    A,
    B,
    C,
    D,
}

impl DeckID {
    /// Where the deck stands among the four.
    pub open spec fn position(self) -> int {
        match self {
            DeckID::A => 0,
            DeckID::B => 1,
            DeckID::C => 2,
            DeckID::D => 3,
        }
    }

    /// The deck at a position; D from 3 on.
    pub open spec fn at(position: int) -> DeckID {
        if position <= 0 {
            DeckID::A
        } else if position == 1 {
            DeckID::B
        } else if position == 2 {
            DeckID::C
        } else {
            DeckID::D
        }
    }

    /// The deck that a letter names, in either case.
    pub open spec fn named(c: char) -> Option<DeckID> {
        if c == 'a' || c == 'A' {
            Some(DeckID::A)
        } else if c == 'b' || c == 'B' {
            Some(DeckID::B)
        } else if c == 'c' || c == 'C' {
            Some(DeckID::C)
        } else if c == 'd' || c == 'D' {
            Some(DeckID::D)
        } else {
            None
        }
    }

    /// The four decks in order.
    pub fn iter() -> (ids: [DeckID; 4])
        ensures
            forall|i: int| 0 <= i < 4 ==> #[trigger] ids@[i] == DeckID::at(i),
    {
        [DeckID::A, DeckID::B, DeckID::C, DeckID::D]
    }

    /// The deck that a letter names, in either case; `None` for any other
    /// character.
    pub fn from_char(c: char) -> (id: Option<DeckID>)
        ensures
            id == DeckID::named(c),
    {
        match c {
            'a' | 'A' => Some(DeckID::A),
            'b' | 'B' => Some(DeckID::B),
            'c' | 'C' => Some(DeckID::C),
            'd' | 'D' => Some(DeckID::D),
            _ => None,
        }
    }
}

/// The track on a deck.
#[derive(Debug, PartialEq, Eq)]
pub struct DeckContent {
    pub title: String,
    pub file_path: String,
    pub artist: String,
    pub album: String,
    pub genre: String,
    pub label: String,
    pub key: String,
    /// The key after pitch and key lock; the one field that changes while
    /// the track stays loaded.
    pub resulting_key: String,
    /// Seconds, as the bits of a double.
    pub length: u64,
}

/// A track as a mathematical value.
pub struct DeckContentView {
    pub title: Seq<char>,
    pub file_path: Seq<char>,
    pub artist: Seq<char>,
    pub album: Seq<char>,
    pub genre: Seq<char>,
    pub label: Seq<char>,
    pub key: Seq<char>,
    pub resulting_key: Seq<char>,
    pub length: u64,
}

impl DeckContentView {
    /// This track with another resulting key.
    pub open spec fn with_resulting_key(self, resulting_key: Seq<char>) -> DeckContentView {
        DeckContentView { resulting_key, ..self }
    }
}

impl View for DeckContent {
    type V = DeckContentView;

    open spec fn view(&self) -> DeckContentView {
        DeckContentView {
            title: self.title@,
            file_path: self.file_path@,
            artist: self.artist@,
            album: self.album@,
            genre: self.genre@,
            label: self.label@,
            key: self.key@,
            resulting_key: self.resulting_key@,
            length: self.length,
        }
    }
}

impl Clone for DeckContent {
    fn clone(&self) -> (copy: Self)
        ensures
            copy@ == self@,
    {
        DeckContent {
            title: self.title.clone(),
            file_path: self.file_path.clone(),
            artist: self.artist.clone(),
            album: self.album.clone(),
            genre: self.genre.clone(),
            label: self.label.clone(),
            key: self.key.clone(),
            resulting_key: self.resulting_key.clone(),
            length: self.length,
        }
    }
}

/// One deck of the mixer.
#[derive(Debug, PartialEq, Eq)]
pub struct Deck {
    pub id: DeckID,
    /// The loaded track; `None` until one is loaded.
    pub content: Option<DeckContent>,
}

/// A deck as a mathematical value.
pub struct DeckView {
    pub id: DeckID,
    pub content: Option<DeckContentView>,
}

impl DeckView {
    /// This deck with `content` loaded in place of whatever was there.
    pub open spec fn loaded(self, content: DeckContentView) -> DeckView {
        DeckView { id: self.id, content: Some(content) }
    }

    /// This deck with another resulting key on its track; unchanged where no
    /// track is loaded.
    pub open spec fn with_resulting_key(self, resulting_key: Seq<char>) -> DeckView {
        match self.content {
            Some(content) => DeckView {
                id: self.id,
                content: Some(content.with_resulting_key(resulting_key)),
            },
            None => self,
        }
    }
}

impl View for Deck {
    type V = DeckView;

    open spec fn view(&self) -> DeckView {
        DeckView {
            id: self.id,
            content: match self.content {
                Some(content) => Some(content@),
                None => None,
            },
        }
    }
}

impl Clone for Deck {
    fn clone(&self) -> (copy: Self)
        ensures
            copy@ == self@,
    {
        let content = match &self.content {
            Some(content) => Some(content.clone()),
            None => None,
        };
        Deck { id: self.id, content }
    }
}

/// The units of a sequence as mathematical values.
pub open spec fn unit_views(units: Seq<FXUnit>) -> Seq<FXUnitView> {
    Seq::new(units.len(), |i: int| units[i]@)
}

/// The decks of a sequence as mathematical values.
pub open spec fn deck_views(decks: Seq<Deck>) -> Seq<DeckView> {
    Seq::new(decks.len(), |i: int| decks[i]@)
}

/// The index of the first deck named `id`, if there is one.
fn deck_position(decks: &Vec<Deck>, id: DeckID) -> (found: Option<usize>)
    ensures
        match found {
            Some(i) => i < decks@.len() && decks@[i as int].id == id && forall|j: int|
                0 <= j < i ==> decks@[j].id != id,
            None => forall|j: int| 0 <= j < decks@.len() ==> decks@[j].id != id,
        },
{
    let mut i: usize = 0;
    while i < decks.len()
        invariant
            i <= decks@.len(),
            forall|j: int| 0 <= j < i ==> decks@[j].id != id,
        decreases decks@.len() - i,
    {
        if decks[i].id == id {
            return Some(i);
        }
        i += 1;
    }
    None
}

/// Sets the type of unit `unit` and keeps everything else.
fn set_unit_type_at(units: &mut Vec<FXUnit>, unit: usize, unit_type: FxUnitType)
    requires
        unit < old(units)@.len(),
    ensures
        unit_views(final(units)@) == unit_views(old(units)@).update(
            unit as int,
            old(units)@[unit as int]@.with_type(unit_type),
        ),
    no_unwind
{
    units[unit].set_unit_type(unit_type);
    assert(unit_views(units@) =~= unit_views(old(units)@).update(
        unit as int,
        old(units)@[unit as int]@.with_type(unit_type),
    ));
}

/// Replaces the given fields of knob `slot` of unit `unit` and keeps
/// everything else.
fn patch_unit_knob_at(
    units: &mut Vec<FXUnit>,
    unit: usize,
    slot: usize,
    value: Option<u64>,
    value_description: Option<String>,
    fx_name: Option<String>,
)
    requires
        unit < old(units)@.len(),
        slot < KNOBS_PER_UNIT,
    ensures
        unit_views(final(units)@) == unit_views(old(units)@).update(
            unit as int,
            old(units)@[unit as int]@.with_knob_patched(
                slot as int,
                value,
                text_of(value_description),
                text_of(fx_name),
            ),
        ),
    no_unwind
{
    units[unit].patch_knob(slot, value, value_description, fx_name);
    assert(unit_views(units@) =~= unit_views(old(units)@).update(
        unit as int,
        old(units)@[unit as int]@.with_knob_patched(
            slot as int,
            value,
            text_of(value_description),
            text_of(fx_name),
        ),
    ));
}

/// Loads `content` on the deck at `position`.
fn load_deck_at(decks: &mut Vec<Deck>, position: usize, content: DeckContent)
    requires
        position < old(decks)@.len(),
    ensures
        deck_views(final(decks)@) == deck_views(old(decks)@).update(
            position as int,
            old(decks)@[position as int]@.loaded(content@),
        ),
    no_unwind
{
    let deck = &mut decks[position];
    deck.content = Some(content);
    assert(deck_views(decks@) =~= deck_views(old(decks)@).update(
        position as int,
        old(decks)@[position as int]@.loaded(content@),
    ));
}

/// Replaces the resulting key of the track on the deck at `position`, if one
/// is loaded.
fn set_resulting_key_at(decks: &mut Vec<Deck>, position: usize, resulting_key: String)
    requires
        position < old(decks)@.len(),
    ensures
        deck_views(final(decks)@) == deck_views(old(decks)@).update(
            position as int,
            old(decks)@[position as int]@.with_resulting_key(resulting_key@),
        ),
    no_unwind
{
    let deck = &mut decks[position];
    if let Some(content) = &mut deck.content {
        content.resulting_key = resulting_key;
    }
    assert(deck_views(decks@) =~= deck_views(old(decks)@).update(
        position as int,
        old(decks)@[position as int]@.with_resulting_key(resulting_key@),
    ));
}

/// Everything that is known of the mixer.
#[derive(Debug, PartialEq, Eq)]
pub struct TraktorState {
    fx_units: Vec<FXUnit>,
    decks: Vec<Deck>,
}

/// The mixer's state as a mathematical value.
pub struct TraktorStateView {
    pub fx_units: Seq<FXUnitView>,
    pub decks: Seq<DeckView>,
}

impl TraktorStateView {
    /// There are four units and four decks; unit `i` has id `i + 1` and four
    /// knobs numbered from 0, and the decks are A, B, C, D in that order.
    pub open spec fn wf(self) -> bool {
        &&& self.fx_units.len() == FX_UNITS
        &&& forall|i: int|
            0 <= i < FX_UNITS ==> (#[trigger] self.fx_units[i]).wf() && self.fx_units[i].id == i
                + 1
        &&& self.decks.len() == 4
        &&& forall|i: int| 0 <= i < 4 ==> (#[trigger] self.decks[i]).id == DeckID::at(i)
    }

    /// The state before any event: every unit initial, every deck empty.
    pub open spec fn initial() -> TraktorStateView {
        TraktorStateView {
            fx_units: Seq::new(FX_UNITS as nat, |i: int| FXUnitView::initial((i + 1) as u8)),
            decks: Seq::new(4, |i: int| DeckView { id: DeckID::at(i), content: None }),
        }
    }

    /// This state with another type for the unit at index `unit`.
    pub open spec fn with_unit_type(self, unit: int, unit_type: FxUnitType) -> TraktorStateView {
        TraktorStateView {
            fx_units: self.fx_units.update(unit, self.fx_units[unit].with_type(unit_type)),
            ..self
        }
    }

    /// This state with the given fields replaced on knob `slot` of the unit
    /// at index `unit`.
    pub open spec fn with_knob_patched(
        self,
        unit: int,
        slot: int,
        value: Option<u64>,
        value_description: Option<Seq<char>>,
        fx_name: Option<Seq<char>>,
    ) -> TraktorStateView {
        TraktorStateView {
            fx_units: self.fx_units.update(
                unit,
                self.fx_units[unit].with_knob_patched(slot, value, value_description, fx_name),
            ),
            ..self
        }
    }

    /// This state with `content` loaded on deck `id`.
    pub open spec fn with_deck_loaded(self, id: DeckID, content: DeckContentView)
        -> TraktorStateView {
        TraktorStateView {
            decks: self.decks.update(id.position(), self.decks[id.position()].loaded(content)),
            ..self
        }
    }

    /// This state with another resulting key for the track on deck `id`;
    /// unchanged where that deck is empty.
    pub open spec fn with_resulting_key(self, id: DeckID, resulting_key: Seq<char>)
        -> TraktorStateView {
        TraktorStateView {
            decks: self.decks.update(
                id.position(),
                self.decks[id.position()].with_resulting_key(resulting_key),
            ),
            ..self
        }
    }

    /// The sixteen knobs in order: unit by unit, and within a unit by slot.
    pub open spec fn all_knobs(self) -> Seq<KnobView> {
        Seq::new(
            (FX_UNITS * KNOBS_PER_UNIT) as nat,
            |i: int| self.fx_units[i / KNOBS_PER_UNIT as int].knobs[i % KNOBS_PER_UNIT as int],
        )
    }
}

/// The initial state has the shape that every state has.
pub proof fn lemma_initial_wf()
    ensures
        TraktorStateView::initial().wf(),
{
}

/// Setting a unit's type keeps the state's shape.
pub proof fn lemma_unit_type_keeps_wf(state: TraktorStateView, unit: int, unit_type: FxUnitType)
    requires
        state.wf(),
        0 <= unit < FX_UNITS,
    ensures
        state.with_unit_type(unit, unit_type).wf(),
{
    let typed = state.with_unit_type(unit, unit_type);
    assert forall|i: int| 0 <= i < FX_UNITS implies (#[trigger] typed.fx_units[i]).wf()
        && typed.fx_units[i].id == i + 1 by {
        assert(state.fx_units[i].wf());
    }
}

/// Replacing fields of a knob keeps the state's shape: every knob keeps its
/// id.
pub proof fn lemma_knob_patch_keeps_wf(
    state: TraktorStateView,
    unit: int,
    slot: int,
    value: Option<u64>,
    value_description: Option<Seq<char>>,
    fx_name: Option<Seq<char>>,
)
    requires
        state.wf(),
        0 <= unit < FX_UNITS,
        0 <= slot < KNOBS_PER_UNIT,
    ensures
        state.with_knob_patched(unit, slot, value, value_description, fx_name).wf(),
{
    let patched = state.with_knob_patched(unit, slot, value, value_description, fx_name);
    assert forall|i: int| 0 <= i < FX_UNITS implies (#[trigger] patched.fx_units[i]).wf()
        && patched.fx_units[i].id == i + 1 by {
        assert(state.fx_units[i].wf());
        if i == unit {
            assert forall|j: int| 0 <= j < KNOBS_PER_UNIT implies (#[trigger] patched.fx_units[i]
                .knobs[j]).id == j by {
                assert(state.fx_units[i].knobs[j].id == j);
            }
        }
    }
}

/// Loading a track, and replacing a track's resulting key, keep the state's
/// shape: every deck keeps its id.
pub proof fn lemma_deck_changes_keep_wf(
    state: TraktorStateView,
    id: DeckID,
    content: DeckContentView,
    resulting_key: Seq<char>,
)
    requires
        state.wf(),
    ensures
        state.with_deck_loaded(id, content).wf(),
        state.with_resulting_key(id, resulting_key).wf(),
{
    let loaded = state.with_deck_loaded(id, content);
    assert forall|i: int| 0 <= i < 4 implies (#[trigger] loaded.decks[i]).id == DeckID::at(i) by {
        assert(state.decks[i].id == DeckID::at(i));
    }
    let keyed = state.with_resulting_key(id, resulting_key);
    assert forall|i: int| 0 <= i < 4 implies (#[trigger] keyed.decks[i]).id == DeckID::at(i) by {
        assert(state.decks[i].id == DeckID::at(i));
    }
}

impl View for TraktorState {
    type V = TraktorStateView;

    closed spec fn view(&self) -> TraktorStateView {
        TraktorStateView { fx_units: unit_views(self.fx_units@), decks: deck_views(self.decks@) }
    }
}

impl Default for TraktorState {
    /// The state before any event.
    fn default() -> (state: Self)
        ensures
            state@ == TraktorStateView::initial(),
    {
        let mut fx_units: Vec<FXUnit> = Vec::new();
        let mut i: u8 = 1;
        while i < 5
            invariant
                1 <= i <= 5,
                fx_units@.len() == i - 1,
                forall|k: int|
                    0 <= k < i - 1 ==> (#[trigger] fx_units@[k])@ == FXUnitView::initial(
                        (k + 1) as u8,
                    ),
            decreases 5 - i,
        {
            fx_units.push(FXUnit::new(i));
            i += 1;
        }
        let ids = DeckID::iter();
        let mut decks: Vec<Deck> = Vec::new();
        let mut d: usize = 0;
        while d < 4
            invariant
                d <= 4,
                decks@.len() == d,
                forall|k: int| 0 <= k < 4 ==> #[trigger] ids@[k] == DeckID::at(k),
                forall|k: int|
                    0 <= k < d ==> (#[trigger] decks@[k])@ == (DeckView {
                        id: DeckID::at(k),
                        content: None,
                    }),
            decreases 4 - d,
        {
            decks.push(Deck { id: ids[d], content: None });
            d += 1;
        }
        assert(unit_views(fx_units@) =~= TraktorStateView::initial().fx_units);
        assert(deck_views(decks@) =~= TraktorStateView::initial().decks);
        Self { fx_units, decks }
    }
}

impl Clone for TraktorState {
    /// A snapshot: a deep copy that shares nothing with the state.
    fn clone(&self) -> (copy: Self)
        ensures
            copy@ == self@,
    {
        proof {
            use_type_invariant(self);
        }
        let mut fx_units: Vec<FXUnit> = Vec::new();
        let mut i: usize = 0;
        while i < self.fx_units.len()
            invariant
                i <= self.fx_units@.len(),
                fx_units@.len() == i,
                forall|k: int| 0 <= k < i ==> (#[trigger] fx_units@[k])@ == self.fx_units@[k]@,
            decreases self.fx_units@.len() - i,
        {
            fx_units.push(self.fx_units[i].clone());
            i += 1;
        }
        let mut decks: Vec<Deck> = Vec::new();
        let mut d: usize = 0;
        while d < self.decks.len()
            invariant
                d <= self.decks@.len(),
                decks@.len() == d,
                forall|k: int| 0 <= k < d ==> (#[trigger] decks@[k])@ == self.decks@[k]@,
            decreases self.decks@.len() - d,
        {
            decks.push(self.decks[d].clone());
            d += 1;
        }
        assert(unit_views(fx_units@) =~= unit_views(self.fx_units@));
        assert(deck_views(decks@) =~= deck_views(self.decks@));
        Self { fx_units, decks }
    }
}

impl TraktorState {
    #[verifier::type_invariant]
    spec fn well_formed(&self) -> bool {
        self@.wf()
    }

    /// The four effect units, unit 1 first.
    pub fn fx_units(&self) -> (units: &Vec<FXUnit>)
        ensures
            unit_views(units@) == self@.fx_units,
            self@.wf(),
    {
        proof {
            use_type_invariant(self);
        }
        &self.fx_units
    }

    /// The four decks, A first.
    pub fn decks(&self) -> (decks: &Vec<Deck>)
        ensures
            deck_views(decks@) == self@.decks,
            self@.wf(),
    {
        proof {
            use_type_invariant(self);
        }
        &self.decks
    }

    /// Sets the type of the unit at index `unit`, counted from 0.
    pub fn set_unit_type(&mut self, unit: usize, unit_type: FxUnitType)
        requires
            unit < FX_UNITS,
        ensures
            final(self)@ == old(self)@.with_unit_type(unit as int, unit_type),
            final(self)@.wf(),
    {
        proof {
            use_type_invariant(&*self);
            lemma_unit_type_keeps_wf(self@, unit as int, unit_type);
        }
        set_unit_type_at(&mut self.fx_units, unit, unit_type);
    }

    /// Replaces the given fields of knob `slot` of the unit at index `unit`,
    /// both counted from 0; a field that is `None` keeps its value.
    pub fn patch_knob(
        &mut self,
        unit: usize,
        slot: usize,
        value: Option<u64>,
        value_description: Option<String>,
        fx_name: Option<String>,
    )
        requires
            unit < FX_UNITS,
            slot < KNOBS_PER_UNIT,
        ensures
            final(self)@ == old(self)@.with_knob_patched(
                unit as int,
                slot as int,
                value,
                text_of(value_description),
                text_of(fx_name),
            ),
            final(self)@.wf(),
    {
        proof {
            use_type_invariant(&*self);
            lemma_knob_patch_keeps_wf(
                self@,
                unit as int,
                slot as int,
                value,
                text_of(value_description),
                text_of(fx_name),
            );
        }
        patch_unit_knob_at(&mut self.fx_units, unit, slot, value, value_description, fx_name);
    }

    /// Loads a track on deck `id`, in place of whatever was loaded there.
    pub fn load_deck(&mut self, id: DeckID, content: DeckContent)
        ensures
            final(self)@ == old(self)@.with_deck_loaded(id, content@),
            final(self)@.wf(),
    {
        proof {
            use_type_invariant(&*self);
            lemma_deck_changes_keep_wf(self@, id, content@, Seq::empty());
        }
        match deck_position(&self.decks, id) {
            Some(position) => {
                assert(position == id.position()) by {
                    assert(self@.decks[position as int].id == DeckID::at(position as int));
                }
                load_deck_at(&mut self.decks, position, content);
            },
            None => {
                // Every deck is in the state: nothing comes here.
                assert(self@.decks[id.position()].id == DeckID::at(id.position()));
            },
        }
    }

    /// Replaces the resulting key of the track on deck `id`; does nothing
    /// where that deck is empty.
    pub fn set_resulting_key(&mut self, id: DeckID, resulting_key: String)
        ensures
            final(self)@ == old(self)@.with_resulting_key(id, resulting_key@),
            final(self)@.wf(),
    {
        proof {
            use_type_invariant(&*self);
            lemma_deck_changes_keep_wf(self@, id, arbitrary(), resulting_key@);
        }
        match deck_position(&self.decks, id) {
            Some(position) => {
                assert(position == id.position()) by {
                    assert(self@.decks[position as int].id == DeckID::at(position as int));
                }
                set_resulting_key_at(&mut self.decks, position, resulting_key);
            },
            None => {
                // Every deck is in the state: nothing comes here.
                assert(self@.decks[id.position()].id == DeckID::at(id.position()));
            },
        }
    }

    /// The sixteen knobs: unit by unit, and within a unit by slot.
    fn iter_all_knobs(&self) -> (knobs: Vec<&Knob>)
        ensures
            knobs@.len() == FX_UNITS * KNOBS_PER_UNIT,
            forall|i: int|
                0 <= i < FX_UNITS * KNOBS_PER_UNIT ==> (#[trigger] knobs@[i])@
                    == self@.all_knobs()[i],
    {
        proof {
            use_type_invariant(self);
        }
        let mut knobs: Vec<&Knob> = Vec::new();
        let mut unit: usize = 0;
        while unit < FX_UNITS
            invariant
                self@.wf(),
                unit <= FX_UNITS,
                knobs@.len() == unit * 4,
                forall|i: int|
                    0 <= i < unit * 4 ==> (#[trigger] knobs@[i])@ == self@.all_knobs()[i],
            decreases FX_UNITS - unit,
        {
            let of_unit = self.fx_units[unit].knobs();
            assert(self@.fx_units[unit as int].wf());
            let mut slot: usize = 0;
            while slot < KNOBS_PER_UNIT
                invariant
                    self@.wf(),
                    unit < FX_UNITS,
                    slot <= KNOBS_PER_UNIT,
                    knob_views(of_unit@) == self@.fx_units[unit as int].knobs,
                    of_unit@.len() == KNOBS_PER_UNIT,
                    knobs@.len() == unit * 4 + slot,
                    forall|i: int|
                        0 <= i < unit * 4 + slot ==> (#[trigger] knobs@[i])@
                            == self@.all_knobs()[i],
                decreases KNOBS_PER_UNIT - slot,
            {
                knobs.push(&of_unit[slot]);
                proof {
                    let i = unit * 4 + slot;
                    assert(i / 4 == unit && i % 4 == slot);
                    assert(knob_views(of_unit@)[slot as int] == of_unit@[slot as int]@);
                }
                slot += 1;
            }
            unit += 1;
        }
        knobs
    }

    /// The four decks, A first.
    pub fn iter_all_decks(&self) -> (decks: Vec<&Deck>)
        ensures
            decks@.len() == 4,
            forall|i: int| 0 <= i < 4 ==> (#[trigger] decks@[i])@ == self@.decks[i],
    {
        proof {
            use_type_invariant(self);
        }
        let mut decks: Vec<&Deck> = Vec::new();
        let mut d: usize = 0;
        while d < self.decks.len()
            invariant
                d <= self.decks@.len(),
                decks@.len() == d,
                forall|i: int| 0 <= i < d ==> (#[trigger] decks@[i])@ == self@.decks[i],
            decreases self.decks@.len() - d,
        {
            decks.push(&self.decks[d]);
            d += 1;
        }
        decks
    }

    /// The effect names of the sixteen knobs, in the knobs' order.
    pub fn iter_knob_fx_names(&self) -> (names: Vec<&String>)
        ensures
            names@.len() == FX_UNITS * KNOBS_PER_UNIT,
            forall|i: int|
                0 <= i < FX_UNITS * KNOBS_PER_UNIT ==> (#[trigger] names@[i])@
                    == self@.all_knobs()[i].fx_name,
    {
        let knobs = self.iter_all_knobs();
        let mut names: Vec<&String> = Vec::new();
        let mut i: usize = 0;
        while i < knobs.len()
            invariant
                i <= knobs@.len(),
                names@.len() == i,
                forall|k: int| 0 <= k < i ==> (#[trigger] names@[k])@ == knobs@[k]@.fx_name,
            decreases knobs@.len() - i,
        {
            names.push(&knobs[i].fx_name);
            i += 1;
        }
        names
    }

    /// The values of the sixteen knobs, in the knobs' order.
    pub fn iter_knob_values(&self) -> (values: Vec<u64>)
        ensures
            values@.len() == FX_UNITS * KNOBS_PER_UNIT,
            forall|i: int|
                0 <= i < FX_UNITS * KNOBS_PER_UNIT ==> #[trigger] values@[i]
                    == self@.all_knobs()[i].value,
    {
        let knobs = self.iter_all_knobs();
        let mut values: Vec<u64> = Vec::new();
        let mut i: usize = 0;
        while i < knobs.len()
            invariant
                i <= knobs@.len(),
                values@.len() == i,
                forall|k: int| 0 <= k < i ==> #[trigger] values@[k] == knobs@[k]@.value,
            decreases knobs@.len() - i,
        {
            values.push(knobs[i].value);
            i += 1;
        }
        values
    }

    /// What is loaded on each of the four decks, A first.
    pub fn iter_deck_content(&self) -> (contents: Vec<&Option<DeckContent>>)
        ensures
            contents@.len() == 4,
            forall|i: int|
                0 <= i < 4 ==> match *(#[trigger] contents@[i]) {
                    Some(content) => self@.decks[i].content == Some(content@),
                    None => self@.decks[i].content.is_none(),
                },
    {
        let decks = self.iter_all_decks();
        let mut contents: Vec<&Option<DeckContent>> = Vec::new();
        let mut i: usize = 0;
        while i < decks.len()
            invariant
                i <= decks@.len(),
                contents@.len() == i,
                forall|k: int| 0 <= k < i ==> *(#[trigger] contents@[k]) == decks@[k].content,
            decreases decks@.len() - i,
        {
            contents.push(&decks[i].content);
            i += 1;
        }
        assert forall|i: int| 0 <= i < 4 implies match *(#[trigger] contents@[i]) {
            Some(content) => self@.decks[i].content == Some(content@),
            None => self@.decks[i].content.is_none(),
        } by {
            assert(decks@[i]@ == self@.decks[i]);
        }
        contents
    }
}

} // verus!
