//! Plane operations on a core that runs one unit at a time.
//!
//! The units of a plane are serialised, so the values that the other units would
//! hold are read from snapshots of the buffers, taken before the first unit runs.
//! While the instructions are walked, each variable whose value can be told for
//! every lane is remembered with where it comes from.
use crate::dialect;
use crate::dialect::TtMetalDialect;
use crate::ir::{
    BarrierLevel, BarrierOp, Comparison, Instruction, Item, Op, Variable, VariableKind,
    WarpInstruction,
};
use crate::kind;
use crate::text;
use vstd::prelude::*;

verus! {

#[derive(Clone, Copy, Debug, PartialEq, Eq, Structural)]
pub enum TtWarpComparison {
    Less,
    Greater,
}

/// Where the lanes of a plane find the value of a variable.
pub enum TtWarpSource {
    Snapshot { snapshot_name: String, item: Item },
    CompareConst { snapshot_name: String, item: Item, op: TtWarpComparison, constant: String },
    UnitPos,
    UnitPosPlane,
    UnitPosLessThanConst { constant: String },
}

/// A copy of a buffer as it was before the first unit of a tile ran.
pub struct TtWarpSnapshot {
    pub snapshot_name: String,
    pub buffer_name: String,
    pub item: Item,
}

/// What is known of the variables after some instructions.
pub struct TtWarpLoweringState {
    pub aliases: Vec<(String, TtWarpSource)>,
    pub snapshots: Vec<TtWarpSnapshot>,
}

/// [`TtWarpSource`] over sequences of characters.
pub enum SourceModel {
    Snapshot { name: Seq<char>, item: Item },
    CompareConst { name: Seq<char>, item: Item, op: TtWarpComparison, constant: Seq<char> },
    UnitPos,
    UnitPosPlane,
    UnitPosLessThanConst { constant: Seq<char> },
}

/// A snapshot over sequences of characters; its name follows from the buffer's.
#[verifier::ext_equal]
pub struct SnapshotModel {
    pub buffer: Seq<char>,
    pub item: Item,
}

/// [`TtWarpLoweringState`] as a map from variable names to their sources.
#[verifier::ext_equal]
pub struct WarpModel {
    pub aliases: Map<Seq<char>, SourceModel>,
    pub snapshots: Seq<SnapshotModel>,
}

/// The name of the snapshot of a buffer.
pub open spec fn snapshot_name(buffer: Seq<char>) -> Seq<char> {
    "tt_plane_snapshot_"@ + text::sanitized(buffer)
}

impl TtWarpSource {
    pub open spec fn model(self) -> SourceModel {
        match self {
            TtWarpSource::Snapshot { snapshot_name, item } => SourceModel::Snapshot {
                name: snapshot_name@,
                item,
            },
            TtWarpSource::CompareConst { snapshot_name, item, op, constant } =>
                SourceModel::CompareConst { name: snapshot_name@, item, op, constant: constant@ },
            TtWarpSource::UnitPos => SourceModel::UnitPos,
            TtWarpSource::UnitPosPlane => SourceModel::UnitPosPlane,
            TtWarpSource::UnitPosLessThanConst { constant } => SourceModel::UnitPosLessThanConst {
                constant: constant@,
            },
        }
    }

    fn duplicate(&self) -> (copy: Self)
        ensures
            copy.model() == self.model(),
    {
        match self {
            TtWarpSource::Snapshot { snapshot_name, item } => TtWarpSource::Snapshot {
                snapshot_name: snapshot_name.clone(),
                item: *item,
            },
            TtWarpSource::CompareConst { snapshot_name, item, op, constant } =>
                TtWarpSource::CompareConst {
                snapshot_name: snapshot_name.clone(),
                item: *item,
                op: *op,
                constant: constant.clone(),
            },
            TtWarpSource::UnitPos => TtWarpSource::UnitPos,
            TtWarpSource::UnitPosPlane => TtWarpSource::UnitPosPlane,
            TtWarpSource::UnitPosLessThanConst { constant } => TtWarpSource::UnitPosLessThanConst {
                constant: constant.clone(),
            },
        }
    }
}

/// The map that a list of bindings with distinct names stands for.
pub open spec fn alias_map(aliases: Seq<(String, TtWarpSource)>) -> Map<Seq<char>, SourceModel>
    decreases aliases.len(),
{
    if aliases.len() == 0 {
        Map::empty()
    } else {
        alias_map(aliases.drop_last()).insert(aliases.last().0@, aliases.last().1.model())
    }
}

proof fn lemma_alias_found(aliases: Seq<(String, TtWarpSource)>, at: int)
    requires
        0 <= at < aliases.len(),
        forall|j: int| at < j < aliases.len() ==> (#[trigger] aliases[j]).0@ != aliases[at].0@,
    ensures
        alias_map(aliases).dom().contains(aliases[at].0@),
        alias_map(aliases)[aliases[at].0@] == aliases[at].1.model(),
    decreases aliases.len(),
{
    if at < aliases.len() - 1 {
        let before = aliases.drop_last();
        assert(aliases[aliases.len() - 1].0@ != aliases[at].0@);
        assert forall|j: int| at < j < before.len() implies (#[trigger] before[j]).0@
            != before[at].0@ by {
            assert(aliases[j].0@ != aliases[at].0@);
        }
        lemma_alias_found(before, at);
    }
}

proof fn lemma_alias_absent(aliases: Seq<(String, TtWarpSource)>, key: Seq<char>)
    requires
        forall|j: int| 0 <= j < aliases.len() ==> (#[trigger] aliases[j]).0@ != key,
    ensures
        !alias_map(aliases).dom().contains(key),
    decreases aliases.len(),
{
    if aliases.len() > 0 {
        let before = aliases.drop_last();
        assert(aliases[aliases.len() - 1].0@ != key);
        assert forall|j: int| 0 <= j < before.len() implies (#[trigger] before[j]).0@ != key by {
            assert(aliases[j].0@ != key);
        }
        lemma_alias_absent(before, key);
    }
}

impl WarpModel {
    pub open spec fn empty() -> WarpModel {
        WarpModel { aliases: Map::empty(), snapshots: Seq::empty() }
    }

    /// Where a variable's value comes from, where that is known.
    pub open spec fn source(self, name: Seq<char>) -> Option<SourceModel> {
        if self.aliases.dom().contains(name) {
            Some(self.aliases[name])
        } else {
            None
        }
    }

    pub open spec fn bound(self, name: Seq<char>, source: SourceModel) -> WarpModel {
        WarpModel { aliases: self.aliases.insert(name, source), ..self }
    }

    pub open spec fn has_snapshot(self, buffer: Seq<char>) -> bool {
        exists|i: int| 0 <= i < self.snapshots.len() && (#[trigger] self.snapshots[i]).buffer == buffer
    }

    /// With a snapshot of the buffer; one buffer is recorded once.
    pub open spec fn recorded(self, buffer: Seq<char>, item: Item) -> WarpModel {
        if self.has_snapshot(buffer) {
            self
        } else {
            WarpModel { snapshots: self.snapshots.push(SnapshotModel { buffer, item }), ..self }
        }
    }

    /// Where the value of an operand comes from: the position built-ins are sources
    /// themselves.
    pub open spec fn operand_source(self, operand: Variable) -> Option<SourceModel> {
        match operand.kind {
            VariableKind::UnitPos => Some(SourceModel::UnitPos),
            VariableKind::UnitPosPlane => Some(SourceModel::UnitPosPlane),
            _ => self.source(operand.name@),
        }
    }

    pub open spec fn bound_if_known(self, name: Seq<char>, source: Option<SourceModel>) -> WarpModel {
        match source {
            Some(source) => self.bound(name, source),
            None => self,
        }
    }

    /// What a comparison with a constant tells: the lanes compare their snapshots,
    /// or their positions where the comparison asks for less.
    pub open spec fn comparison_source(
        self,
        op: TtWarpComparison,
        lhs: Variable,
        rhs: Variable,
    ) -> Option<SourceModel> {
        if !(rhs.kind is Constant) {
            None
        } else {
            match self.source(lhs.name@) {
                Some(SourceModel::Snapshot { name, item }) => Some(
                    SourceModel::CompareConst { name, item, op, constant: rhs.name@ },
                ),
                other => if op is Less && (lhs.kind is UnitPos || lhs.kind is UnitPosPlane || other
                    == Some(SourceModel::UnitPos) || other == Some(SourceModel::UnitPosPlane)) {
                    Some(SourceModel::UnitPosLessThanConst { constant: rhs.name@ })
                } else {
                    None
                },
            }
        }
    }

    /// What is known after one more instruction.
    pub open spec fn observed(self, op: Op) -> WarpModel {
        match op {
            Op::Index { list, out } => if list.kind is GlobalInputArray
                || list.kind is GlobalOutputArray {
                self.recorded(list.name@, out.item).bound(
                    out.name@,
                    SourceModel::Snapshot { name: snapshot_name(list.name@), item: out.item },
                )
            } else {
                self
            },
            Op::Assign(unary) | Op::SpecialCast(unary) => self.bound_if_known(
                unary.out.name@,
                self.operand_source(unary.input),
            ),
            Op::Select { then, out } => self.bound_if_known(out.name@, self.source(then.name@)),
            Op::Compare(comparison, binary) => match comparison {
                Comparison::Lower | Comparison::LowerEqual => self.bound_if_known(
                    binary.out.name@,
                    self.comparison_source(TtWarpComparison::Less, binary.lhs, binary.rhs),
                ),
                Comparison::Greater | Comparison::GreaterEqual => self.bound_if_known(
                    binary.out.name@,
                    self.comparison_source(TtWarpComparison::Greater, binary.lhs, binary.rhs),
                ),
                _ => self,
            },
            _ => self,
        }
    }
}

impl TtWarpLoweringState {
    pub open spec fn model(self) -> WarpModel {
        WarpModel {
            aliases: alias_map(self.aliases@),
            snapshots: self.snapshots@.map_values(
                |s: TtWarpSnapshot| SnapshotModel { buffer: s.buffer_name@, item: s.item },
            ),
        }
    }

    /// Every variable has one binding, and every snapshot is named after its buffer.
    pub open spec fn wf(self) -> bool {
        &&& forall|i: int, j: int|
            0 <= i < j < self.aliases.len() ==> (#[trigger] self.aliases[i]).0@ != (
            #[trigger] self.aliases[j]).0@
        &&& forall|i: int|
            0 <= i < self.snapshots.len() ==> (#[trigger] self.snapshots[i]).snapshot_name@
                == snapshot_name(self.snapshots[i].buffer_name@)
    }

    pub fn new() -> (state: Self)
        ensures
            state.wf(),
            state.model() == WarpModel::empty(),
    {
        let state = TtWarpLoweringState { aliases: Vec::new(), snapshots: Vec::new() };
        assert(state.model() =~= WarpModel::empty());
        state
    }

    /// The position of the binding of a name.
    fn position(&self, name: &String) -> (position: Option<usize>)
        requires
            self.wf(),
        ensures
            match position {
                Some(i) => i < self.aliases.len() && self.aliases[i as int].0@ == name@
                    && self.model().source(name@) == Some(self.aliases[i as int].1.model()),
                None => self.model().source(name@) is None && forall|i: int|
                    0 <= i < self.aliases.len() ==> (#[trigger] self.aliases[i]).0@ != name@,
            },
    {
        let mut i: usize = self.aliases.len();
        while i > 0
            invariant
                i <= self.aliases.len(),
                forall|j: int| i <= j < self.aliases.len() ==> (#[trigger] self.aliases[j]).0@ != name@,
            decreases i,
        {
            i -= 1;
            if self.aliases[i].0 == *name {
                proof {
                    lemma_alias_found(self.aliases@, i as int);
                }
                return Some(i);
            }
        }
        proof {
            lemma_alias_absent(self.aliases@, name@);
        }
        None
    }

    /// Where the value of a variable comes from, where that is known.
    pub fn source_for(&self, var: &Variable) -> (source: Option<TtWarpSource>)
        requires
            self.wf(),
        ensures
            match source {
                Some(source) => self.model().source(var.name@) == Some(source.model()),
                None => self.model().source(var.name@) is None,
            },
    {
        match self.position(&var.name) {
            Some(i) => Some(self.aliases[i].1.duplicate()),
            None => None,
        }
    }

    /// Remember where the value of a variable comes from.
    pub fn bind(&mut self, var: &Variable, source: TtWarpSource)
        requires
            old(self).wf(),
        ensures
            final(self).wf(),
            final(self).model() == old(self).model().bound(var.name@, source.model()),
    {
        let ghost before = self.aliases@;
        match self.position(&var.name) {
            Some(i) => {
                self.aliases.set(i, (var.name.clone(), source));
                proof {
                    lemma_alias_update(before, i as int, (var.name, source));
                    assert(self.model() =~= old(self).model().bound(var.name@, source.model()));
                }
            },
            None => {
                self.aliases.push((var.name.clone(), source));
                proof {
                    assert(self.aliases@.drop_last() =~= before);
                    assert(self.model() =~= old(self).model().bound(var.name@, source.model()));
                }
            },
        }
    }

    /// Take a snapshot of a buffer, unless there is one, and return its name.
    pub fn record_snapshot(&mut self, buffer: &Variable, item: Item) -> (name: String)
        requires
            old(self).wf(),
        ensures
            final(self).wf(),
            final(self).model() == old(self).model().recorded(buffer.name@, item),
            name@ == snapshot_name(buffer.name@),
    {
        let mut i: usize = 0;
        while i < self.snapshots.len()
            invariant
                i <= self.snapshots.len(),
                *self == *old(self),
                self.wf(),
                forall|j: int|
                    0 <= j < i ==> (#[trigger] self.snapshots[j]).buffer_name@ != buffer.name@,
            decreases self.snapshots.len() - i,
        {
            if self.snapshots[i].buffer_name == buffer.name {
                assert(self.model().snapshots[i as int].buffer == buffer.name@);
                return self.snapshots[i].snapshot_name.clone();
            }
            i += 1;
        }
        assert(!self.model().has_snapshot(buffer.name@)) by {
            assert forall|j: int| 0 <= j < self.model().snapshots.len() implies (
            #[trigger] self.model().snapshots[j]).buffer != buffer.name@ by {
                assert(self.snapshots[j].buffer_name@ != buffer.name@);
            }
        }
        let mut name = "tt_plane_snapshot_".to_owned();
        name.append(text::tt_sanitize_name(buffer.name.as_str()).as_str());
        self.snapshots.push(
            TtWarpSnapshot { snapshot_name: name.clone(), buffer_name: buffer.name.clone(), item },
        );
        assert(self.model() =~= old(self).model().recorded(buffer.name@, item));
        name
    }
}

proof fn lemma_alias_update(aliases: Seq<(String, TtWarpSource)>, at: int, entry: (String, TtWarpSource))
    requires
        0 <= at < aliases.len(),
        aliases[at].0@ == entry.0@,
        forall|i: int, j: int|
            0 <= i < j < aliases.len() ==> (#[trigger] aliases[i]).0@ != (#[trigger] aliases[j]).0@,
    ensures
        alias_map(aliases.update(at, entry)) == alias_map(aliases).insert(
            entry.0@,
            entry.1.model(),
        ),
    decreases aliases.len(),
{
    let updated = aliases.update(at, entry);
    if at == aliases.len() - 1 {
        assert(updated.drop_last() =~= aliases.drop_last());
        assert(alias_map(updated) =~= alias_map(aliases).insert(entry.0@, entry.1.model()));
    } else {
        let before = aliases.drop_last();
        assert(updated.drop_last() =~= before.update(at, entry));
        assert forall|i: int, j: int| 0 <= i < j < before.len() implies (#[trigger] before[i]).0@
            != (#[trigger] before[j]).0@ by {
            assert(aliases[i].0@ != aliases[j].0@);
        }
        lemma_alias_update(before, at, entry);
        assert(aliases[at].0@ != aliases[aliases.len() - 1].0@);
        assert(alias_map(updated) =~= alias_map(aliases).insert(entry.0@, entry.1.model()));
    }
}

impl TtWarpLoweringState {
    fn bind_if_known(&mut self, var: &Variable, source: Option<TtWarpSource>)
        requires
            old(self).wf(),
        ensures
            final(self).wf(),
            final(self).model() == old(self).model().bound_if_known(
                var.name@,
                match source {
                    Some(source) => Some(source.model()),
                    None => None,
                },
            ),
    {
        if let Some(source) = source {
            self.bind(var, source);
        }
    }

    fn comparison_source(&self, op: TtWarpComparison, lhs: &Variable, rhs: &Variable) -> (source: Option<
        TtWarpSource,
    >)
        requires
            self.wf(),
        ensures
            match source {
                Some(source) => self.model().comparison_source(op, *lhs, *rhs) == Some(
                    source.model(),
                ),
                None => self.model().comparison_source(op, *lhs, *rhs) is None,
            },
    {
        if !matches!(rhs.kind, VariableKind::Constant) {
            return None;
        }
        let known = self.source_for(lhs);
        match known {
            Some(TtWarpSource::Snapshot { snapshot_name, item }) => Some(
                TtWarpSource::CompareConst { snapshot_name, item, op, constant: rhs.name.clone() },
            ),
            other => {
                let position = matches!(lhs.kind, VariableKind::UnitPos | VariableKind::UnitPosPlane)
                    || matches!(other, Some(TtWarpSource::UnitPos) | Some(TtWarpSource::UnitPosPlane));
                if position && matches!(op, TtWarpComparison::Less) {
                    Some(TtWarpSource::UnitPosLessThanConst { constant: rhs.name.clone() })
                } else {
                    None
                }
            },
        }
    }

    /// Take note of what an instruction tells about its result.
    pub fn observe_instruction(&mut self, instruction: &Instruction)
        requires
            old(self).wf(),
        ensures
            final(self).wf(),
            final(self).model() == old(self).model().observed(instruction.op),
    {
        match &instruction.op {
            Op::Index { list, out } => {
                if matches!(list.kind, VariableKind::GlobalInputArray | VariableKind::GlobalOutputArray) {
                    let snapshot_name = self.record_snapshot(list, out.item);
                    self.bind(out, TtWarpSource::Snapshot { snapshot_name, item: out.item });
                }
            },
            Op::Assign(unary) | Op::SpecialCast(unary) => {
                let source = match unary.input.kind {
                    VariableKind::UnitPos => Some(TtWarpSource::UnitPos),
                    VariableKind::UnitPosPlane => Some(TtWarpSource::UnitPosPlane),
                    _ => self.source_for(&unary.input),
                };
                self.bind_if_known(&unary.out, source);
            },
            Op::Select { then, out } => {
                let source = self.source_for(then);
                self.bind_if_known(out, source);
            },
            Op::Compare(comparison, binary) => match comparison {
                Comparison::Lower | Comparison::LowerEqual => {
                    let source = self.comparison_source(
                        TtWarpComparison::Less,
                        &binary.lhs,
                        &binary.rhs,
                    );
                    self.bind_if_known(&binary.out, source);
                },
                Comparison::Greater | Comparison::GreaterEqual => {
                    let source = self.comparison_source(
                        TtWarpComparison::Greater,
                        &binary.lhs,
                        &binary.rhs,
                    );
                    self.bind_if_known(&binary.out, source);
                },
                _ => {},
            },
            _ => {},
        }
    }
}

pub const VECTOR_COMPONENT: &'static str = "$0[$1].i_$2";

pub const SCALAR_COMPONENT: &'static str = "$0[$1]";

pub const COMPARISON: &'static str = "(($0) $1 ($2))";

pub const REDUCE: &'static str = "([&]() -> $0 { $0 acc = $1; for (uint32_t tt_lane = 1; tt_lane < plane_dim_checked; ++tt_lane) { acc $2 $3; } return acc; })()";

pub const REDUCE_BY_FUNCTION: &'static str = "([&]() -> $0 { $0 acc = $1; for (uint32_t tt_lane = 1; tt_lane < plane_dim_checked; ++tt_lane) { acc = $2(acc, $3); } return acc; })()";

pub const PREFIX_REDUCE: &'static str = "([&]() -> $0 { $0 acc = $1; for (uint32_t tt_lane = 0; tt_lane < plane_dim_checked; ++tt_lane) { if (tt_lane $2) acc $3 $4; } return acc; })()";

pub const CHOSEN_LANE: &'static str = "tt_plane_base + ((uint32_t)($0) < plane_dim_checked ? uint32_t($0) : unit_pos_plane)";

pub const SHUFFLE_XOR: &'static str = "([&]() -> $0 { uint32_t tt_src = unit_pos_plane ^ uint32_t($1); if (tt_src < plane_dim_checked) return $2; return $3; })()";

pub const SHUFFLE_UP: &'static str = "([&]() -> $0 { uint32_t tt_delta = uint32_t($1); if (unit_pos_plane >= tt_delta) return $2; return $3; })()";

pub const SHUFFLE_DOWN: &'static str = "([&]() -> $0 { uint32_t tt_delta = uint32_t($1); uint32_t tt_src = unit_pos_plane + tt_delta; if (tt_src < plane_dim_checked) return $2; return $3; })()";

pub const ALL: &'static str = "$0 = ([&]() -> bool { bool tt_all = true; for (uint32_t tt_lane = 0; tt_lane < plane_dim_checked; ++tt_lane) { tt_all = tt_all && $1; } return tt_all; })();\n";

pub const ANY: &'static str = "$0 = ([&]() -> bool { bool tt_any = false; for (uint32_t tt_lane = 0; tt_lane < plane_dim_checked; ++tt_lane) { tt_any = tt_any || $1; } return tt_any; })();\n";

pub const BALLOT: &'static str = "uint32_t tt_ballot = 0; for (uint32_t tt_lane = 0; tt_lane < plane_dim_checked && tt_lane < 32; ++tt_lane) { if ($0) tt_ballot |= (1u << tt_lane); } $1 = { tt_ballot, 0u, 0u, 0u };\n";

pub const ELECT: &'static str = "$0 = (unit_pos_plane == 0);\n";

/// The place in a snapshot that holds one component of a lane's value.
pub open spec fn snapshot_component(name: Seq<char>, item: Item, lane: Seq<char>, comp: nat) -> Seq<char> {
    if item.vectorization > 1 {
        text::fill(VECTOR_COMPONENT@, seq![name, lane, text::dec(comp)])
    } else {
        text::fill(SCALAR_COMPONENT@, seq![name, lane])
    }
}

/// The expression for one component of what a lane holds.
pub open spec fn component(source: SourceModel, lane: Seq<char>, comp: nat) -> Seq<char> {
    match source {
        SourceModel::Snapshot { name, item } => snapshot_component(name, item, lane, comp),
        SourceModel::CompareConst { name, item, op, constant } => text::fill(
            COMPARISON@,
            seq![
                snapshot_component(name, item, lane, comp),
                if op is Less {
                    "<"@
                } else {
                    ">"@
                },
                constant,
            ],
        ),
        SourceModel::UnitPos => text::fill("($0)"@, seq![lane]),
        SourceModel::UnitPosPlane => text::fill("(($0) - tt_plane_base)"@, seq![lane]),
        SourceModel::UnitPosLessThanConst { constant } => text::fill(
            COMPARISON@,
            seq![lane, "<"@, constant],
        ),
    }
}

fn snapshot_component_text(name: &str, item: Item, lane: &str, comp: usize) -> (result: String)
    ensures
        result@ == snapshot_component(name@, item, lane@, comp as nat),
{
    if item.vectorization > 1 {
        text::fill3(VECTOR_COMPONENT, name, lane, text::dec_text(comp as u64).as_str())
    } else {
        text::fill2(SCALAR_COMPONENT, name, lane)
    }
}

fn tt_source_component_expr(source: &TtWarpSource, lane: &str, comp: usize) -> (result: String)
    ensures
        result@ == component(source.model(), lane@, comp as nat),
{
    match source {
        TtWarpSource::Snapshot { snapshot_name, item } => snapshot_component_text(
            snapshot_name.as_str(),
            *item,
            lane,
            comp,
        ),
        TtWarpSource::CompareConst { snapshot_name, item, op, constant } => {
            let lhs = snapshot_component_text(snapshot_name.as_str(), *item, lane, comp);
            let sign = match op {
                TtWarpComparison::Less => "<",
                TtWarpComparison::Greater => ">",
            };
            text::fill3(COMPARISON, lhs.as_str(), sign, constant.as_str())
        },
        TtWarpSource::UnitPos => text::fill1("($0)", lane),
        TtWarpSource::UnitPosPlane => text::fill1("(($0) - tt_plane_base)", lane),
        TtWarpSource::UnitPosLessThanConst { constant } => text::fill3(
            COMPARISON,
            lane,
            "<",
            constant.as_str(),
        ),
    }
}

/// How a plane operation combines the lanes.
#[derive(Clone, Copy, Debug, PartialEq, Eq, Structural)]
pub enum Combination {
    Sum,
    Product,
    Maximum,
    Minimum,
}

/// The expression that combines one component over all lanes.
pub open spec fn reduced(combination: Combination, elem: Seq<char>, source: SourceModel, comp: nat) -> Seq<char> {
    let first = component(source, "tt_plane_base"@, comp);
    let next = component(source, "tt_plane_base + tt_lane"@, comp);
    match combination {
        Combination::Sum => text::fill(REDUCE@, seq![elem, first, "+="@, next]),
        Combination::Product => text::fill(REDUCE@, seq![elem, first, "*="@, next]),
        Combination::Maximum => text::fill(REDUCE_BY_FUNCTION@, seq![elem, first, "max"@, next]),
        Combination::Minimum => text::fill(REDUCE_BY_FUNCTION@, seq![elem, first, "min"@, next]),
    }
}

/// The expression that sums or multiplies one component over the lanes before this
/// one, and this one itself where the prefix is inclusive.
pub open spec fn prefix_reduced(
    product: bool,
    inclusive: bool,
    elem: Seq<char>,
    source: SourceModel,
    comp: nat,
) -> Seq<char> {
    text::fill(
        PREFIX_REDUCE@,
        seq![
            elem,
            if product {
                "1"@
            } else {
                "0"@
            },
            if inclusive {
                "<= unit_pos_plane"@
            } else {
                "< unit_pos_plane"@
            },
            if product {
                "*="@
            } else {
                "+="@
            },
            component(source, "tt_plane_base + tt_lane"@, comp),
        ],
    )
}

fn tt_render_reduce(combination: Combination, elem: &str, source: &TtWarpSource, comp: usize) -> (result: String)
    ensures
        result@ == reduced(combination, elem@, source.model(), comp as nat),
{
    let first = tt_source_component_expr(source, "tt_plane_base", comp);
    let next = tt_source_component_expr(source, "tt_plane_base + tt_lane", comp);
    match combination {
        Combination::Sum => text::fill4(REDUCE, elem, first.as_str(), "+=", next.as_str()),
        Combination::Product => text::fill4(REDUCE, elem, first.as_str(), "*=", next.as_str()),
        Combination::Maximum => text::fill4(
            REDUCE_BY_FUNCTION,
            elem,
            first.as_str(),
            "max",
            next.as_str(),
        ),
        Combination::Minimum => text::fill4(
            REDUCE_BY_FUNCTION,
            elem,
            first.as_str(),
            "min",
            next.as_str(),
        ),
    }
}

fn tt_render_prefix_reduce(
    product: bool,
    inclusive: bool,
    elem: &str,
    source: &TtWarpSource,
    comp: usize,
) -> (result: String)
    ensures
        result@ == prefix_reduced(product, inclusive, elem@, source.model(), comp as nat),
{
    let next = tt_source_component_expr(source, "tt_plane_base + tt_lane", comp);
    let (init, combine) = if product {
        ("1", "*=")
    } else {
        ("0", "+=")
    };
    let lanes = if inclusive {
        "<= unit_pos_plane"
    } else {
        "< unit_pos_plane"
    };
    text::fill5(PREFIX_REDUCE, elem, init, lanes, combine, next.as_str())
}

/// The variable that a plane operation reads, where it reads one.
pub open spec fn warp_input(warp: WarpInstruction) -> Option<Variable> {
    match warp {
        WarpInstruction::ReduceSum { input, out } => Some(input),
        WarpInstruction::ReduceProd { input, out } => Some(input),
        WarpInstruction::ReduceMax { input, out } => Some(input),
        WarpInstruction::ReduceMin { input, out } => Some(input),
        WarpInstruction::InclusiveSum { input, out } => Some(input),
        WarpInstruction::ExclusiveSum { input, out } => Some(input),
        WarpInstruction::InclusiveProd { input, out } => Some(input),
        WarpInstruction::ExclusiveProd { input, out } => Some(input),
        WarpInstruction::Broadcast { input, id, out } => Some(input),
        WarpInstruction::Shuffle { input, src_lane, out } => Some(input),
        WarpInstruction::ShuffleXor { input, mask, out } => Some(input),
        WarpInstruction::ShuffleUp { input, delta, out } => Some(input),
        WarpInstruction::ShuffleDown { input, delta, out } => Some(input),
        WarpInstruction::All { input, out } => Some(input),
        WarpInstruction::Any { input, out } => Some(input),
        WarpInstruction::Ballot { input, out } => Some(input),
        WarpInstruction::Elect { out } => None,
        WarpInstruction::ElectFallback { out } => None,
    }
}

pub open spec fn warp_out(warp: WarpInstruction) -> Variable {
    match warp {
        WarpInstruction::ReduceSum { input, out } => out,
        WarpInstruction::ReduceProd { input, out } => out,
        WarpInstruction::ReduceMax { input, out } => out,
        WarpInstruction::ReduceMin { input, out } => out,
        WarpInstruction::InclusiveSum { input, out } => out,
        WarpInstruction::ExclusiveSum { input, out } => out,
        WarpInstruction::InclusiveProd { input, out } => out,
        WarpInstruction::ExclusiveProd { input, out } => out,
        WarpInstruction::Broadcast { input, id, out } => out,
        WarpInstruction::Shuffle { input, src_lane, out } => out,
        WarpInstruction::ShuffleXor { input, mask, out } => out,
        WarpInstruction::ShuffleUp { input, delta, out } => out,
        WarpInstruction::ShuffleDown { input, delta, out } => out,
        WarpInstruction::All { input, out } => out,
        WarpInstruction::Any { input, out } => out,
        WarpInstruction::Ballot { input, out } => out,
        WarpInstruction::Elect { out } => out,
        WarpInstruction::ElectFallback { out } => out,
    }
}

fn input_of(warp: &WarpInstruction) -> (input: Option<&Variable>)
    ensures
        match input {
            Some(input) => warp_input(*warp) == Some(*input),
            None => warp_input(*warp) is None,
        },
{
    match warp {
        WarpInstruction::ReduceSum { input, .. } => Some(input),
        WarpInstruction::ReduceProd { input, .. } => Some(input),
        WarpInstruction::ReduceMax { input, .. } => Some(input),
        WarpInstruction::ReduceMin { input, .. } => Some(input),
        WarpInstruction::InclusiveSum { input, .. } => Some(input),
        WarpInstruction::ExclusiveSum { input, .. } => Some(input),
        WarpInstruction::InclusiveProd { input, .. } => Some(input),
        WarpInstruction::ExclusiveProd { input, .. } => Some(input),
        WarpInstruction::Broadcast { input, .. } => Some(input),
        WarpInstruction::Shuffle { input, .. } => Some(input),
        WarpInstruction::ShuffleXor { input, .. } => Some(input),
        WarpInstruction::ShuffleUp { input, .. } => Some(input),
        WarpInstruction::ShuffleDown { input, .. } => Some(input),
        WarpInstruction::All { input, .. } => Some(input),
        WarpInstruction::Any { input, .. } => Some(input),
        WarpInstruction::Ballot { input, .. } => Some(input),
        WarpInstruction::Elect { .. } => None,
        WarpInstruction::ElectFallback { .. } => None,
    }
}

fn out_of(warp: &WarpInstruction) -> (out: &Variable)
    ensures
        *out == warp_out(*warp),
{
    match warp {
        WarpInstruction::ReduceSum { out, .. } => out,
        WarpInstruction::ReduceProd { out, .. } => out,
        WarpInstruction::ReduceMax { out, .. } => out,
        WarpInstruction::ReduceMin { out, .. } => out,
        WarpInstruction::InclusiveSum { out, .. } => out,
        WarpInstruction::ExclusiveSum { out, .. } => out,
        WarpInstruction::InclusiveProd { out, .. } => out,
        WarpInstruction::ExclusiveProd { out, .. } => out,
        WarpInstruction::Broadcast { out, .. } => out,
        WarpInstruction::Shuffle { out, .. } => out,
        WarpInstruction::ShuffleXor { out, .. } => out,
        WarpInstruction::ShuffleUp { out, .. } => out,
        WarpInstruction::ShuffleDown { out, .. } => out,
        WarpInstruction::All { out, .. } => out,
        WarpInstruction::Any { out, .. } => out,
        WarpInstruction::Ballot { out, .. } => out,
        WarpInstruction::Elect { out } => out,
        WarpInstruction::ElectFallback { out } => out,
    }
}

/// One component of the result of a plane operation that yields a vector.
pub open spec fn result_component(warp: WarpInstruction, source: SourceModel, comp: nat) -> Seq<char> {
    let elem = dialect::elem_text(warp_out(warp).item.elem);
    let own = component(source, "tt_plane_base + unit_pos_plane"@, comp);
    match warp {
        WarpInstruction::ReduceSum { input, out } => reduced(Combination::Sum, elem, source, comp),
        WarpInstruction::ReduceProd { input, out } => reduced(
            Combination::Product,
            elem,
            source,
            comp,
        ),
        WarpInstruction::ReduceMax { input, out } => reduced(
            Combination::Maximum,
            elem,
            source,
            comp,
        ),
        WarpInstruction::ReduceMin { input, out } => reduced(
            Combination::Minimum,
            elem,
            source,
            comp,
        ),
        WarpInstruction::InclusiveSum { input, out } => prefix_reduced(
            false,
            true,
            elem,
            source,
            comp,
        ),
        WarpInstruction::ExclusiveSum { input, out } => prefix_reduced(
            false,
            false,
            elem,
            source,
            comp,
        ),
        WarpInstruction::InclusiveProd { input, out } => prefix_reduced(
            true,
            true,
            elem,
            source,
            comp,
        ),
        WarpInstruction::ExclusiveProd { input, out } => prefix_reduced(
            true,
            false,
            elem,
            source,
            comp,
        ),
        WarpInstruction::Broadcast { input, id, out } => component(
            source,
            text::fill(CHOSEN_LANE@, seq![id.name@]),
            comp,
        ),
        WarpInstruction::Shuffle { input, src_lane, out } => component(
            source,
            text::fill(CHOSEN_LANE@, seq![src_lane.name@]),
            comp,
        ),
        WarpInstruction::ShuffleXor { input, mask, out } => text::fill(
            SHUFFLE_XOR@,
            seq![elem, mask.name@, component(source, "tt_plane_base + tt_src"@, comp), own],
        ),
        WarpInstruction::ShuffleUp { input, delta, out } => text::fill(
            SHUFFLE_UP@,
            seq![
                elem,
                delta.name@,
                component(source, "tt_plane_base + unit_pos_plane - tt_delta"@, comp),
                own,
            ],
        ),
        WarpInstruction::ShuffleDown { input, delta, out } => text::fill(
            SHUFFLE_DOWN@,
            seq![elem, delta.name@, component(source, "tt_plane_base + tt_src"@, comp), own],
        ),
        _ => own,
    }
}

fn result_component_text(warp: &WarpInstruction, source: &TtWarpSource, comp: usize) -> (result: String)
    ensures
        result@ == result_component(*warp, source.model(), comp as nat),
{
    let elem = TtMetalDialect::compile_elem(out_of(warp).item.elem);
    let own = tt_source_component_expr(source, "tt_plane_base + unit_pos_plane", comp);
    match warp {
        WarpInstruction::ReduceSum { .. } => tt_render_reduce(Combination::Sum, elem, source, comp),
        WarpInstruction::ReduceProd { .. } => tt_render_reduce(
            Combination::Product,
            elem,
            source,
            comp,
        ),
        WarpInstruction::ReduceMax { .. } => tt_render_reduce(
            Combination::Maximum,
            elem,
            source,
            comp,
        ),
        WarpInstruction::ReduceMin { .. } => tt_render_reduce(
            Combination::Minimum,
            elem,
            source,
            comp,
        ),
        WarpInstruction::InclusiveSum { .. } => tt_render_prefix_reduce(
            false,
            true,
            elem,
            source,
            comp,
        ),
        WarpInstruction::ExclusiveSum { .. } => tt_render_prefix_reduce(
            false,
            false,
            elem,
            source,
            comp,
        ),
        WarpInstruction::InclusiveProd { .. } => tt_render_prefix_reduce(
            true,
            true,
            elem,
            source,
            comp,
        ),
        WarpInstruction::ExclusiveProd { .. } => tt_render_prefix_reduce(
            true,
            false,
            elem,
            source,
            comp,
        ),
        WarpInstruction::Broadcast { id, .. } => tt_source_component_expr(
            source,
            text::fill1(CHOSEN_LANE, id.name.as_str()).as_str(),
            comp,
        ),
        WarpInstruction::Shuffle { src_lane, .. } => tt_source_component_expr(
            source,
            text::fill1(CHOSEN_LANE, src_lane.name.as_str()).as_str(),
            comp,
        ),
        WarpInstruction::ShuffleXor { mask, .. } => text::fill4(
            SHUFFLE_XOR,
            elem,
            mask.name.as_str(),
            tt_source_component_expr(source, "tt_plane_base + tt_src", comp).as_str(),
            own.as_str(),
        ),
        WarpInstruction::ShuffleUp { delta, .. } => text::fill4(
            SHUFFLE_UP,
            elem,
            delta.name.as_str(),
            tt_source_component_expr(
                source,
                "tt_plane_base + unit_pos_plane - tt_delta",
                comp,
            ).as_str(),
            own.as_str(),
        ),
        WarpInstruction::ShuffleDown { delta, .. } => text::fill4(
            SHUFFLE_DOWN,
            elem,
            delta.name.as_str(),
            tt_source_component_expr(source, "tt_plane_base + tt_src", comp).as_str(),
            own.as_str(),
        ),
        _ => own,
    }
}

/// The first `count` components of a result, with commas between them.
pub open spec fn result_components(warp: WarpInstruction, source: SourceModel, count: nat) -> Seq<char>
    decreases count,
{
    if count == 0 {
        Seq::empty()
    } else {
        result_components(warp, source, (count - 1) as nat) + text::given(count > 1, ", "@)
            + result_component(warp, source, (count - 1) as nat)
    }
}

/// The assignment of a result, component by component.
pub open spec fn vector_assignment(warp: WarpInstruction, source: SourceModel) -> Seq<char> {
    let out = warp_out(warp);
    if out.item.vectorization == 1 {
        out.left@ + " = "@ + result_component(warp, source, 0) + ";\n"@
    } else {
        out.left@ + " = { "@ + result_components(warp, source, out.item.vectorization as nat)
            + " };\n"@
    }
}

fn tt_render_vector_assignment(warp: &WarpInstruction, source: &TtWarpSource) -> (result: String)
    ensures
        result@ == vector_assignment(*warp, source.model()),
{
    let out = out_of(warp);
    let mut result = out.left.clone();
    if out.item.vectorization == 1 {
        result.append(" = ");
        result.append(result_component_text(warp, source, 0).as_str());
        result.append(";\n");
    } else {
        result.append(" = { ");
        let mut components = String::new();
        let mut comp: usize = 0;
        while comp < out.item.vectorization
            invariant
                comp <= out.item.vectorization,
                components@ == result_components(*warp, source.model(), comp as nat),
            decreases out.item.vectorization - comp,
        {
            components.append(text::given_text(comp > 0, ", ").as_str());
            components.append(result_component_text(warp, source, comp).as_str());
            comp += 1;
        }
        result.append(components.as_str());
        result.append(" };\n");
    }
    result
}

/// The text of a plane operation whose input comes from `source`.
pub open spec fn lowered_from(warp: WarpInstruction, source: SourceModel) -> Seq<char> {
    let left = warp_out(warp).left@;
    match warp {
        WarpInstruction::All { input, out } => text::fill(
            ALL@,
            seq![left, component(source, "tt_plane_base + tt_lane"@, 0)],
        ),
        WarpInstruction::Any { input, out } => text::fill(
            ANY@,
            seq![left, component(source, "tt_plane_base + tt_lane"@, 0)],
        ),
        WarpInstruction::Ballot { input, out } => text::fill(
            BALLOT@,
            seq![component(source, "tt_lane"@, 0), left],
        ),
        _ => vector_assignment(warp, source),
    }
}

/// The text of a plane operation, where its input is known for every lane.
pub open spec fn lowered_warp(warp: WarpInstruction, known: WarpModel) -> Option<Seq<char>> {
    match warp_input(warp) {
        None => Some(text::fill(ELECT@, seq![warp_out(warp).left@])),
        Some(input) => match known.source(input.name@) {
            Some(source) => Some(lowered_from(warp, source)),
            None => None,
        },
    }
}

/// Render a plane operation, where its input is known for every lane.
pub fn tt_render_warp_instruction(warp: &WarpInstruction, state: &TtWarpLoweringState) -> (result: Option<
    String,
>)
    requires
        state.wf(),
    ensures
        match result {
            Some(text) => lowered_warp(*warp, state.model()) == Some(text@),
            None => lowered_warp(*warp, state.model()) is None,
        },
{
    let left = out_of(warp).left.as_str();
    let input = match input_of(warp) {
        None => {
            return Some(text::fill1(ELECT, left));
        },
        Some(input) => input,
    };
    let source = match state.source_for(input) {
        None => {
            return None;
        },
        Some(source) => source,
    };
    Some(
        match warp {
            WarpInstruction::All { .. } => text::fill2(
                ALL,
                left,
                tt_source_component_expr(&source, "tt_plane_base + tt_lane", 0).as_str(),
            ),
            WarpInstruction::Any { .. } => text::fill2(
                ANY,
                left,
                tt_source_component_expr(&source, "tt_plane_base + tt_lane", 0).as_str(),
            ),
            WarpInstruction::Ballot { .. } => text::fill2(
                BALLOT,
                tt_source_component_expr(&source, "tt_lane", 0).as_str(),
                left,
            ),
            _ => tt_render_vector_assignment(warp, &source),
        },
    )
}

pub const BARRIER_COPY: &'static str = "for (uint32_t tt_barrier_copy_i = 0; tt_barrier_copy_i < $0; ++tt_barrier_copy_i) {\n                $1[$2 + tt_barrier_copy_i] = $3[$4 + tt_barrier_copy_i];\n            }\n";

/// The text of a supported barrier operation: synchronisation is left out, since
/// units run one after another, and a copy becomes a loop.
pub open spec fn barrier_text(op: BarrierOp) -> Seq<char> {
    match op {
        BarrierOp::Declare { level } => match level {
            BarrierLevel::Unit => "// TT unit barrier declare elided in generic writer\n"@,
            BarrierLevel::Cube => "// TT cube barrier declare elided; generic writer serializes unit execution over shared scratch\n"@,
        },
        BarrierOp::Init { level } => match level {
            BarrierLevel::Unit => "// TT unit barrier init elided; single-unit kernels are already synchronized\n"@,
            BarrierLevel::Cube => "// TT cube barrier init elided; generic writer serializes unit execution over shared scratch\n"@,
        },
        BarrierOp::ArriveAndWait { level } => match level {
            BarrierLevel::Unit => "// TT unit barrier arrive_and_wait elided; single-unit kernels are already synchronized\n"@,
            BarrierLevel::Cube => "// TT cube barrier arrive_and_wait elided; generic writer serializes unit execution over shared scratch\n"@,
        },
        BarrierOp::MemCopyAsync(copy) => text::fill(
            BARRIER_COPY@,
            seq![
                copy.source_length@,
                copy.destination@,
                copy.offset_out@,
                copy.source@,
                copy.offset_source@,
            ],
        ),
        BarrierOp::Other => ""@,
    }
}

/// Render a supported barrier operation.
pub fn render_tt_barrier_op(op: &BarrierOp) -> (result: String)
    requires
        kind::barrier_supported(*op),
    ensures
        result@ == barrier_text(*op),
{
    match op {
        BarrierOp::Declare { level } => match level {
            BarrierLevel::Unit => "// TT unit barrier declare elided in generic writer\n".to_owned(),
            BarrierLevel::Cube => "// TT cube barrier declare elided; generic writer serializes unit execution over shared scratch\n".to_owned(),
        },
        BarrierOp::Init { level } => match level {
            BarrierLevel::Unit => "// TT unit barrier init elided; single-unit kernels are already synchronized\n".to_owned(),
            BarrierLevel::Cube => "// TT cube barrier init elided; generic writer serializes unit execution over shared scratch\n".to_owned(),
        },
        BarrierOp::ArriveAndWait { level } => match level {
            BarrierLevel::Unit => "// TT unit barrier arrive_and_wait elided; single-unit kernels are already synchronized\n".to_owned(),
            BarrierLevel::Cube => "// TT cube barrier arrive_and_wait elided; generic writer serializes unit execution over shared scratch\n".to_owned(),
        },
        BarrierOp::MemCopyAsync(copy) => text::fill5(
            BARRIER_COPY,
            copy.source_length.as_str(),
            copy.destination.as_str(),
            copy.offset_out.as_str(),
            copy.source.as_str(),
            copy.offset_source.as_str(),
        ),
        BarrierOp::Other => "".to_owned(),
    }
}

/// The text of an instruction outside the plane operations.
pub open spec fn instruction_text(instruction: Instruction) -> Seq<char> {
    match instruction.op {
        Op::Barrier(op) => barrier_text(op),
        _ => instruction.text@,
    }
}

/// An instruction whose barrier operation, where it is one, is supported.
pub open spec fn renderable(instruction: Instruction) -> bool {
    instruction.op matches Op::Barrier(op) ==> kind::barrier_supported(op)
}

/// Render an instruction outside the plane operations.
pub fn render_tt_instruction(instruction: &Instruction) -> (result: String)
    requires
        renderable(*instruction),
    ensures
        result@ == instruction_text(*instruction),
{
    match &instruction.op {
        Op::Barrier(op) => render_tt_barrier_op(op),
        _ => instruction.text.clone(),
    }
}

/// Whether a plane operation stands directly in a list.
pub open spec fn has_warp(s: Seq<Instruction>) -> bool {
    exists|i: int| 0 <= i < s.len() && (#[trigger] s[i]).op is Warp
}

/// What is known after the instructions. Plane operations tell nothing, and what
/// happens inside a block is not looked at.
pub open spec fn knowledge(s: Seq<Instruction>) -> WarpModel
    decreases s.len(),
{
    if s.len() == 0 {
        WarpModel::empty()
    } else {
        knowledge(s.drop_last()).observed(s.last().op)
    }
}

/// The text of the instruction that stands behind `before`.
pub open spec fn rendered(before: Seq<Instruction>, instruction: Instruction) -> Seq<char> {
    match instruction.op {
        Op::Warp(warp) => match lowered_warp(warp, knowledge(before)) {
            Some(text) => text,
            None => instruction_text(instruction),
        },
        _ => instruction_text(instruction),
    }
}

/// The texts of a list of strings.
pub open spec fn texts(list: Seq<String>) -> Seq<Seq<char>> {
    list.map_values(|s: String| s@)
}

/// The texts of all instructions of a list.
pub open spec fn rendered_all(s: Seq<Instruction>) -> Seq<Seq<char>> {
    Seq::new(s.len(), |i: int| rendered(s.take(i), s[i]))
}

/// What the scalar writer needs to know of its plane operations: the snapshots, where
/// there is a plane operation at all.
pub open spec fn lowering(s: Seq<Instruction>) -> WarpModel {
    if has_warp(s) {
        knowledge(s)
    } else {
        WarpModel::empty()
    }
}

/// Render the instructions of a kernel and collect what their plane operations read.
pub fn analyze_tt_warp_lowering(instructions: &Vec<Instruction>) -> (result: (
    TtWarpLoweringState,
    Vec<String>,
))
    requires
        kind::barriers_supported(instructions@),
    ensures
        result.0.wf(),
        result.0.model() == lowering(instructions@),
        texts(result.1@) == rendered_all(instructions@),
{
    let mut uses_planes = false;
    let mut i: usize = 0;
    while i < instructions.len()
        invariant
            i <= instructions.len(),
            uses_planes == has_warp(instructions@.take(i as int)),
        decreases instructions.len() - i,
    {
        let ghost shorter = instructions@.take(i as int);
        let ghost longer = instructions@.take(i + 1);
        assert(forall|j: int| 0 <= j < i ==> shorter[j] == longer[j]);
        assert(longer[i as int] == instructions[i as int]);
        if matches!(instructions[i].op, Op::Warp(_)) {
            uses_planes = true;
        }
        assert(uses_planes == has_warp(longer)) by {
            if has_warp(shorter) {
                let j = choose|j: int| 0 <= j < shorter.len() && (#[trigger] shorter[j]).op is Warp;
                assert(longer[j].op is Warp);
            }
            if has_warp(longer) {
                let j = choose|j: int| 0 <= j < longer.len() && (#[trigger] longer[j]).op is Warp;
                if j < i {
                    assert(shorter[j].op is Warp);
                }
            }
        }
        i += 1;
    }
    assert(instructions@.take(instructions.len() as int) =~= instructions@);
    let mut state = TtWarpLoweringState::new();
    let mut list: Vec<String> = Vec::new();
    i = 0;
    while i < instructions.len()
        invariant
            i <= instructions.len(),
            i == list.len(),
            kind::barriers_supported(instructions@),
            uses_planes == has_warp(instructions@),
            state.wf(),
            state.model() == (if uses_planes {
                knowledge(instructions@.take(i as int))
            } else {
                WarpModel::empty()
            }),
            forall|j: int|
                0 <= j < i ==> (#[trigger] list[j])@ == rendered(
                    instructions@.take(j),
                    instructions[j],
                ),
        decreases instructions.len() - i,
    {
        let instruction = &instructions[i];
        proof {
            assert(renderable(*instruction));
            assert(instructions@.take(i + 1).drop_last() =~= instructions@.take(i as int));
            assert(instructions@.take(i + 1).last() == *instruction);
            if instruction.op is Warp {
                assert(instructions@[i as int].op is Warp);
                assert(uses_planes);
            }
        }
        let text = match &instruction.op {
            Op::Warp(warp) => match tt_render_warp_instruction(warp, &state) {
                Some(text) => text,
                None => render_tt_instruction(instruction),
            },
            _ => render_tt_instruction(instruction),
        };
        if uses_planes {
            state.observe_instruction(instruction);
        }
        list.push(text);
        i += 1;
    }
    assert(texts(list@) =~= rendered_all(instructions@));
    (state, list)
}

/// Whether the snapshot that a source reads is recorded.
pub open spec fn is_declared(source: SourceModel, snapshots: Seq<SnapshotModel>) -> bool {
    match source {
        SourceModel::Snapshot { name, .. } | SourceModel::CompareConst { name, .. } => exists|i: int|
            0 <= i < snapshots.len() && snapshot_name((#[trigger] snapshots[i]).buffer) == name,
        _ => true,
    }
}

/// Whether every buffer has one snapshot at most, and every snapshot that is read is
/// recorded.
pub open spec fn snapshots_agree(known: WarpModel) -> bool {
    &&& forall|i: int, j: int|
        0 <= i < j < known.snapshots.len() ==> (#[trigger] known.snapshots[i]).buffer != (
        #[trigger] known.snapshots[j]).buffer
    &&& forall|name: Seq<char>| #[trigger]
        known.aliases.dom().contains(name) ==> is_declared(known.aliases[name], known.snapshots)
}

proof fn lemma_recorded_agrees(known: WarpModel, buffer: Seq<char>, item: Item)
    requires
        snapshots_agree(known),
    ensures
        snapshots_agree(known.recorded(buffer, item)),
        known.recorded(buffer, item).has_snapshot(buffer),
{
    let after = known.recorded(buffer, item);
    if !known.has_snapshot(buffer) {
        assert(after.snapshots[known.snapshots.len() as int].buffer == buffer);
        assert forall|name: Seq<char>| #[trigger] after.aliases.dom().contains(name) implies is_declared(
            after.aliases[name],
            after.snapshots,
        ) by {
            assert(is_declared(known.aliases[name], known.snapshots));
            match known.aliases[name] {
                SourceModel::Snapshot { name: read, .. } | SourceModel::CompareConst {
                    name: read,
                    ..
                } => {
                    let k = choose|k: int|
                        0 <= k < known.snapshots.len() && snapshot_name(
                            (#[trigger] known.snapshots[k]).buffer,
                        ) == read;
                    assert(after.snapshots[k] == known.snapshots[k]);
                },
                _ => {},
            }
        }
    }
}

proof fn lemma_observed_agrees(known: WarpModel, op: Op)
    requires
        snapshots_agree(known),
    ensures
        snapshots_agree(known.observed(op)),
{
    match op {
        Op::Index { list, out } => {
            if list.kind is GlobalInputArray || list.kind is GlobalOutputArray {
                lemma_recorded_agrees(known, list.name@, out.item);
                let between = known.recorded(list.name@, out.item);
                let k = choose|k: int|
                    0 <= k < between.snapshots.len() && (#[trigger] between.snapshots[k]).buffer
                        == list.name@;
                assert(snapshot_name(between.snapshots[k].buffer) == snapshot_name(list.name@));
            }
        },
        _ => {},
    }
}

proof fn lemma_knowledge_agrees(s: Seq<Instruction>)
    ensures
        snapshots_agree(knowledge(s)),
    decreases s.len(),
{
    if s.len() > 0 {
        lemma_knowledge_agrees(s.drop_last());
        lemma_observed_agrees(knowledge(s.drop_last()), s.last().op);
    }
}

/// Snapshots stay recorded.
proof fn lemma_snapshots_stay(s: Seq<Instruction>, at: int)
    requires
        0 <= at <= s.len(),
    ensures
        knowledge(s.take(at)).snapshots.len() <= knowledge(s).snapshots.len(),
        forall|k: int|
            0 <= k < knowledge(s.take(at)).snapshots.len() ==> #[trigger] knowledge(s).snapshots[k]
                == knowledge(s.take(at)).snapshots[k],
    decreases s.len(),
{
    if at == s.len() {
        assert(s.take(at) =~= s);
    } else {
        let before = s.drop_last();
        assert(before.take(at) =~= s.take(at));
        lemma_snapshots_stay(before, at);
        assert forall|k: int|
            0 <= k < knowledge(s.take(at)).snapshots.len() implies #[trigger] knowledge(
            s,
        ).snapshots[k] == knowledge(s.take(at)).snapshots[k] by {
            assert(knowledge(before).snapshots[k] == knowledge(s.take(at)).snapshots[k]);
        }
    }
}

/// Every buffer has one snapshot at most.
pub proof fn law_buffers_have_one_snapshot(s: Seq<Instruction>, i: int, j: int)
    requires
        0 <= i < j < lowering(s).snapshots.len(),
    ensures
        lowering(s).snapshots[i].buffer != lowering(s).snapshots[j].buffer,
{
    lemma_knowledge_agrees(s);
}

/// The snapshot that a plane operation reads is declared, whatever variable it reads.
pub proof fn law_snapshots_are_declared(s: Seq<Instruction>, at: int, name: Seq<char>)
    requires
        0 <= at < s.len(),
        s[at].op is Warp,
        knowledge(s.take(at)).source(name) is Some,
    ensures
        is_declared(knowledge(s.take(at)).source(name)->0, lowering(s).snapshots),
{
    let known = knowledge(s.take(at));
    lemma_knowledge_agrees(s.take(at));
    lemma_snapshots_stay(s, at);
    assert(known.aliases.dom().contains(name));
    match known.aliases[name] {
        SourceModel::Snapshot { name: read, .. } | SourceModel::CompareConst { name: read, .. } => {
            let k = choose|k: int|
                0 <= k < known.snapshots.len() && snapshot_name(
                    (#[trigger] known.snapshots[k]).buffer,
                ) == read;
            assert(knowledge(s).snapshots[k] == known.snapshots[k]);
            assert(lowering(s).snapshots[k] == known.snapshots[k]);
        },
        _ => {},
    }
}

/// What is known of a variable is what its last instruction tells: an element of a buffer
/// comes from the snapshot of that buffer, a copy from where the original comes from, and a
/// position is itself. Nothing is told of other variables.
pub proof fn law_values_are_traced_to_their_source(known: WarpModel, op: Op, name: Seq<char>)
    ensures
        match op {
            Op::Index { list, out } => if list.kind is GlobalInputArray
                || list.kind is GlobalOutputArray {
                &&& known.observed(op).source(out.name@) == Some(
                    SourceModel::Snapshot {
                        name: "tt_plane_snapshot_"@ + text::sanitized(list.name@),
                        item: out.item,
                    },
                )
                &&& known.observed(op).has_snapshot(list.name@)
                &&& name != out.name@ ==> known.observed(op).source(name) == known.source(name)
            } else {
                known.observed(op) == known
            },
            Op::Assign(unary) | Op::SpecialCast(unary) => {
                &&& unary.input.kind is UnitPos ==> known.observed(op).source(unary.out.name@)
                    == Some(SourceModel::UnitPos)
                &&& unary.input.kind is UnitPosPlane ==> known.observed(op).source(unary.out.name@)
                    == Some(SourceModel::UnitPosPlane)
                &&& !(unary.input.kind is UnitPos || unary.input.kind is UnitPosPlane)
                    && known.source(unary.input.name@) is Some ==> known.observed(op).source(
                    unary.out.name@,
                ) == known.source(unary.input.name@)
                &&& name != unary.out.name@ ==> known.observed(op).source(name) == known.source(name)
            },
            Op::Compare(comparison, binary) => {
                let told = known.observed(op).source(binary.out.name@);
                &&& name != binary.out.name@ ==> known.observed(op).source(name) == known.source(
                    name,
                )
                &&& binary.rhs.kind is Constant && (known.source(binary.lhs.name@) matches Some(
                    SourceModel::Snapshot { name: read, item },
                ) && (comparison is Lower || comparison is Greater)) ==> told == Some(
                    SourceModel::CompareConst {
                        name: known.source(binary.lhs.name@)->0->Snapshot_name,
                        item: known.source(binary.lhs.name@)->0->Snapshot_item,
                        op: if comparison is Lower {
                            TtWarpComparison::Less
                        } else {
                            TtWarpComparison::Greater
                        },
                        constant: binary.rhs.name@,
                    },
                )
                &&& binary.rhs.kind is Constant && binary.lhs.kind is UnitPos && comparison is Lower
                    && !(known.source(binary.lhs.name@) matches Some(SourceModel::Snapshot { .. }))
                    ==> told == Some(
                    SourceModel::UnitPosLessThanConst { constant: binary.rhs.name@ },
                )
                &&& !(binary.rhs.kind is Constant) ==> known.observed(op) == known
                &&& comparison is Equal || comparison is NotEqual ==> known.observed(op) == known
            },
            Op::Select { then, out } => known.source(then.name@) is Some ==> known.observed(
                op,
            ).source(out.name@) == known.source(then.name@),
            _ => known.observed(op) == known,
        },
{
    match op {
        Op::Index { list, out } => {
            let between = known.recorded(list.name@, out.item);
            if !known.has_snapshot(list.name@) {
                assert(between.snapshots[known.snapshots.len() as int].buffer == list.name@);
            }
            assert(between.has_snapshot(list.name@));
            let after = between.bound(
                out.name@,
                SourceModel::Snapshot { name: snapshot_name(list.name@), item: out.item },
            );
            assert(after.snapshots == between.snapshots);
            let k = choose|k: int|
                0 <= k < between.snapshots.len() && (#[trigger] between.snapshots[k]).buffer
                    == list.name@;
            assert(after.snapshots[k].buffer == list.name@);
        },
        _ => {},
    }
}

} // verus!
