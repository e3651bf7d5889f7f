//! Effects as data: predicates, operations and the scope they run in.

use crate::assoc::{bound, find_binding, put_binding};
use crate::decimal::Decimal;
pub use crate::value::Value;
use crate::value::{
    duplicate_entries, lemma_entries_bound, lemma_table_insert, table_view, ValueView,
};
use vstd::prelude::*;

verus! {

/// A condition on the game state or on one item of a collection.
#[derive(Debug)]
pub enum Predicate {
    /// The field equals the value.
    Equals { field: String, value: Value },
    /// The field differs from the value.
    NotEquals { field: String, value: Value },
    /// The field is a greater number than the value.
    GreaterThan { field: String, value: Value },
    /// The field is a lesser number than the value.
    LessThan { field: String, value: Value },
    /// The field is a number not less than the value.
    GreaterOrEqual { field: String, value: Value },
    /// The field is a number not greater than the value.
    LessOrEqual { field: String, value: Value },
    /// The item carries the tag.
    HasTag { tag: String },
    /// The item is of the type.
    IsType { card_type: String },
    /// The field, a list or a text, contains the value.
    Contains { field: String, value: Value },
    /// Every predicate holds.
    And { predicates: Vec<Predicate> },
    /// Some predicate holds.
    Or { predicates: Vec<Predicate> },
    /// The predicate does not hold.
    Not { predicate: Box<Predicate> },
    /// A free-form expression; reserved, never true.
    Expression { expr: String },
}

/// The six ways to compare a field with a value.
pub enum Comparison {
    Equals,
    NotEquals,
    GreaterThan,
    LessThan,
    GreaterOrEqual,
    LessOrEqual,
}

/// The mathematical content of a [`Predicate`].
pub enum PredicateView {
    Compare { how: Comparison, field: Seq<char>, value: ValueView },
    HasTag { tag: Seq<char> },
    IsType { card_type: Seq<char> },
    Contains { field: Seq<char>, value: ValueView },
    And { predicates: Seq<PredicateView> },
    Or { predicates: Seq<PredicateView> },
    Not { predicate: Box<PredicateView> },
    Expression { expr: Seq<char> },
}

/// The content of `p`.
pub open spec fn predicate_view(p: Predicate) -> PredicateView
    decreases p,
{
    match p {
        Predicate::Equals { field, value } => PredicateView::Compare {
            how: Comparison::Equals,
            field: field@,
            value: value@,
        },
        Predicate::NotEquals { field, value } => PredicateView::Compare {
            how: Comparison::NotEquals,
            field: field@,
            value: value@,
        },
        Predicate::GreaterThan { field, value } => PredicateView::Compare {
            how: Comparison::GreaterThan,
            field: field@,
            value: value@,
        },
        Predicate::LessThan { field, value } => PredicateView::Compare {
            how: Comparison::LessThan,
            field: field@,
            value: value@,
        },
        Predicate::GreaterOrEqual { field, value } => PredicateView::Compare {
            how: Comparison::GreaterOrEqual,
            field: field@,
            value: value@,
        },
        Predicate::LessOrEqual { field, value } => PredicateView::Compare {
            how: Comparison::LessOrEqual,
            field: field@,
            value: value@,
        },
        Predicate::HasTag { tag } => PredicateView::HasTag { tag: tag@ },
        Predicate::IsType { card_type } => PredicateView::IsType { card_type: card_type@ },
        Predicate::Contains { field, value } => PredicateView::Contains {
            field: field@,
            value: value@,
        },
        Predicate::And { predicates } => PredicateView::And {
            predicates: predicates_view(predicates),
        },
        Predicate::Or { predicates } => PredicateView::Or {
            predicates: predicates_view(predicates),
        },
        Predicate::Not { predicate } => PredicateView::Not {
            predicate: Box::new(predicate_view(*predicate)),
        },
        Predicate::Expression { expr } => PredicateView::Expression { expr: expr@ },
    }
}

/// The contents of a list of predicates.
pub open spec fn predicates_view(ps: Vec<Predicate>) -> Seq<PredicateView>
    decreases ps,
{
    Seq::new(
        ps.len() as nat,
        |i: int|
            if 0 <= i < ps.len() {
                predicate_view(ps[i])
            } else {
                PredicateView::Expression { expr: Seq::empty() }
            },
    )
}

impl View for Predicate {
    type V = PredicateView;

    open spec fn view(&self) -> PredicateView {
        predicate_view(*self)
    }
}

impl Predicate {
    /// A copy with the same content.
    pub fn duplicate(&self) -> (r: Predicate)
        ensures
            r@ == self@,
        decreases self,
    {
        match self {
            Predicate::Equals { field, value } => Predicate::Equals {
                field: field.clone(),
                value: value.duplicate(),
            },
            Predicate::NotEquals { field, value } => Predicate::NotEquals {
                field: field.clone(),
                value: value.duplicate(),
            },
            Predicate::GreaterThan { field, value } => Predicate::GreaterThan {
                field: field.clone(),
                value: value.duplicate(),
            },
            Predicate::LessThan { field, value } => Predicate::LessThan {
                field: field.clone(),
                value: value.duplicate(),
            },
            Predicate::GreaterOrEqual { field, value } => Predicate::GreaterOrEqual {
                field: field.clone(),
                value: value.duplicate(),
            },
            Predicate::LessOrEqual { field, value } => Predicate::LessOrEqual {
                field: field.clone(),
                value: value.duplicate(),
            },
            Predicate::HasTag { tag } => Predicate::HasTag { tag: tag.clone() },
            Predicate::IsType { card_type } => Predicate::IsType { card_type: card_type.clone() },
            Predicate::Contains { field, value } => Predicate::Contains {
                field: field.clone(),
                value: value.duplicate(),
            },
            Predicate::And { predicates } => Predicate::And {
                predicates: duplicate_predicates(predicates),
            },
            Predicate::Or { predicates } => Predicate::Or {
                predicates: duplicate_predicates(predicates),
            },
            Predicate::Not { predicate } => Predicate::Not {
                predicate: Box::new(predicate.duplicate()),
            },
            Predicate::Expression { expr } => Predicate::Expression { expr: expr.clone() },
        }
    }
}

/// A copy of a list of predicates, element by element.
pub fn duplicate_predicates(ps: &Vec<Predicate>) -> (r: Vec<Predicate>)
    ensures
        predicates_view(r) == predicates_view(*ps),
    decreases ps,
{
    let mut out: Vec<Predicate> = Vec::new();
    let mut i: usize = 0;
    while i < ps.len()
        invariant
            i <= ps.len(),
            out.len() == i,
            forall|j: int| 0 <= j < i ==> predicate_view(out[j]) == predicate_view(ps[j]),
        decreases ps.len() - i,
    {
        let p = ps[i].duplicate();
        out.push(p);
        i += 1;
    }
    proof {
        assert(predicates_view(out) =~= predicates_view(*ps));
    }
    out
}

impl Clone for Predicate {
    fn clone(&self) -> (r: Predicate)
        ensures
            r@ == self@,
    {
        self.duplicate()
    }
}

/// One instruction of an effect.
#[derive(Debug)]
pub enum EffectOperation {
    /// Add an amount to the number at the target path.
    Add { target: String, amount: i32 },
    /// Subtract an amount from the number at the target path.
    Subtract { target: String, amount: i32 },
    /// Multiply the number at the target path by a factor.
    Multiply { target: String, factor: Decimal },
    /// Write a value at the target path.
    SetValue { target: String, value: Value },
    /// Keep the items of a collection that satisfy a predicate.
    Filter { target: String, predicate: Predicate },
    /// Take items out of a collection.
    Remove { target: String, count: usize, filter: Option<Predicate>, random: Option<bool> },
    /// Add an item at the end of a collection.
    Append { target: String, item: Value },
    /// Add an item at a position of a collection.
    Insert { target: String, index: usize, item: Value },
    /// Write a flag.
    SetFlag { flag: String, value: bool },
    /// Invert a flag.
    ToggleFlag { flag: String },
    /// Run one of two bodies, by a condition.
    IfCondition {
        condition: Predicate,
        then_: Vec<EffectOperation>,
        else_: Option<Vec<EffectOperation>>,
    },
    /// Run a body once for each item of a collection.
    ForEach { collection: String, operations: Vec<EffectOperation> },
    /// Run a body as long as a condition holds, up to a bound.
    While { condition: Predicate, operations: Vec<EffectOperation>, max_iterations: Option<usize> },
    /// Register a body to run whenever an event is emitted.
    OnEvent { event: String, operations: Vec<EffectOperation> },
    /// Emit an event, with optional data for the listeners.
    EmitEvent { event: String, data: Option<Vec<(String, Value)>> },
    /// Run a body later; reserved, does nothing.
    ScheduleOperation { delay_seconds: Decimal, operations: Vec<EffectOperation> },
    /// Bind a variable of the running effect.
    SetVariable { name: String, value: Value },
    /// Look a variable up; does nothing.
    GetVariable { name: String },
}

/// The mathematical content of an [`EffectOperation`]. Decimals are held in
/// millionths.
pub enum OperationView {
    Add { target: Seq<char>, amount: int },
    Subtract { target: Seq<char>, amount: int },
    Multiply { target: Seq<char>, factor: int },
    SetValue { target: Seq<char>, value: ValueView },
    Filter { target: Seq<char>, predicate: PredicateView },
    Remove { target: Seq<char>, count: nat, filter: Option<PredicateView>, random: Option<bool> },
    Append { target: Seq<char>, item: ValueView },
    Insert { target: Seq<char>, index: nat, item: ValueView },
    SetFlag { flag: Seq<char>, value: bool },
    ToggleFlag { flag: Seq<char> },
    IfCondition {
        condition: PredicateView,
        then_: Seq<OperationView>,
        else_: Option<Seq<OperationView>>,
    },
    ForEach { collection: Seq<char>, operations: Seq<OperationView> },
    While { condition: PredicateView, operations: Seq<OperationView>, max_iterations: Option<nat> },
    OnEvent { event: Seq<char>, operations: Seq<OperationView> },
    EmitEvent { event: Seq<char>, data: Option<Map<Seq<char>, ValueView>> },
    ScheduleOperation { delay_seconds: int, operations: Seq<OperationView> },
    SetVariable { name: Seq<char>, value: ValueView },
    GetVariable { name: Seq<char> },
}

/// The content of `op`.
pub open spec fn operation_view(op: EffectOperation) -> OperationView
    decreases op,
{
    match op {
        EffectOperation::Add { target, amount } => OperationView::Add {
            target: target@,
            amount: amount as int,
        },
        EffectOperation::Subtract { target, amount } => OperationView::Subtract {
            target: target@,
            amount: amount as int,
        },
        EffectOperation::Multiply { target, factor } => OperationView::Multiply {
            target: target@,
            factor: factor.micros as int,
        },
        EffectOperation::SetValue { target, value } => OperationView::SetValue {
            target: target@,
            value: value@,
        },
        EffectOperation::Filter { target, predicate } => OperationView::Filter {
            target: target@,
            predicate: predicate@,
        },
        EffectOperation::Remove { target, count, filter, random } => OperationView::Remove {
            target: target@,
            count: count as nat,
            filter: match filter {
                Some(p) => Some(p@),
                None => None,
            },
            random,
        },
        EffectOperation::Append { target, item } => OperationView::Append {
            target: target@,
            item: item@,
        },
        EffectOperation::Insert { target, index, item } => OperationView::Insert {
            target: target@,
            index: index as nat,
            item: item@,
        },
        EffectOperation::SetFlag { flag, value } => OperationView::SetFlag { flag: flag@, value },
        EffectOperation::ToggleFlag { flag } => OperationView::ToggleFlag { flag: flag@ },
        EffectOperation::IfCondition { condition, then_, else_ } => OperationView::IfCondition {
            condition: condition@,
            then_: operations_view(then_),
            else_: match else_ {
                Some(ops) => Some(operations_view(ops)),
                None => None,
            },
        },
        EffectOperation::ForEach { collection, operations } => OperationView::ForEach {
            collection: collection@,
            operations: operations_view(operations),
        },
        EffectOperation::While { condition, operations, max_iterations } => OperationView::While {
            condition: condition@,
            operations: operations_view(operations),
            max_iterations: match max_iterations {
                Some(m) => Some(m as nat),
                None => None,
            },
        },
        EffectOperation::OnEvent { event, operations } => OperationView::OnEvent {
            event: event@,
            operations: operations_view(operations),
        },
        EffectOperation::EmitEvent { event, data } => OperationView::EmitEvent {
            event: event@,
            data: match data {
                Some(d) => Some(table_view(d@)),
                None => None,
            },
        },
        EffectOperation::ScheduleOperation {
            delay_seconds,
            operations,
        } => OperationView::ScheduleOperation {
            delay_seconds: delay_seconds.micros as int,
            operations: operations_view(operations),
        },
        EffectOperation::SetVariable { name, value } => OperationView::SetVariable {
            name: name@,
            value: value@,
        },
        EffectOperation::GetVariable { name } => OperationView::GetVariable { name: name@ },
    }
}

/// The contents of a list of operations.
pub open spec fn operations_view(ops: Vec<EffectOperation>) -> Seq<OperationView>
    decreases ops,
{
    Seq::new(
        ops.len() as nat,
        |i: int|
            if 0 <= i < ops.len() {
                operation_view(ops[i])
            } else {
                OperationView::GetVariable { name: Seq::empty() }
            },
    )
}

impl View for EffectOperation {
    type V = OperationView;

    open spec fn view(&self) -> OperationView {
        operation_view(*self)
    }
}

impl EffectOperation {
    /// A copy with the same content.
    pub fn duplicate(&self) -> (r: EffectOperation)
        ensures
            r@ == self@,
        decreases self,
    {
        match self {
            EffectOperation::Add { target, amount } => EffectOperation::Add {
                target: target.clone(),
                amount: *amount,
            },
            EffectOperation::Subtract { target, amount } => EffectOperation::Subtract {
                target: target.clone(),
                amount: *amount,
            },
            EffectOperation::Multiply { target, factor } => EffectOperation::Multiply {
                target: target.clone(),
                factor: *factor,
            },
            EffectOperation::SetValue { target, value } => EffectOperation::SetValue {
                target: target.clone(),
                value: value.duplicate(),
            },
            EffectOperation::Filter { target, predicate } => EffectOperation::Filter {
                target: target.clone(),
                predicate: predicate.duplicate(),
            },
            EffectOperation::Remove { target, count, filter, random } => EffectOperation::Remove {
                target: target.clone(),
                count: *count,
                filter: match filter {
                    Some(p) => Some(p.duplicate()),
                    None => None,
                },
                random: *random,
            },
            EffectOperation::Append { target, item } => EffectOperation::Append {
                target: target.clone(),
                item: item.duplicate(),
            },
            EffectOperation::Insert { target, index, item } => EffectOperation::Insert {
                target: target.clone(),
                index: *index,
                item: item.duplicate(),
            },
            EffectOperation::SetFlag { flag, value } => EffectOperation::SetFlag {
                flag: flag.clone(),
                value: *value,
            },
            EffectOperation::ToggleFlag { flag } => EffectOperation::ToggleFlag {
                flag: flag.clone(),
            },
            EffectOperation::IfCondition { condition, then_, else_ } => {
                EffectOperation::IfCondition {
                    condition: condition.duplicate(),
                    then_: duplicate_operations(then_),
                    else_: match else_ {
                        Some(ops) => Some(duplicate_operations(ops)),
                        None => None,
                    },
                }
            },
            EffectOperation::ForEach { collection, operations } => EffectOperation::ForEach {
                collection: collection.clone(),
                operations: duplicate_operations(operations),
            },
            EffectOperation::While { condition, operations, max_iterations } => {
                EffectOperation::While {
                    condition: condition.duplicate(),
                    operations: duplicate_operations(operations),
                    max_iterations: *max_iterations,
                }
            },
            EffectOperation::OnEvent { event, operations } => EffectOperation::OnEvent {
                event: event.clone(),
                operations: duplicate_operations(operations),
            },
            EffectOperation::EmitEvent { event, data } => EffectOperation::EmitEvent {
                event: event.clone(),
                data: match data {
                    Some(d) => Some(duplicate_entries(d)),
                    None => None,
                },
            },
            EffectOperation::ScheduleOperation { delay_seconds, operations } => {
                EffectOperation::ScheduleOperation {
                    delay_seconds: *delay_seconds,
                    operations: duplicate_operations(operations),
                }
            },
            EffectOperation::SetVariable { name, value } => EffectOperation::SetVariable {
                name: name.clone(),
                value: value.duplicate(),
            },
            EffectOperation::GetVariable { name } => EffectOperation::GetVariable {
                name: name.clone(),
            },
        }
    }
}

/// A copy of a list of operations, element by element.
pub fn duplicate_operations(ops: &Vec<EffectOperation>) -> (r: Vec<EffectOperation>)
    ensures
        operations_view(r) == operations_view(*ops),
    decreases ops,
{
    let mut out: Vec<EffectOperation> = Vec::new();
    let mut i: usize = 0;
    while i < ops.len()
        invariant
            i <= ops.len(),
            out.len() == i,
            forall|j: int| 0 <= j < i ==> operation_view(out[j]) == operation_view(ops[j]),
        decreases ops.len() - i,
    {
        let op = ops[i].duplicate();
        out.push(op);
        i += 1;
    }
    proof {
        assert(operations_view(out) =~= operations_view(*ops));
    }
    out
}

impl Clone for EffectOperation {
    fn clone(&self) -> (r: EffectOperation)
        ensures
            r@ == self@,
    {
        self.duplicate()
    }
}

/// When the host should run an effect.
#[derive(Debug, Clone, Copy, PartialEq, Eq, Structural)]
pub enum EffectTiming {
    Before,
    After,
    OnDeploy,
    OnRemoval,
    OnDiscard,
}

/// A point at which an effect intercepts a component's operation.
#[derive(Debug, Clone)]
pub struct InterceptPoint {
    pub component: String,
    pub operation: String,
}

/// An effect as authored: a list of operations with its scheduling data.
#[derive(Debug, Clone)]
pub struct CardEffect {
    /// Unique identifier of the effect.
    pub id: String,
    /// Name for people to read.
    pub name: Option<String>,
    /// What the effect does, in words.
    pub description: Option<String>,
    /// The operations, run in order.
    pub operations: Vec<EffectOperation>,
    /// When the host should run the effect.
    pub timing: EffectTiming,
    /// Effects of higher priority run earlier.
    pub priority: i32,
    /// Where the effect intercepts component operations.
    pub intercepts: Option<Vec<InterceptPoint>>,
}

/// The timing of an effect that names none.
pub fn default_timing() -> (r: EffectTiming)
    ensures
        r == EffectTiming::After,
{
    EffectTiming::After
}

/// The priority of an effect that names none.
pub fn default_priority() -> (r: i32)
    ensures
        r == 100,
{
    100
}

/// An effect that is active on a card.
#[derive(Debug, Clone)]
pub struct ActiveEffect {
    pub card_id: String,
    pub effect_id: String,
    pub event_listeners: Vec<String>,
    pub variables: Vec<(String, Value)>,
}

/// The scope of one run of an effect: its variables and the data of the event
/// that started it.
#[derive(Debug, Clone)]
pub struct EffectContext {
    pub card_id: String,
    pub effect_id: String,
    pub variables: Vec<(String, Value)>,
    pub event_data: Option<Vec<(String, Value)>>,
}

/// The mathematical content of an [`EffectContext`].
pub struct ContextView {
    pub card_id: Seq<char>,
    pub effect_id: Seq<char>,
    pub variables: Map<Seq<char>, ValueView>,
    pub event_data: Option<Map<Seq<char>, ValueView>>,
}

impl View for EffectContext {
    type V = ContextView;

    open spec fn view(&self) -> ContextView {
        ContextView {
            card_id: self.card_id@,
            effect_id: self.effect_id@,
            variables: table_view(self.variables@),
            event_data: match self.event_data {
                Some(d) => Some(table_view(d@)),
                None => None,
            },
        }
    }
}

impl EffectContext {
    /// A scope with no variables and no event data.
    pub fn new(card_id: String, effect_id: String) -> (r: EffectContext)
        ensures
            r@ == (ContextView {
                card_id: card_id@,
                effect_id: effect_id@,
                variables: Map::empty(),
                event_data: None,
            }),
    {
        EffectContext { card_id, effect_id, variables: Vec::new(), event_data: None }
    }

    /// The same scope with `data` as its event data.
    pub fn with_event_data(self, data: Vec<(String, Value)>) -> (r: EffectContext)
        ensures
            r@ == (ContextView { event_data: Some(table_view(data@)), ..self@ }),
    {
        let mut out = self;
        out.event_data = Some(data);
        out
    }

    /// Binds a variable, in place of an earlier binding of the name.
    pub fn set_variable(&mut self, name: String, value: Value)
        ensures
            final(self)@ == (ContextView {
                variables: old(self)@.variables.insert(name@, value@),
                ..old(self)@
            }),
    {
        let ghost before = self.variables@;
        put_binding(&mut self.variables, name, value);
        proof {
            lemma_table_insert(before, self.variables@, name@, value);
        }
    }

    /// The value bound to a variable, if it is bound.
    pub fn get_variable(&self, name: &str) -> (r: Option<&Value>)
        ensures
            match r {
                Some(v) => self@.variables.contains_key(name@) && v@ == self@.variables[name@],
                None => !self@.variables.contains_key(name@),
            },
    {
        proof {
            lemma_entries_bound(self.variables@, self.variables.len() as nat);
        }
        match find_binding(&self.variables, name) {
            Some(i) => Some(&self.variables[i].1),
            None => None,
        }
    }
}

} // verus!
