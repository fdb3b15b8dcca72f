//! What the expressions of the generated sources stand for.
//!
//! An expression has a text and, where its names have values, a value. Numbers are
//! unsigned and of 32 bits; an expression is exact where no part of it that is evaluated
//! leaves them.
use crate::text;
use vstd::prelude::*;

verus! {

/// The operators between two expressions.
pub enum Operator {
    Times,
    Over,
    Modulo,
    Plus,
    Minus,
    Less,
    Greater,
    AtLeast,
    Equal,
    Xor,
    And,
    Or,
}

impl Operator {
    pub open spec fn symbol(self) -> Seq<char> {
        match self {
            Operator::Times => " * "@,
            Operator::Over => " / "@,
            Operator::Modulo => " % "@,
            Operator::Plus => " + "@,
            Operator::Minus => " - "@,
            Operator::Less => " < "@,
            Operator::Greater => " > "@,
            Operator::AtLeast => " >= "@,
            Operator::Equal => " == "@,
            Operator::Xor => " ^ "@,
            Operator::And => " && "@,
            Operator::Or => " || "@,
        }
    }

    /// How strongly the operator binds its operands.
    pub open spec fn strength(self) -> nat {
        match self {
            Operator::Times | Operator::Over | Operator::Modulo => 8,
            Operator::Plus | Operator::Minus => 7,
            Operator::Less | Operator::Greater | Operator::AtLeast => 6,
            Operator::Equal => 5,
            Operator::Xor => 4,
            Operator::And => 3,
            Operator::Or => 2,
        }
    }

    pub open spec fn result(self, a: int, b: int) -> int {
        match self {
            Operator::Times => a * b,
            Operator::Over => a / b,
            Operator::Modulo => a % b,
            Operator::Plus => a + b,
            Operator::Minus => a - b,
            Operator::Less => truth(a < b),
            Operator::Greater => truth(a > b),
            Operator::AtLeast => truth(a >= b),
            Operator::Equal => truth(a == b),
            Operator::Xor => ((a as u32) ^ (b as u32)) as int,
            Operator::And => truth(a != 0 && b != 0),
            Operator::Or => truth(a != 0 || b != 0),
        }
    }
}

/// The number that a condition stands for.
pub open spec fn truth(condition: bool) -> int {
    if condition {
        1
    } else {
        0
    }
}

/// An expression of a generated source.
pub enum Expr {
    Name(Seq<char>),
    Number(nat),
    /// An expression in brackets.
    Group(Box<Expr>),
    /// A conversion to a number, as a call and as a prefix.
    Cast(Box<Expr>),
    Prefix(Box<Expr>),
    /// The smaller of two numbers.
    Least(Box<Expr>, Box<Expr>),
    Binary(Operator, Box<Expr>, Box<Expr>),
    /// The second where the first is not zero, else the third.
    Choice(Box<Expr>, Box<Expr>, Box<Expr>),
}

/// The text of an expression.
pub open spec fn shown(e: Expr) -> Seq<char>
    decreases e,
{
    match e {
        Expr::Name(name) => name,
        Expr::Number(n) => text::dec(n),
        Expr::Group(inner) => "("@ + shown(*inner) + ")"@,
        Expr::Cast(inner) => "uint32_t("@ + shown(*inner) + ")"@,
        Expr::Prefix(inner) => "(uint32_t)("@ + shown(*inner) + ")"@,
        Expr::Least(a, b) => "std::min("@ + shown(*a) + ", "@ + shown(*b) + ")"@,
        Expr::Binary(op, a, b) => shown(*a) + op.symbol() + shown(*b),
        Expr::Choice(c, a, b) => shown(*c) + " ? "@ + shown(*a) + " : "@ + shown(*b),
    }
}

/// How strongly the parts of an expression hold together.
pub open spec fn strength(e: Expr) -> nat {
    match e {
        Expr::Binary(op, a, b) => op.strength(),
        Expr::Choice(c, a, b) => 1,
        _ => 9,
    }
}

/// Whether the text of an expression is read as that expression: its parts hold together
/// more strongly than what binds them, and equals are read from the left.
pub open spec fn is_read_back(e: Expr) -> bool
    decreases e,
{
    match e {
        Expr::Name(name) => true,
        Expr::Number(n) => true,
        Expr::Group(inner) | Expr::Cast(inner) | Expr::Prefix(inner) => is_read_back(*inner),
        Expr::Least(a, b) => is_read_back(*a) && is_read_back(*b),
        Expr::Binary(op, a, b) => is_read_back(*a) && is_read_back(*b) && strength(*a)
            >= op.strength() && strength(*b) > op.strength(),
        Expr::Choice(c, a, b) => is_read_back(*c) && is_read_back(*a) && is_read_back(*b)
            && strength(*c) > 1,
    }
}

/// The value of an expression whose names have the given values.
pub open spec fn value(e: Expr, names: Map<Seq<char>, int>) -> int
    decreases e,
{
    match e {
        Expr::Name(name) => names[name],
        Expr::Number(n) => n as int,
        Expr::Group(inner) => value(*inner, names),
        Expr::Cast(inner) => value(*inner, names),
        Expr::Prefix(inner) => value(*inner, names),
        Expr::Least(a, b) => if value(*a, names) <= value(*b, names) {
            value(*a, names)
        } else {
            value(*b, names)
        },
        Expr::Binary(op, a, b) => op.result(value(*a, names), value(*b, names)),
        Expr::Choice(c, a, b) => if value(*c, names) != 0 {
            value(*a, names)
        } else {
            value(*b, names)
        },
    }
}

/// Whether an expression can be evaluated without leaving the numbers of 32 bits.
pub open spec fn is_exact(e: Expr, names: Map<Seq<char>, int>) -> bool
    decreases e,
{
    &&& 0 <= value(e, names) <= u32::MAX
    &&& match e {
        Expr::Name(name) => true,
        Expr::Number(n) => true,
        Expr::Group(inner) | Expr::Cast(inner) | Expr::Prefix(inner) => is_exact(*inner, names),
        Expr::Least(a, b) => is_exact(*a, names) && is_exact(*b, names),
        Expr::Binary(op, a, b) => is_exact(*a, names) && is_exact(*b, names) && (op is Over
            || op is Modulo ==> value(*b, names) != 0),
        Expr::Choice(c, a, b) => is_exact(*c, names) && if value(*c, names) != 0 {
            is_exact(*a, names)
        } else {
            is_exact(*b, names)
        },
    }
}

/// The declaration of a local number.
pub open spec fn declaration(name: Seq<char>, e: Expr) -> Seq<char> {
    "uint32_t "@ + name + " = "@ + shown(e) + ";\n"@
}

/// Whether an expression can be evaluated to the given value.
pub open spec fn comes_to(e: Expr, names: Map<Seq<char>, int>, expected: int) -> bool {
    is_read_back(e) && is_exact(e, names) && value(e, names) == expected
}

/// Whether a source declares a local number that gets the given value.
#[verifier::opaque]
pub open spec fn declares(
    source: Seq<char>,
    name: Seq<char>,
    names: Map<Seq<char>, int>,
    expected: int,
) -> bool {
    exists|e: Expr|
        comes_to(e, names, expected) && text::contains(source, #[trigger] declaration(name, e))
}

pub open spec fn named(name: Seq<char>) -> Expr {
    Expr::Name(name)
}

pub open spec fn number(n: nat) -> Expr {
    Expr::Number(n)
}

pub open spec fn group(e: Expr) -> Expr {
    Expr::Group(Box::new(e))
}

pub open spec fn binary(op: Operator, a: Expr, b: Expr) -> Expr {
    Expr::Binary(op, Box::new(a), Box::new(b))
}

pub open spec fn choice(c: Expr, a: Expr, b: Expr) -> Expr {
    Expr::Choice(Box::new(c), Box::new(a), Box::new(b))
}

/// A declaration in a part of a source is one of the source.
pub proof fn law_parts_declare(
    whole: Seq<char>,
    part: Seq<char>,
    name: Seq<char>,
    names: Map<Seq<char>, int>,
    expected: int,
)
    requires
        text::contains(whole, part),
        declares(part, name, names, expected),
    ensures
        declares(whole, name, names, expected),
{
    reveal(declares);
    let e = choose|e: Expr|
        comes_to(e, names, expected) && text::contains(part, #[trigger] declaration(name, e));
    text::law_containment_is_transitive(whole, part, declaration(name, e));
}

/// What a loop over lanes does with each lane.
pub enum Step {
    Add,
    Multiply,
    Least,
    Greatest,
}

impl Step {
    /// The statement that takes in a value.
    pub open spec fn statement(self, taken: Seq<char>) -> Seq<char> {
        match self {
            Step::Add => "acc += "@ + taken,
            Step::Multiply => "acc *= "@ + taken,
            Step::Least => "acc = min(acc, "@ + taken + ")"@,
            Step::Greatest => "acc = max(acc, "@ + taken + ")"@,
        }
    }

    pub open spec fn result(self, acc: int, taken: int) -> int {
        match self {
            Step::Add => acc + taken,
            Step::Multiply => acc * taken,
            Step::Least => if taken < acc {
                taken
            } else {
                acc
            },
            Step::Greatest => if acc < taken {
                taken
            } else {
                acc
            },
        }
    }
}

/// Which lanes a loop takes in.
pub enum Guard {
    All,
    UpToOwn,
    BeforeOwn,
}

impl Guard {
    pub open spec fn condition(self) -> Seq<char> {
        match self {
            Guard::All => ""@,
            Guard::UpToOwn => "if (tt_lane <= unit_pos_plane) "@,
            Guard::BeforeOwn => "if (tt_lane < unit_pos_plane) "@,
        }
    }

    pub open spec fn admits(self, lane: int, own: int) -> bool {
        match self {
            Guard::All => true,
            Guard::UpToOwn => lane <= own,
            Guard::BeforeOwn => lane < own,
        }
    }
}

/// A loop over the lanes of a plane: it starts with a number, or with what the first lane
/// holds, and takes in the lanes from `from` on.
pub struct LaneLoop {
    pub start: Option<nat>,
    pub from: nat,
    pub guard: Guard,
    pub step: Step,
}

impl LaneLoop {
    /// The text of the loop, where `first` reads the first lane and `each` the lane that the
    /// loop is at.
    pub open spec fn shown(self, elem: Seq<char>, first: Seq<char>, each: Seq<char>) -> Seq<char> {
        "([&]() -> "@ + elem + " { "@ + elem + " acc = "@ + (match self.start {
            Some(n) => text::dec(n),
            None => first,
        }) + "; for (uint32_t tt_lane = "@ + text::dec(self.from)
            + "; tt_lane < plane_dim_checked; ++tt_lane) { "@ + self.guard.condition()
            + self.step.statement(each) + "; } return acc; })()"@
    }

    /// What the loop has before lane `to`, in the unit of lane `own`.
    pub open spec fn before(self, lanes: Seq<int>, own: int, to: nat) -> int
        decreases to,
    {
        if to <= self.from {
            match self.start {
                Some(n) => n as int,
                None => lanes[0],
            }
        } else {
            let acc = self.before(lanes, own, (to - 1) as nat);
            if self.guard.admits(to - 1, own) {
                self.step.result(acc, lanes[to - 1])
            } else {
                acc
            }
        }
    }

    /// What the loop makes of the lanes of a plane, in the unit of lane `own`.
    pub open spec fn result(self, lanes: Seq<int>, own: int) -> int {
        self.before(lanes, own, lanes.len())
    }
}

/// Whether an expression is a loop that comes to the given value where the lanes of the
/// plane hold the given numbers.
pub open spec fn loops_to(
    expression: Seq<char>,
    elem: Seq<char>,
    first: Seq<char>,
    each: Seq<char>,
    lanes: Seq<int>,
    own: int,
    expected: int,
) -> bool {
    exists|l: LaneLoop|
        expression == #[trigger] l.shown(elem, first, each) && l.result(lanes, own) == expected
}

/// The sum of some numbers.
pub open spec fn sum(numbers: Seq<int>) -> int {
    numbers.fold_left(0int, |a: int, b: int| a + b)
}

/// The product of some numbers.
pub open spec fn product(numbers: Seq<int>) -> int {
    numbers.fold_left(1int, |a: int, b: int| a * b)
}

/// A loop that adds up what it takes in comes to the sum, and one that multiplies to the
/// product.
pub proof fn law_loops_add_and_multiply(l: LaneLoop, lanes: Seq<int>, own: int, to: nat)
    requires
        l.guard is All,
        l.start is None && l.from == 1 || l.from == 0 && (l.step is Add && l.start == Some(0nat)
            || l.step is Multiply && l.start == Some(1nat)),
        0 < to <= lanes.len(),
    ensures
        l.step is Add ==> l.before(lanes, own, to) == sum(lanes.take(to as int)),
        l.step is Multiply ==> l.before(lanes, own, to) == product(lanes.take(to as int)),
    decreases to,
{
    let taken = lanes.take(to as int);
    assert(taken.drop_last() =~= lanes.take(to - 1));
    assert(taken.last() == lanes[to - 1]);
    if to == 1 {
        assert(taken.drop_last() =~= Seq::<int>::empty());
        reveal_with_fuel(Seq::fold_left, 3);
        reveal_with_fuel(LaneLoop::before, 3);
        assert(sum(taken) == lanes[0]);
        assert(product(taken) == lanes[0]);
    } else {
        law_loops_add_and_multiply(l, lanes, own, (to - 1) as nat);
        reveal_with_fuel(Seq::fold_left, 2);
    }
}

/// A guarded loop is the loop over the lanes that the guard admits.
pub proof fn law_guards_cut_off(l: LaneLoop, lanes: Seq<int>, own: int, to: nat)
    requires
        !(l.guard is All),
        l.from == 0,
        l.start is Some,
        0 <= own,
        to <= lanes.len(),
    ensures
        ({
            let admitted = if l.guard is UpToOwn {
                own + 1
            } else {
                own
            };
            l.before(lanes, own, to) == LaneLoop { guard: Guard::All, ..l }.before(
                lanes,
                own,
                if to <= admitted {
                    to
                } else {
                    admitted as nat
                },
            )
        }),
    decreases to,
{
    if to > 0 {
        law_guards_cut_off(l, lanes, own, (to - 1) as nat);
    }
}

/// A loop that keeps the smaller value comes to the least of the lanes, and one that keeps
/// the greater value to the greatest.
pub proof fn law_loops_find_the_extremes(l: LaneLoop, lanes: Seq<int>, own: int, to: nat)
    requires
        l.guard is All,
        l.start is None,
        l.from == 1,
        l.step is Least || l.step is Greatest,
        0 < to <= lanes.len(),
    ensures
        ({
            let found = l.before(lanes, own, to);
            &&& exists|i: int| 0 <= i < to && #[trigger] lanes[i] == found
            &&& l.step is Least ==> forall|i: int| 0 <= i < to ==> found <= #[trigger] lanes[i]
            &&& l.step is Greatest ==> forall|i: int| 0 <= i < to ==> found >= #[trigger] lanes[i]
        }),
    decreases to,
{
    if to == 1 {
        assert(l.before(lanes, own, 1) == lanes[0]);
    } else {
        law_loops_find_the_extremes(l, lanes, own, (to - 1) as nat);
        assert(lanes[to - 1] == lanes[to - 1]);
    }
}

/// The locals of an expression, and what they are set to.
pub open spec fn shown_locals(locals: Seq<(Seq<char>, Expr)>) -> Seq<char>
    decreases locals.len(),
{
    if locals.len() == 0 {
        ""@
    } else {
        "uint32_t "@ + locals[0].0 + " = "@ + shown(locals[0].1) + "; "@ + shown_locals(
            locals.skip(1),
        )
    }
}

/// The values of the names behind some locals.
pub open spec fn behind_locals(
    locals: Seq<(Seq<char>, Expr)>,
    names: Map<Seq<char>, int>,
) -> Map<Seq<char>, int>
    decreases locals.len(),
{
    if locals.len() == 0 {
        names
    } else {
        behind_locals(locals.skip(1), names.insert(locals[0].0, value(locals[0].1, names)))
    }
}

/// An expression that returns one thing where a condition holds, and else another.
pub open spec fn shown_pick(
    elem: Seq<char>,
    locals: Seq<(Seq<char>, Expr)>,
    condition: Expr,
    chosen: Seq<char>,
    other: Seq<char>,
) -> Seq<char> {
    "([&]() -> "@ + elem + " { "@ + shown_locals(locals) + "if ("@ + shown(condition) + ") return "@
        + chosen + "; return "@ + other + "; })()"@
}

} // verus!
