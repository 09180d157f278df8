//! Integer coordinates, of a parcel in the world or of a cell in a parcel.

use vstd::prelude::*;
use vstd::string::StringExecFns;

verus! {

/// A coordinate pair.
#[derive(PartialEq, Eq, Structural, Hash, Copy, Clone, Debug)]
pub struct Pos {
    pub x: i32,
    pub y: i32,
}

/// `From::from` of a type for itself, which the standard library documents as
/// returning the argument unchanged.
pub assume_specification<Whole>[ <Whole as std::convert::From<Whole>>::from ](it: Whole) -> (same:
    Whole)
    ensures
        same == it,
;

/// The character of a decimal digit.
pub open spec fn digit(d: int) -> char {
    if d == 0 {
        '0'
    } else if d == 1 {
        '1'
    } else if d == 2 {
        '2'
    } else if d == 3 {
        '3'
    } else if d == 4 {
        '4'
    } else if d == 5 {
        '5'
    } else if d == 6 {
        '6'
    } else if d == 7 {
        '7'
    } else if d == 8 {
        '8'
    } else {
        '9'
    }
}

/// The decimal digits of a natural number, without leading zeros.
pub open spec fn digits(n: nat) -> Seq<char>
    decreases n,
{
    if n < 10 {
        seq![digit(n as int)]
    } else {
        digits(n / 10).push(digit((n % 10) as int))
    }
}

/// An integer written in decimal, with a minus sign where it is negative.
pub open spec fn decimal(n: int) -> Seq<char> {
    if n < 0 {
        seq!['-'] + digits((-n) as nat)
    } else {
        digits(n as nat)
    }
}

/// Appends the decimal digits of `n` to `text`.
fn push_digits(text: &mut String, n: u32)
    ensures
        final(text)@ == old(text)@ + digits(n as nat),
    decreases n,
{
    if n >= 10 {
        push_digits(text, n / 10);
    }
    let d: u32 = n % 10;
    let mark: &str = if d == 0 {
        "0"
    } else if d == 1 {
        "1"
    } else if d == 2 {
        "2"
    } else if d == 3 {
        "3"
    } else if d == 4 {
        "4"
    } else if d == 5 {
        "5"
    } else if d == 6 {
        "6"
    } else if d == 7 {
        "7"
    } else if d == 8 {
        "8"
    } else {
        "9"
    };
    proof {
        reveal_strlit("0");
        reveal_strlit("1");
        reveal_strlit("2");
        reveal_strlit("3");
        reveal_strlit("4");
        reveal_strlit("5");
        reveal_strlit("6");
        reveal_strlit("7");
        reveal_strlit("8");
        reveal_strlit("9");
        assert(mark@ =~= seq![digit(d as int)]);
    }
    text.append(mark);
    assert(text@ =~= old(text)@ + digits(n as nat));
}

/// Appends `n`, written in decimal, to `text`.
pub fn push_decimal(text: &mut String, n: i32)
    ensures
        final(text)@ == old(text)@ + decimal(n as int),
{
    if n < 0 {
        proof {
            reveal_strlit("-");
        }
        text.append("-");
        let size: u32 = (-(n as i64)) as u32;
        push_digits(text, size);
        assert(text@ =~= old(text)@ + decimal(n as int));
    } else {
        push_digits(text, n as u32);
    }
}

/// The larger of the two distances from the origin along the axes.
pub open spec fn chebyshev(x: int, y: int) -> int {
    let ax = if x < 0 {
        -x
    } else {
        x
    };
    let ay = if y < 0 {
        -y
    } else {
        y
    };
    if ax < ay {
        ay
    } else {
        ax
    }
}

/// The price of the parcel at `(x, y)`: the cube of its distance from the
/// origin plus one, times a hundred.
pub open spec fn price(x: int, y: int) -> int {
    let d = chebyshev(x, y) + 1;
    d * d * d * 100
}

/// The farther a parcel lies from the origin, the more it costs.
pub proof fn lemma_price_grows(x1: int, y1: int, x2: int, y2: int)
    requires
        chebyshev(x1, y1) <= chebyshev(x2, y2),
    ensures
        price(x1, y1) <= price(x2, y2),
        price(x1, y1) >= 100,
{
    let a = chebyshev(x1, y1) + 1;
    let b = chebyshev(x2, y2) + 1;
    assert(1 <= a <= b);
    assert(a * a * a * 100 <= b * b * b * 100 && a * a * a * 100 >= 100) by (nonlinear_arith)
        requires
            1 <= a <= b,
    ;
}

/// Whether `(x, y)` is an orthogonal neighbor of `p`.
pub open spec fn adjoins_at(p: Pos, x: int, y: int) -> bool {
    (p.y == y && (p.x - x == 1 || x - p.x == 1)) || (p.x == x && (p.y - y == 1 || y - p.y == 1))
}

/// Whether the two positions are orthogonal neighbors.
pub open spec fn adjoins(p: Pos, q: Pos) -> bool {
    adjoins_at(p, q.x as int, q.y as int)
}

impl Pos {
    /// The text of each position: both coordinates in decimal, in brackets.
    pub open spec fn text(self) -> Seq<char> {
        seq!['('] + decimal(self.x as int) + seq![','] + decimal(self.y as int) + seq![')']
    }

    /// Whether both coordinates have a predecessor and a successor.
    pub open spec fn inner(self) -> bool {
        i32::MIN < self.x < i32::MAX && i32::MIN < self.y < i32::MAX
    }

    /// The position from two numbers.
    pub fn new<T: Into<i32>>(x: T, y: T) -> (p: Pos)
        ensures
            call_ensures(<T as Into<i32>>::into, (x,), p.x),
            call_ensures(<T as Into<i32>>::into, (y,), p.y),
    {
        Pos { x: x.into(), y: y.into() }
    }

    /// The position as text.
    pub fn to_string(&self) -> (s: String)
        ensures
            s@ == self.text(),
    {
        proof {
            reveal_strlit("(");
            reveal_strlit(",");
            reveal_strlit(")");
        }
        let mut s = "(".to_owned();
        push_decimal(&mut s, self.x);
        s.append(",");
        push_decimal(&mut s, self.y);
        s.append(")");
        assert(s@ =~= self.text());
        s
    }

    /// The sum of the two positions.
    pub fn added(&self, other: Pos) -> (p: Pos)
        requires
            i32::MIN <= self.x + other.x <= i32::MAX,
            i32::MIN <= self.y + other.y <= i32::MAX,
        ensures
            p.x == self.x + other.x,
            p.y == self.y + other.y,
    {
        Pos { x: self.x + other.x, y: self.y + other.y }
    }

    /// The four orthogonal neighbors, then the position itself.
    pub fn get_adjacent(&self) -> (around: [Pos; 5])
        requires
            self.inner(),
        ensures
            around[0] == (Pos { x: (self.x - 1) as i32, y: self.y }),
            around[1] == (Pos { x: (self.x + 1) as i32, y: self.y }),
            around[2] == (Pos { x: self.x, y: (self.y - 1) as i32 }),
            around[3] == (Pos { x: self.x, y: (self.y + 1) as i32 }),
            around[4] == *self,
            forall|q: Pos|
                adjoins(*self, q) <==> (q == around[0] || q == around[1] || q == around[2] || q
                    == around[3]),
    {
        [
            self.added(Pos { x: -1, y: 0 }),
            self.added(Pos { x: 1, y: 0 }),
            self.added(Pos { x: 0, y: -1 }),
            self.added(Pos { x: 0, y: 1 }),
            *self,
        ]
    }

    /// What the parcel at this position costs, or `None` where the price is
    /// more than an `i32` can hold (and so more than any balance).
    pub fn cost(&self) -> (c: Option<i32>)
        ensures
            c == if price(self.x as int, self.y as int) <= i32::MAX {
                Some(price(self.x as int, self.y as int) as i32)
            } else {
                None
            },
    {
        let ax: i64 = if self.x < 0 {
            -(self.x as i64)
        } else {
            self.x as i64
        };
        let ay: i64 = if self.y < 0 {
            -(self.y as i64)
        } else {
            self.y as i64
        };
        let d: i64 = if ax < ay {
            ay + 1
        } else {
            ax + 1
        };
        if d > 277 {
            assert(d * d * d * 100 > i32::MAX) by (nonlinear_arith)
                requires
                    d >= 278,
            ;
            None
        } else {
            assert(0 <= d * d <= 277 * 277 && 0 <= d * d * d <= 277 * 277 * 277) by (nonlinear_arith)
                requires
                    1 <= d <= 277,
            ;
            Some((d * d * d * 100) as i32)
        }
    }
}

impl Default for Pos {
    /// The origin.
    fn default() -> (p: Pos)
        ensures
            p == (Pos { x: 0, y: 0 }),
    {
        Pos { x: 0, y: 0 }
    }
}

} // verus!
