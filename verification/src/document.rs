//! The document model: a JSON value tree as the selection engine reads it.
//!
//! The engine never builds or changes a document. It borrows one per input
//! line and hands back references to parts of it.

use vstd::prelude::*;

verus! {

/// Ten to the power `e`.
pub open spec fn power_of_ten(e: nat) -> nat
    decreases e,
{
    if e == 0 {
        1
    } else {
        10 * power_of_ten((e - 1) as nat)
    }
}

/// A higher power of ten is at least ten times a lower one.
pub proof fn lemma_power_of_ten_grows(low: nat, high: nat)
    requires
        low < high,
    ensures
        power_of_ten(high) >= 10 * power_of_ten(low),
        power_of_ten(low) >= 1,
    decreases high,
{
    if low > 0 {
        lemma_power_of_ten_grows((low - 1) as nat, low);
    }
    if high - 1 > low {
        lemma_power_of_ten_grows(low, (high - 1) as nat);
    }
}

/// A JSON number in decimal scientific form: `mantissa × 10^exponent`, with
/// a sign. The same number has many such forms (`30`, `300e-1`, `3e1`).
#[derive(Clone, Copy, Debug, PartialEq, Eq)]
pub struct JsonNumber {
    pub positive: bool,
    pub mantissa: u64,
    pub exponent: i16,
}

impl JsonNumber {
    /// The mantissa with the sign applied.
    pub open spec fn signed_mantissa(self) -> int {
        if self.positive {
            self.mantissa as int
        } else {
            -(self.mantissa as int)
        }
    }

    /// The number is exactly the integer `value`. A number with a fractional
    /// part is no integer, so nothing is denoted by it.
    pub open spec fn denotes(self, value: int) -> bool {
        if self.exponent >= 0 {
            self.signed_mantissa() * power_of_ten(self.exponent as nat) == value
        } else {
            self.signed_mantissa() == value * power_of_ten((-self.exponent) as nat)
        }
    }

    /// The number `value`, with exponent zero.
    pub fn from_integer(value: i64) -> (number: JsonNumber)
        ensures
            number.positive == (value >= 0),
            number.mantissa == (if value >= 0 { value as int } else { -(value as int) }),
            number.exponent == 0,
            number.denotes(value as int),
    {
        let wide: i128 = value as i128;
        let mantissa: u64 = if wide < 0 { (-wide) as u64 } else { wide as u64 };
        let number = JsonNumber { positive: value >= 0, mantissa, exponent: 0 };
        proof {
            assert(power_of_ten(0) == 1);
            assert(number.signed_mantissa() == value);
            assert(number.signed_mantissa() * 1 == value);
        }
        number
    }

    /// Whether the number is exactly the integer `value`.
    pub fn equals_integer(&self, value: i64) -> (same: bool)
        ensures
            same == self.denotes(value as int),
    {
        let exponent: i32 = self.exponent as i32;
        let steps: u32 = if exponent >= 0 { exponent as u32 } else { (-exponent) as u32 };
        let ghost scale = power_of_ten(steps as nat);
        proof {
            if steps > 0 {
                lemma_power_of_ten_grows(0, steps as nat);
            }
            assert(scale >= 1);
        }
        let wide: i128 = value as i128;
        let magnitude: u128 = if wide < 0 { (-wide) as u128 } else { wide as u128 };
        let mantissa: u128 = self.mantissa as u128;
        if self.mantissa == 0 {
            assert(0 * scale == 0);
            proof {
                if value != 0 && exponent < 0 {
                    assert(value * scale != 0) by (nonlinear_arith)
                        requires
                            value != 0,
                            scale >= 1,
                    ;
                }
            }
            return value == 0;
        }
        if value == 0 {
            proof {
                assert(0 * scale == 0);
                assert(self.signed_mantissa() * scale != 0) by (nonlinear_arith)
                    requires
                        self.signed_mantissa() != 0,
                        scale >= 1,
                ;
            }
            return false;
        }
        if self.positive != (value > 0) {
            proof {
                let m = self.signed_mantissa();
                let v = value as int;
                assert(m * scale != v && m != v * scale) by (nonlinear_arith)
                    requires
                        scale >= 1,
                        (m > 0 && v < 0) || (m < 0 && v > 0),
                ;
            }
            return false;
        }
        let (small, big) = if exponent >= 0 {
            (mantissa, magnitude)
        } else {
            (magnitude, mantissa)
        };
        proof {
            let m = self.signed_mantissa();
            let v = value as int;
            assert((m * scale == v) == (mantissa * scale == magnitude) && (m == v * scale) == (
            mantissa == magnitude * scale)) by (nonlinear_arith)
                requires
                    (m == mantissa && v == magnitude) || (m == -mantissa && v == -magnitude),
            ;
        }
        assert(self.denotes(value as int) == (small * scale == big));
        if small > big {
            proof {
                assert(small * scale > big) by (nonlinear_arith)
                    requires
                        small > big,
                        scale >= 1,
                ;
            }
            return false;
        }
        assert(power_of_ten(0) == 1);
        let mut current: u128 = small;
        let mut done: u32 = 0;
        while done < steps
            invariant
                done <= steps,
                1 <= small,
                scale == power_of_ten(steps as nat),
                self.denotes(value as int) == (small * scale == big),
                current == small * power_of_ten(done as nat),
                current <= big,
                big < 0x1_0000_0000_0000_0000,
            decreases steps - done,
        {
            if current > big / 10 {
                proof {
                    lemma_power_of_ten_grows(done as nat, steps as nat);
                    let reached = power_of_ten(done as nat);
                    assert(small * scale > big) by (nonlinear_arith)
                        requires
                            scale >= 10 * reached,
                            small * reached * 10 > big,
                            small >= 1,
                    ;
                }
                return false;
            }
            proof {
                assert(small * power_of_ten((done + 1) as nat) == small * power_of_ten(
                    done as nat,
                ) * 10) by (nonlinear_arith)
                    requires
                        power_of_ten((done + 1) as nat) == 10 * power_of_ten(done as nat),
                ;
            }
            current = current * 10;
            done += 1;
        }
        current == big
    }
}

/// One member of an object: a name and the value stored under it.
#[derive(Debug, PartialEq, Eq)]
pub struct Member {
    pub name: String,
    pub value: Json,
}

/// A JSON value. An object keeps its members in insertion order. The members
/// of an object that was decoded from text have distinct names; where two
/// members share a name, the first of them is the one that is found.
#[derive(Debug, PartialEq, Eq)]
pub enum Json {
    Null,
    Boolean(bool),
    Number(JsonNumber),
    String(String),
    Array(Vec<Json>),
    Object(Vec<Member>),
}

/// The value of the first member called `name`, if there is one.
pub open spec fn member_named(members: Seq<Member>, name: Seq<char>) -> Option<Json>
    decreases members.len(),
{
    if members.len() == 0 {
        None
    } else if members[0].name@ == name {
        Some(members[0].value)
    } else {
        member_named(members.drop_first(), name)
    }
}

/// No two members share a name.
pub open spec fn distinct_names(members: Seq<Member>) -> bool {
    forall|i: int, j: int|
        0 <= i < j < members.len() ==> (#[trigger] members[i]).name@ != (
        #[trigger] members[j]).name@
}

/// Where no two members share a name, the member called `name` is found
/// wherever it stands among the others.
pub proof fn lemma_member_named_is_the_one(members: Seq<Member>, name: Seq<char>, at: int)
    requires
        distinct_names(members),
        0 <= at < members.len(),
        members[at].name@ == name,
    ensures
        member_named(members, name) == Some(members[at].value),
    decreases members.len(),
{
    if at > 0 {
        let rest = members.drop_first();
        assert(members[0].name@ != members[at].name@);
        assert forall|i: int, j: int| 0 <= i < j < rest.len() implies (#[trigger] rest[i]).name@ != (
        #[trigger] rest[j]).name@ by {
            assert(rest[i] == members[i + 1]);
            assert(rest[j] == members[j + 1]);
        }
        assert(rest[at - 1] == members[at]);
        lemma_member_named_is_the_one(rest, name, at - 1);
    }
}

impl Json {
    /// The child nodes of a value, in document order: the elements of an
    /// array, the member values of an object, nothing for a scalar.
    pub open spec fn children(self) -> Seq<Json> {
        match self {
            Json::Array(elements) => elements@,
            Json::Object(members) => members@.map_values(|m: Member| m.value),
            _ => Seq::empty(),
        }
    }

    /// The node reached from this one by taking, at each level, the child at
    /// the given position. The empty path reaches the node itself.
    pub open spec fn descend(self, path: Seq<int>) -> Option<Json>
        decreases path.len(),
    {
        if path.len() == 0 {
            Some(self)
        } else if 0 <= path[0] < self.children().len() {
            self.children()[path[0]].descend(path.drop_first())
        } else {
            None
        }
    }

    /// The member of an object called `name`.
    pub fn member<'a>(&'a self, name: &str) -> (found: Option<&'a Json>)
        ensures
            match self {
                Json::Object(members) => match member_named(members@, name@) {
                    Some(value) => found == Some(&value),
                    None => found is None,
                },
                _ => found is None,
            },
    {
        match self {
            Json::Object(members) => {
                let mut i: usize = 0;
                assert(members@.skip(0) =~= members@);
                while i < members.len()
                    invariant
                        i <= members.len(),
                        *self == Json::Object(*members),
                        member_named(members@, name@) == member_named(
                            members@.skip(i as int),
                            name@,
                        ),
                    decreases members.len() - i,
                {
                    proof {
                        let rest = members@.skip(i as int);
                        assert(rest[0] == members@[i as int]);
                        assert(rest.drop_first() =~= members@.skip(i + 1));
                    }
                    if crate::text::str_equal(members[i].name.as_str(), name) {
                        assert(member_named(members@.skip(i as int), name@) == Some(
                            members@[i as int].value,
                        ));
                        return Some(&members[i].value);
                    }
                    i += 1;
                }
                None
            },
            _ => None,
        }
    }
}

} // verus!
