use vstd::prelude::*;
use core::cmp::Ordering;

verus! {

/// A runtime value of the language: a number (a 64-bit signed integer),
/// a string, a boolean, nil, a handle to a callable (an index into the
/// interpreter's callable table, so that equality of handles is identity
/// of the underlying function value), or the internal sentinel used to
/// signal a type mismatch while evaluating a binary operator. The sentinel
/// is never stored in a variable and never printed.
#[derive(Debug)]
pub enum Object {
    Num(i64),
    Str(String),
    Bool(bool),
    Nil,
    Callable(usize),
    ArithmeticError,
}

/// The decimal digits of `n`, most significant first.
pub open spec fn dec_digits(n: nat) -> Seq<char>
    decreases n,
{
    if n < 10 {
        seq![digit_char(n as int)]
    } else {
        dec_digits(n / 10) + seq![digit_char((n % 10) as int)]
    }
}

pub open spec fn digit_char(d: int) -> char {
    if d == 0 { '0' }
    else if d == 1 { '1' }
    else if d == 2 { '2' }
    else if d == 3 { '3' }
    else if d == 4 { '4' }
    else if d == 5 { '5' }
    else if d == 6 { '6' }
    else if d == 7 { '7' }
    else if d == 8 { '8' }
    else { '9' }
}

/// The default decimal rendering of a number.
pub open spec fn num_text(n: int) -> Seq<char> {
    if n >= 0 {
        dec_digits(n as nat)
    } else {
        seq!['-'] + dec_digits((-n) as nat)
    }
}

/// The textual rendering a `print` statement writes: numbers in decimal,
/// strings raw, booleans as `true`/`false`, nil as `nil`, and a callable
/// handle as the opaque text `<callable>`.
pub open spec fn obj_text(o: Object) -> Seq<char> {
    match o {
        Object::Num(n) => num_text(n as int),
        Object::Str(s) => s@,
        Object::Bool(b) => if b { "true"@ } else { "false"@ },
        Object::Nil => "nil"@,
        Object::Callable(_) => "<callable>"@,
        Object::ArithmeticError => Seq::empty(),
    }
}

fn digit_str(d: u64) -> (r: &'static str)
    requires
        d < 10,
    ensures
        r@ == seq![digit_char(d as int)],
{
    proof {
        reveal_strlit("0");
        reveal_strlit("1");
        reveal_strlit("2");
        reveal_strlit("3");
        reveal_strlit("4");
        reveal_strlit("5");
        reveal_strlit("6");
        reveal_strlit("7");
        reveal_strlit("8");
        reveal_strlit("9");
    }
    match d {
        0 => "0",
        1 => "1",
        2 => "2",
        3 => "3",
        4 => "4",
        5 => "5",
        6 => "6",
        7 => "7",
        8 => "8",
        _ => "9",
    }
}

pub fn push_digits_u64(s: &mut String, n: u64)
    ensures
        final(s)@ == old(s)@ + dec_digits(n as nat),
    decreases n,
{
    if n >= 10 {
        push_digits_u64(s, n / 10);
    }
    s.append(digit_str(n % 10));
    proof {
        assert(s@ =~= old(s)@ + dec_digits(n as nat));
    }
}

/// The decimal text of a number, sign included.
pub fn num_to_text(n: i64) -> (r: String)
    ensures
        r@ == num_text(n as int),
{
    let mut s = String::new();
    if n < 0 {
        proof {
            reveal_strlit("-");
        }
        s.append("-");
        let mag: u64 = (-(n as i128)) as u64;
        push_digits_u64(&mut s, mag);
        proof {
            assert(s@ =~= num_text(n as int));
        }
    } else {
        push_digits_u64(&mut s, n as u64);
    }
    s
}

impl Object {
    /// Truthiness: nil and false are falsy; every other value, including
    /// the number zero and the empty string, is truthy.
    pub fn is_truthy(&self) -> (r: bool)
        ensures
            r == self.truthy(),
    {
        match self {
            Object::Bool(b) => *b,
            Object::Nil => false,
            _ => true,
        }
    }

    pub open spec fn truthy(&self) -> bool {
        !(*self == Object::Nil || *self == Object::Bool(false))
    }

    /// A copy of the value, equal to the original.
    pub fn dup(&self) -> (r: Object)
        ensures
            r == *self,
    {
        match self {
            Object::Num(n) => Object::Num(*n),
            Object::Str(s) => Object::Str(s.clone()),
            Object::Bool(b) => Object::Bool(*b),
            Object::Nil => Object::Nil,
            Object::Callable(i) => Object::Callable(*i),
            Object::ArithmeticError => Object::ArithmeticError,
        }
    }

    /// The rendering used by `print`.
    pub fn to_text(&self) -> (r: String)
        requires
            !(*self is ArithmeticError),
        ensures
            r@ == obj_text(*self),
    {
        match self {
            Object::Num(n) => num_to_text(*n),
            Object::Str(s) => s.clone(),
            Object::Bool(b) => {
                proof {
                    reveal_strlit("true");
                    reveal_strlit("false");
                }
                if *b {
                    String::from_str("true")
                } else {
                    String::from_str("false")
                }
            },
            Object::Nil => String::from_str("nil"),
            Object::Callable(_) => String::from_str("<callable>"),
            Object::ArithmeticError => String::new(),
        }
    }

    /// Numeric addition (wrapping on 64-bit overflow) and string
    /// concatenation; any other pairing yields the mismatch sentinel.
    pub fn add(self, rhs: Object) -> (r: Object)
        ensures
            spec_add_rel(self, rhs, r),
    {
        match (self, rhs) {
            (Object::Num(l), Object::Num(r)) => Object::Num(l.wrapping_add(r)),
            (Object::Str(l), Object::Str(r)) => Object::Str(l.concat(r.as_str())),
            _ => Object::ArithmeticError,
        }
    }

    /// Numeric subtraction (wrapping); any other pairing yields the sentinel.
    pub fn sub(self, rhs: Object) -> (r: Object)
        ensures
            r == spec_sub(self, rhs),
    {
        match (self, rhs) {
            (Object::Num(l), Object::Num(r)) => Object::Num(l.wrapping_sub(r)),
            _ => Object::ArithmeticError,
        }
    }

    /// Numeric multiplication (wrapping); any other pairing yields the sentinel.
    pub fn mul(self, rhs: Object) -> (r: Object)
        ensures
            r == spec_mul(self, rhs),
    {
        match (self, rhs) {
            (Object::Num(l), Object::Num(r)) => Object::Num(l.wrapping_mul(r)),
            _ => Object::ArithmeticError,
        }
    }

    /// Numeric division, truncating toward zero; division by zero and any
    /// non-numeric pairing yield the sentinel.
    pub fn div(self, rhs: Object) -> (r: Object)
        ensures
            r == spec_div(self, rhs),
    {
        match (self, rhs) {
            (Object::Num(l), Object::Num(r)) => {
                match l.checked_div(r) {
                    Some(q) => Object::Num(q),
                    None => {
                        if r == 0 {
                            Object::ArithmeticError
                        } else {
                            proof {
                                if !(l == i64::MIN && r == -1) {
                                    lemma_checked_div_some(l, r);
                                }
                            }
                            Object::Num(i64::MIN)
                        }
                    },
                }
            },
            _ => Object::ArithmeticError,
        }
    }
}

pub open spec fn wrap_add(l: i64, r: i64) -> i64 {
    l.wrapping_add(r)
}

pub open spec fn wrap_sub(l: i64, r: i64) -> i64 {
    l.wrapping_sub(r)
}

pub open spec fn wrap_mul(l: i64, r: i64) -> i64 {
    l.wrapping_mul(r)
}

/// Truncating division, wrapping on the one overflowing case.
pub open spec fn wrap_div(l: i64, r: i64) -> i64
    recommends
        r != 0,
{
    if l == i64::MIN && r == -1 {
        i64::MIN
    } else {
        match l.checked_div(r) {
            Some(q) => q,
            None => 0,
        }
    }
}

/// What `add` returns: the sum of two numbers, the concatenation of two
/// strings, and the mismatch sentinel for every other pairing.
pub open spec fn spec_add_rel(l: Object, r: Object, out: Object) -> bool {
    match (l, r) {
        (Object::Num(a), Object::Num(b)) => out == Object::Num(wrap_add(a, b)),
        (Object::Str(a), Object::Str(b)) => out matches Object::Str(s) && s@ == a@ + b@,
        _ => out == Object::ArithmeticError,
    }
}

/// Division of one 64-bit integer by another nonzero one only overflows on
/// `i64::MIN / -1`, so `checked_div` returns a quotient in every other case.
pub proof fn lemma_checked_div_some(l: i64, r: i64)
    requires
        r != 0,
        !(l == i64::MIN && r == -1),
    ensures
        l.checked_div(r) is Some,
{
    let x = l as int;
    let d = r as int;
    if x > 0 && d > 0 {
        vstd::arithmetic::div_mod::lemma_div_pos_is_pos(x, d);
        vstd::arithmetic::div_mod::lemma_div_nonincreasing(x, d);
    } else if x < 0 && d < 0 {
        vstd::arithmetic::div_mod::lemma_div_pos_is_pos(-x, -d);
        if -x <= i64::MAX {
            vstd::arithmetic::div_mod::lemma_div_nonincreasing(-x, -d);
        } else {
            vstd::arithmetic::div_mod::lemma_div_decreases(-x, -d);
        }
    } else if x < 0 {
        vstd::arithmetic::div_mod::lemma_div_pos_is_pos(-x, d);
        vstd::arithmetic::div_mod::lemma_div_nonincreasing(-x, d);
    } else if x > 0 {
        vstd::arithmetic::div_mod::lemma_div_pos_is_pos(x, -d);
        vstd::arithmetic::div_mod::lemma_div_nonincreasing(x, -d);
    }
}

pub open spec fn spec_sub(l: Object, r: Object) -> Object {
    match (l, r) {
        (Object::Num(a), Object::Num(b)) => Object::Num(wrap_sub(a, b)),
        _ => Object::ArithmeticError,
    }
}

pub open spec fn spec_mul(l: Object, r: Object) -> Object {
    match (l, r) {
        (Object::Num(a), Object::Num(b)) => Object::Num(wrap_mul(a, b)),
        _ => Object::ArithmeticError,
    }
}

pub open spec fn spec_div(l: Object, r: Object) -> Object {
    match (l, r) {
        (Object::Num(a), Object::Num(b)) => {
            if b == 0 {
                Object::ArithmeticError
            } else {
                Object::Num(wrap_div(a, b))
            }
        },
        _ => Object::ArithmeticError,
    }
}

impl PartialEq for Object {
    /// Equality per operand-type pair: numbers numerically, strings
    /// textually, booleans and nil structurally, callables by identity
    /// of their handle.
    fn eq(&self, other: &Object) -> (r: bool) {
        match (self, other) {
            (Object::Num(l), Object::Num(r)) => *l == *r,
            (Object::Str(l), Object::Str(r)) => *l == *r,
            (Object::Bool(l), Object::Bool(r)) => *l == *r,
            (Object::Nil, Object::Nil) => true,
            (Object::Callable(l), Object::Callable(r)) => *l == *r,
            (Object::ArithmeticError, Object::ArithmeticError) => true,
            _ => false,
        }
    }
}

impl vstd::std_specs::cmp::PartialEqSpecImpl for Object {
    open spec fn obeys_eq_spec() -> bool {
        true
    }

    open spec fn eq_spec(&self, other: &Object) -> bool {
        match (*self, *other) {
            (Object::Num(l), Object::Num(r)) => l == r,
            (Object::Str(l), Object::Str(r)) => l@ == r@,
            (Object::Bool(l), Object::Bool(r)) => l == r,
            (Object::Nil, Object::Nil) => true,
            (Object::Callable(l), Object::Callable(r)) => l == r,
            (Object::ArithmeticError, Object::ArithmeticError) => true,
            _ => false,
        }
    }
}

impl PartialOrd for Object {
    /// Ordering is defined for two numbers (numerically) and for nil
    /// against nil (equal); every other pairing is unordered.
    fn partial_cmp(&self, other: &Object) -> (r: Option<Ordering>) {
        match (self, other) {
            (Object::Num(l), Object::Num(r)) => {
                if *l < *r {
                    Some(Ordering::Less)
                } else if *l > *r {
                    Some(Ordering::Greater)
                } else {
                    Some(Ordering::Equal)
                }
            },
            (Object::Nil, Object::Nil) => Some(Ordering::Equal),
            _ => None,
        }
    }
}

impl vstd::std_specs::cmp::PartialOrdSpecImpl for Object {
    open spec fn obeys_partial_cmp_spec() -> bool {
        true
    }

    open spec fn partial_cmp_spec(&self, other: &Object) -> Option<Ordering> {
        match (*self, *other) {
            (Object::Num(l), Object::Num(r)) => {
                if l < r {
                    Some(Ordering::Less)
                } else if l > r {
                    Some(Ordering::Greater)
                } else {
                    Some(Ordering::Equal)
                }
            },
            (Object::Nil, Object::Nil) => Some(Ordering::Equal),
            _ => None,
        }
    }
}

impl Clone for Object {
    fn clone(&self) -> (r: Self)
        ensures
            r == *self,
    {
        self.dup()
    }
}

} // verus!
