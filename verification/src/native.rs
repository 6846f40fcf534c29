//! The functions that the host offers to every program: arithmetic and
//! comparison of whole numbers, conversions between them, logic, joining of
//! strings, and numbers drawn at random.
use vstd::prelude::*;
use vstd::string::StringExecFns;
use rand::Rng;
use crate::index_map::has_key;
use crate::interop::{FromVM, IntoVM, Ret, RetOut, VMFunction};
use crate::state::State;
use crate::value::Value;
use crate::metadata::Metadata;
use crate::pool::{AnyDefinition, Definition, Pool, PoolIndex, Type};
use crate::vm::VM;
use crate::symbols::{lemma_one_name, named};
use crate::error::Fault;
use crate::state::{pinned_at, CellView};
use crate::thunk::{
    assigning2_as, assigning2_effect, partial2_as, partial2_effect, partial_assigning2_as,
    partial_assigning2_effect, procedure1, procedure1_effect, returning1_as, returning1_effect,
    returning2_as, returning2_effect,
};

verus! {

/// A type of whole numbers of the machine. Such a number is its own view.
pub trait Integer: Copy + FromVM + IntoVM + View<V = Self> {
    proof fn view_is_self(self)
        ensures
            self@ == self,
    ;

    /// The sum, wrapped around at the bounds of the type.
    spec fn sum(self, other: Self) -> Self;

    /// The difference, wrapped around at the bounds of the type.
    spec fn difference(self, other: Self) -> Self;

    /// The product, wrapped around at the bounds of the type.
    spec fn product(self, other: Self) -> Self;

    /// The quotient, rounded toward zero; none where the divisor is zero or
    /// the quotient is no number of the type.
    spec fn quotient(self, other: Self) -> Option<Self>;

    /// Whether the number is less than `other`.
    spec fn less(self, other: Self) -> bool;

    /// The number as a 128-bit number.
    spec fn wide(self) -> i128;

    /// The number of this type that the lowest bits of `wide` are.
    spec fn narrowed(wide: i128) -> Self;

    fn add_wrapping(self, other: Self) -> (r: Self)
        ensures
            r == self.sum(other),
    ;

    fn subtract_wrapping(self, other: Self) -> (r: Self)
        ensures
            r == self.difference(other),
    ;

    fn multiply_wrapping(self, other: Self) -> (r: Self)
        ensures
            r == self.product(other),
    ;

    fn divide(self, other: Self) -> (r: Option<Self>)
        ensures
            r == self.quotient(other),
    ;

    fn is_less(self, other: Self) -> (r: bool)
        ensures
            r == self.less(other),
    ;

    fn is_equal(self, other: Self) -> (r: bool)
        ensures
            r == (self == other),
    ;

    fn widen(self) -> (r: i128)
        ensures
            r == self.wide(),
    ;

    fn narrow(wide: i128) -> (r: Self)
        ensures
            r == Self::narrowed(wide),
    ;
}

impl Integer for i8 {
    proof fn view_is_self(self) {
    }

    open spec fn sum(self, other: i8) -> i8 {
        self.wrapping_add(other)
    }

    open spec fn difference(self, other: i8) -> i8 {
        self.wrapping_sub(other)
    }

    open spec fn product(self, other: i8) -> i8 {
        self.wrapping_mul(other)
    }

    open spec fn quotient(self, other: i8) -> Option<i8> {
        self.checked_div(other)
    }

    open spec fn less(self, other: i8) -> bool {
        self < other
    }

    open spec fn wide(self) -> i128 {
        self as i128
    }

    open spec fn narrowed(wide: i128) -> i8 {
        wide as i8
    }

    fn add_wrapping(self, other: i8) -> (r: i8) {
        self.wrapping_add(other)
    }

    fn subtract_wrapping(self, other: i8) -> (r: i8) {
        self.wrapping_sub(other)
    }

    fn multiply_wrapping(self, other: i8) -> (r: i8) {
        self.wrapping_mul(other)
    }

    fn divide(self, other: i8) -> (r: Option<i8>) {
        self.checked_div(other)
    }

    fn is_less(self, other: i8) -> (r: bool) {
        self < other
    }

    fn is_equal(self, other: i8) -> (r: bool) {
        self == other
    }

    fn widen(self) -> (r: i128) {
        self as i128
    }

    fn narrow(wide: i128) -> (r: i8) {
        #[verifier::truncate]
        (wide as i8)
    }
}

impl Integer for i16 {
    proof fn view_is_self(self) {
    }

    open spec fn sum(self, other: i16) -> i16 {
        self.wrapping_add(other)
    }

    open spec fn difference(self, other: i16) -> i16 {
        self.wrapping_sub(other)
    }

    open spec fn product(self, other: i16) -> i16 {
        self.wrapping_mul(other)
    }

    open spec fn quotient(self, other: i16) -> Option<i16> {
        self.checked_div(other)
    }

    open spec fn less(self, other: i16) -> bool {
        self < other
    }

    open spec fn wide(self) -> i128 {
        self as i128
    }

    open spec fn narrowed(wide: i128) -> i16 {
        wide as i16
    }

    fn add_wrapping(self, other: i16) -> (r: i16) {
        self.wrapping_add(other)
    }

    fn subtract_wrapping(self, other: i16) -> (r: i16) {
        self.wrapping_sub(other)
    }

    fn multiply_wrapping(self, other: i16) -> (r: i16) {
        self.wrapping_mul(other)
    }

    fn divide(self, other: i16) -> (r: Option<i16>) {
        self.checked_div(other)
    }

    fn is_less(self, other: i16) -> (r: bool) {
        self < other
    }

    fn is_equal(self, other: i16) -> (r: bool) {
        self == other
    }

    fn widen(self) -> (r: i128) {
        self as i128
    }

    fn narrow(wide: i128) -> (r: i16) {
        #[verifier::truncate]
        (wide as i16)
    }
}

impl Integer for i32 {
    proof fn view_is_self(self) {
    }

    open spec fn sum(self, other: i32) -> i32 {
        self.wrapping_add(other)
    }

    open spec fn difference(self, other: i32) -> i32 {
        self.wrapping_sub(other)
    }

    open spec fn product(self, other: i32) -> i32 {
        self.wrapping_mul(other)
    }

    open spec fn quotient(self, other: i32) -> Option<i32> {
        self.checked_div(other)
    }

    open spec fn less(self, other: i32) -> bool {
        self < other
    }

    open spec fn wide(self) -> i128 {
        self as i128
    }

    open spec fn narrowed(wide: i128) -> i32 {
        wide as i32
    }

    fn add_wrapping(self, other: i32) -> (r: i32) {
        self.wrapping_add(other)
    }

    fn subtract_wrapping(self, other: i32) -> (r: i32) {
        self.wrapping_sub(other)
    }

    fn multiply_wrapping(self, other: i32) -> (r: i32) {
        self.wrapping_mul(other)
    }

    fn divide(self, other: i32) -> (r: Option<i32>) {
        self.checked_div(other)
    }

    fn is_less(self, other: i32) -> (r: bool) {
        self < other
    }

    fn is_equal(self, other: i32) -> (r: bool) {
        self == other
    }

    fn widen(self) -> (r: i128) {
        self as i128
    }

    fn narrow(wide: i128) -> (r: i32) {
        #[verifier::truncate]
        (wide as i32)
    }
}

impl Integer for i64 {
    proof fn view_is_self(self) {
    }

    open spec fn sum(self, other: i64) -> i64 {
        self.wrapping_add(other)
    }

    open spec fn difference(self, other: i64) -> i64 {
        self.wrapping_sub(other)
    }

    open spec fn product(self, other: i64) -> i64 {
        self.wrapping_mul(other)
    }

    open spec fn quotient(self, other: i64) -> Option<i64> {
        self.checked_div(other)
    }

    open spec fn less(self, other: i64) -> bool {
        self < other
    }

    open spec fn wide(self) -> i128 {
        self as i128
    }

    open spec fn narrowed(wide: i128) -> i64 {
        wide as i64
    }

    fn add_wrapping(self, other: i64) -> (r: i64) {
        self.wrapping_add(other)
    }

    fn subtract_wrapping(self, other: i64) -> (r: i64) {
        self.wrapping_sub(other)
    }

    fn multiply_wrapping(self, other: i64) -> (r: i64) {
        self.wrapping_mul(other)
    }

    fn divide(self, other: i64) -> (r: Option<i64>) {
        self.checked_div(other)
    }

    fn is_less(self, other: i64) -> (r: bool) {
        self < other
    }

    fn is_equal(self, other: i64) -> (r: bool) {
        self == other
    }

    fn widen(self) -> (r: i128) {
        self as i128
    }

    fn narrow(wide: i128) -> (r: i64) {
        #[verifier::truncate]
        (wide as i64)
    }
}

impl Integer for u8 {
    proof fn view_is_self(self) {
    }

    open spec fn sum(self, other: u8) -> u8 {
        self.wrapping_add(other)
    }

    open spec fn difference(self, other: u8) -> u8 {
        self.wrapping_sub(other)
    }

    open spec fn product(self, other: u8) -> u8 {
        self.wrapping_mul(other)
    }

    open spec fn quotient(self, other: u8) -> Option<u8> {
        self.checked_div(other)
    }

    open spec fn less(self, other: u8) -> bool {
        self < other
    }

    open spec fn wide(self) -> i128 {
        self as i128
    }

    open spec fn narrowed(wide: i128) -> u8 {
        wide as u8
    }

    fn add_wrapping(self, other: u8) -> (r: u8) {
        self.wrapping_add(other)
    }

    fn subtract_wrapping(self, other: u8) -> (r: u8) {
        self.wrapping_sub(other)
    }

    fn multiply_wrapping(self, other: u8) -> (r: u8) {
        self.wrapping_mul(other)
    }

    fn divide(self, other: u8) -> (r: Option<u8>) {
        self.checked_div(other)
    }

    fn is_less(self, other: u8) -> (r: bool) {
        self < other
    }

    fn is_equal(self, other: u8) -> (r: bool) {
        self == other
    }

    fn widen(self) -> (r: i128) {
        self as i128
    }

    fn narrow(wide: i128) -> (r: u8) {
        #[verifier::truncate]
        (wide as u8)
    }
}

impl Integer for u16 {
    proof fn view_is_self(self) {
    }

    open spec fn sum(self, other: u16) -> u16 {
        self.wrapping_add(other)
    }

    open spec fn difference(self, other: u16) -> u16 {
        self.wrapping_sub(other)
    }

    open spec fn product(self, other: u16) -> u16 {
        self.wrapping_mul(other)
    }

    open spec fn quotient(self, other: u16) -> Option<u16> {
        self.checked_div(other)
    }

    open spec fn less(self, other: u16) -> bool {
        self < other
    }

    open spec fn wide(self) -> i128 {
        self as i128
    }

    open spec fn narrowed(wide: i128) -> u16 {
        wide as u16
    }

    fn add_wrapping(self, other: u16) -> (r: u16) {
        self.wrapping_add(other)
    }

    fn subtract_wrapping(self, other: u16) -> (r: u16) {
        self.wrapping_sub(other)
    }

    fn multiply_wrapping(self, other: u16) -> (r: u16) {
        self.wrapping_mul(other)
    }

    fn divide(self, other: u16) -> (r: Option<u16>) {
        self.checked_div(other)
    }

    fn is_less(self, other: u16) -> (r: bool) {
        self < other
    }

    fn is_equal(self, other: u16) -> (r: bool) {
        self == other
    }

    fn widen(self) -> (r: i128) {
        self as i128
    }

    fn narrow(wide: i128) -> (r: u16) {
        #[verifier::truncate]
        (wide as u16)
    }
}

impl Integer for u32 {
    proof fn view_is_self(self) {
    }

    open spec fn sum(self, other: u32) -> u32 {
        self.wrapping_add(other)
    }

    open spec fn difference(self, other: u32) -> u32 {
        self.wrapping_sub(other)
    }

    open spec fn product(self, other: u32) -> u32 {
        self.wrapping_mul(other)
    }

    open spec fn quotient(self, other: u32) -> Option<u32> {
        self.checked_div(other)
    }

    open spec fn less(self, other: u32) -> bool {
        self < other
    }

    open spec fn wide(self) -> i128 {
        self as i128
    }

    open spec fn narrowed(wide: i128) -> u32 {
        wide as u32
    }

    fn add_wrapping(self, other: u32) -> (r: u32) {
        self.wrapping_add(other)
    }

    fn subtract_wrapping(self, other: u32) -> (r: u32) {
        self.wrapping_sub(other)
    }

    fn multiply_wrapping(self, other: u32) -> (r: u32) {
        self.wrapping_mul(other)
    }

    fn divide(self, other: u32) -> (r: Option<u32>) {
        self.checked_div(other)
    }

    fn is_less(self, other: u32) -> (r: bool) {
        self < other
    }

    fn is_equal(self, other: u32) -> (r: bool) {
        self == other
    }

    fn widen(self) -> (r: i128) {
        self as i128
    }

    fn narrow(wide: i128) -> (r: u32) {
        #[verifier::truncate]
        (wide as u32)
    }
}

impl Integer for u64 {
    proof fn view_is_self(self) {
    }

    open spec fn sum(self, other: u64) -> u64 {
        self.wrapping_add(other)
    }

    open spec fn difference(self, other: u64) -> u64 {
        self.wrapping_sub(other)
    }

    open spec fn product(self, other: u64) -> u64 {
        self.wrapping_mul(other)
    }

    open spec fn quotient(self, other: u64) -> Option<u64> {
        self.checked_div(other)
    }

    open spec fn less(self, other: u64) -> bool {
        self < other
    }

    open spec fn wide(self) -> i128 {
        self as i128
    }

    open spec fn narrowed(wide: i128) -> u64 {
        wide as u64
    }

    fn add_wrapping(self, other: u64) -> (r: u64) {
        self.wrapping_add(other)
    }

    fn subtract_wrapping(self, other: u64) -> (r: u64) {
        self.wrapping_sub(other)
    }

    fn multiply_wrapping(self, other: u64) -> (r: u64) {
        self.wrapping_mul(other)
    }

    fn divide(self, other: u64) -> (r: Option<u64>) {
        self.checked_div(other)
    }

    fn is_less(self, other: u64) -> (r: bool) {
        self < other
    }

    fn is_equal(self, other: u64) -> (r: bool) {
        self == other
    }

    fn widen(self) -> (r: i128) {
        self as i128
    }

    fn narrow(wide: i128) -> (r: u64) {
        #[verifier::truncate]
        (wide as u64)
    }
}

pub fn operator_add<T: Integer>(x: T, y: T) -> (r: Ret<T>)
    ensures
        r.0 == x.sum(y),
{
    Ret(x.add_wrapping(y))
}

pub fn operator_assign_add<T: Integer>(x: T, y: T) -> (r: RetOut<T, T>)
    ensures
        r.0 == x.sum(y),
        r.1 == x.sum(y),
{
    RetOut(x.add_wrapping(y), x.add_wrapping(y))
}

pub fn operator_subtract<T: Integer>(x: T, y: T) -> (r: Ret<T>)
    ensures
        r.0 == x.difference(y),
{
    Ret(x.subtract_wrapping(y))
}

pub fn operator_assign_subtract<T: Integer>(x: T, y: T) -> (r: RetOut<T, T>)
    ensures
        r.0 == x.difference(y),
        r.1 == x.difference(y),
{
    RetOut(x.subtract_wrapping(y), x.subtract_wrapping(y))
}

pub fn operator_multiply<T: Integer>(x: T, y: T) -> (r: Ret<T>)
    ensures
        r.0 == x.product(y),
{
    Ret(x.multiply_wrapping(y))
}

pub fn operator_assign_multiply<T: Integer>(x: T, y: T) -> (r: RetOut<T, T>)
    ensures
        r.0 == x.product(y),
        r.1 == x.product(y),
{
    RetOut(x.multiply_wrapping(y), x.multiply_wrapping(y))
}

/// Division: there is no result where the divisor is zero or the quotient
/// is no number of the type.
pub fn operator_divide<T: Integer>(x: T, y: T) -> (r: Option<Ret<T>>)
    ensures
        r.is_some() == x.quotient(y).is_some(),
        r matches Some(ret) ==> x.quotient(y) == Some(ret.0),
{
    match x.divide(y) {
        Some(q) => Some(Ret(q)),
        None => None,
    }
}

pub fn operator_assign_divide<T: Integer>(x: T, y: T) -> (r: Option<RetOut<T, T>>)
    ensures
        r.is_some() == x.quotient(y).is_some(),
        r matches Some(ret) ==> x.quotient(y) == Some(ret.0) && ret.1 == ret.0,
{
    match x.divide(y) {
        Some(q) => Some(RetOut(q, q)),
        None => None,
    }
}

pub fn operator_equal<T: Integer>(x: T, y: T) -> (r: Ret<bool>)
    ensures
        r.0 == (x == y),
{
    Ret(x.is_equal(y))
}

pub fn operator_less<T: Integer>(x: T, y: T) -> (r: Ret<bool>)
    ensures
        r.0 == x.less(y),
{
    Ret(x.is_less(y))
}

pub fn operator_less_equal<T: Integer>(x: T, y: T) -> (r: Ret<bool>)
    ensures
        r.0 == !y.less(x),
{
    Ret(!y.is_less(x))
}

pub fn operator_greater<T: Integer>(x: T, y: T) -> (r: Ret<bool>)
    ensures
        r.0 == y.less(x),
{
    Ret(y.is_less(x))
}

pub fn operator_greater_equal<T: Integer>(x: T, y: T) -> (r: Ret<bool>)
    ensures
        r.0 == !x.less(y),
{
    Ret(!x.is_less(y))
}

/// Conversion between two types of whole numbers: the number of the target
/// type with the same lowest bits.
pub fn cast<A: Integer, B: Integer>(x: A) -> (r: Ret<B>)
    ensures
        r.0 == B::narrowed(x.wide()),
{
    Ret(B::narrow(x.widen()))
}

pub fn operator_logic_and(x: bool, y: bool) -> (r: Ret<bool>)
    ensures
        r.0 == (x && y),
{
    Ret(x && y)
}

pub fn operator_logic_or(x: bool, y: bool) -> (r: Ret<bool>)
    ensures
        r.0 == (x || y),
{
    Ret(x || y)
}

/// Joins two strings.
pub fn operator_add_strings(x: String, y: String) -> (r: Ret<String>)
    ensures
        r.0@ == x@ + y@,
{
    Ret(x.concat(y.as_str()))
}

/// `Rng::gen_range` on the generator that `rand::thread_rng` gives: some
/// number from `min` up to, but not including, `max`. An empty range is left
/// out: the call panics on it. The generator is seeded by the system.
#[verifier::external_body]
fn random_between(min: i32, max: i32) -> (r: i32)
    requires
        min < max,
    ensures
        min <= r < max,
{
    rand::thread_rng().gen_range(min..max)
}

/// A number drawn at random from `min` up to, but not including, `max`;
/// none where there is no such number.
pub fn rand_range(min: i32, max: i32) -> (r: Option<Ret<i32>>)
    ensures
        r.is_some() == (min < max),
        r matches Some(ret) ==> min <= ret.0 < max,
{
    if min < max {
        Some(Ret(random_between(min, max)))
    } else {
        None
    }
}

/// The name of the operator `op` on the type `ty` with the result type
/// `ret`: the operator, the types of its two operands, the first with `Out`
/// before it where the operator assigns to it, and the result type, with
/// semicolons between the three.
pub open spec fn operator_name(op: Seq<char>, out: bool, ty: Seq<char>, ret: Seq<char>) -> Seq<char> {
    op + ";"@ + (if out {
        "Out"@
    } else {
        Seq::empty()
    }) + ty + ty + ";"@ + ret
}

/// The name of the conversion from the type `from` to the type `to`.
pub open spec fn cast_name(from: Seq<char>, to: Seq<char>) -> Seq<char> {
    "Cast;"@ + from + ";"@ + to
}

fn name_of(op: &str, out: bool, ty: &str, ret: &str) -> (r: String)
    ensures
        r@ == operator_name(op@, out, ty@, ret@),
{
    let mut name = String::from_str(op);
    name.append(";");
    if out {
        name.append("Out");
    } else {
        assert(name@ + Seq::<char>::empty() =~= name@);
    }
    name.append(ty);
    name.append(ty);
    name.append(";");
    name.append(ret);
    name
}

fn cast_name_of(from: &str, to: &str) -> (r: String)
    ensures
        r@ == cast_name(from@, to@),
{
    let mut name = String::from_str("Cast;");
    name.append(from);
    name.append(";");
    name.append(to);
    name
}

/// Whether `text` holds no semicolon.
pub open spec fn unbroken(text: Seq<char>) -> bool {
    forall|i: int| 0 <= i < text.len() ==> text[i] != ';'
}

/// Whether the first semicolon of `name` stands at place `i`, or `name` holds
/// none and ends there.
pub open spec fn head_ends(name: Seq<char>, i: int) -> bool {
    0 <= i <= name.len() && (i == name.len() || name[i] == ';') && unbroken(name.take(i))
}

/// The part of a name before its first semicolon: the whole name where it
/// holds none.
pub open spec fn head(name: Seq<char>) -> Seq<char> {
    name.take(choose|i: int| head_ends(name, i))
}

/// The character at place `k` of `text`, a blank where it has none there.
pub open spec fn letter(text: Seq<char>, k: int) -> char {
    if 0 <= k < text.len() {
        text[k]
    } else {
        ' '
    }
}

/// The length of a text and four of its characters: enough to tell apart
/// the words that the names of the standard functions are made of.
pub open spec fn stamp(text: Seq<char>) -> (nat, char, char, char, char) {
    (text.len(), letter(text, 0), letter(text, 4), letter(text, 8), letter(text, 14))
}

/// A name that starts with an unbroken text and a semicolon has that text as
/// its head.
pub proof fn lemma_head(first: Seq<char>, rest: Seq<char>)
    requires
        unbroken(first),
    ensures
        head(first + ";"@ + rest) == first,
{
    reveal_strlit(";");
    let name = first + ";"@ + rest;
    let n = first.len() as int;
    assert(name[n] == ';');
    assert(name.take(n) =~= first);
    assert(head_ends(name, n));
    let i = choose|i: int| head_ends(name, i);
    if i < n {
        assert(name[i] == first[i]);
    }
    if i > n {
        assert(name.take(i)[n] == ';');
    }
}

/// An unbroken name is its own head.
pub proof fn lemma_head_whole(name: Seq<char>)
    requires
        unbroken(name),
    ensures
        head(name) == name,
{
    let n = name.len() as int;
    assert(name.take(n) =~= name);
    assert(head_ends(name, n));
    let i = choose|i: int| head_ends(name, i);
    if i < n {
        assert(name[i] == ';');
    }
}

/// The head of the name of an operator is the operator.
pub proof fn lemma_operator_head(op: Seq<char>, out: bool, ty: Seq<char>, ret: Seq<char>)
    requires
        unbroken(op),
    ensures
        head(operator_name(op, out, ty, ret)) == op,
{
    let mark = if out {
        "Out"@
    } else {
        Seq::empty()
    };
    assert(operator_name(op, out, ty, ret) =~= op + ";"@ + (mark + ty + ty + ";"@ + ret));
    lemma_head(op, mark + ty + ty + ";"@ + ret);
}

/// Two names of one operator, each with its result of the type of its
/// operands or both with the same result type, are names for the same type.
pub proof fn lemma_same_operator(
    op: Seq<char>,
    out: bool,
    first: Seq<char>,
    first_ret: Seq<char>,
    second: Seq<char>,
    second_ret: Seq<char>,
)
    requires
        operator_name(op, out, first, first_ret) == operator_name(op, out, second, second_ret),
        (first_ret == first && second_ret == second) || first_ret == second_ret,
    ensures
        first == second,
{
    reveal_strlit(";");
    let mark = if out {
        "Out"@
    } else {
        Seq::empty()
    };
    let a = operator_name(op, out, first, first_ret);
    let b = operator_name(op, out, second, second_ret);
    let k = op.len() + 1 + mark.len();
    assert(a.len() == k + 2 * first.len() + 1 + first_ret.len());
    assert(b.len() == k + 2 * second.len() + 1 + second_ret.len());
    assert(first.len() == second.len());
    assert(a.subrange(k as int, (k + first.len()) as int) =~= first);
    assert(b.subrange(k as int, (k + second.len()) as int) =~= second);
}

/// The head of the name of a conversion.
pub proof fn lemma_cast_head(from: Seq<char>, to: Seq<char>)
    ensures
        head(cast_name(from, to)) == "Cast"@,
{
    reveal_strlit("Cast;");
    reveal_strlit("Cast");
    reveal_strlit(";");
    assert("Cast;"@ =~= "Cast"@ + ";"@);
    assert(cast_name(from, to) =~= "Cast"@ + ";"@ + (from + ";"@ + to));
    lemma_head("Cast"@, from + ";"@ + to);
}

/// Two conversions of one name are, where the names of their sources are
/// unbroken, one conversion.
pub proof fn lemma_same_cast(from: Seq<char>, to: Seq<char>, other_from: Seq<char>, other_to: Seq<char>)
    requires
        unbroken(from),
        unbroken(other_from),
        cast_name(from, to) == cast_name(other_from, other_to),
    ensures
        from == other_from,
        to == other_to,
{
    reveal_strlit("Cast;");
    reveal_strlit(";");
    let a = cast_name(from, to);
    let b = cast_name(other_from, other_to);
    assert(a.skip(5) =~= from + ";"@ + to);
    assert(b.skip(5) =~= other_from + ";"@ + other_to);
    lemma_head(from, to);
    lemma_head(other_from, other_to);
    assert(a.skip((6 + from.len()) as int) =~= to);
    assert(b.skip((6 + other_from.len()) as int) =~= other_to);
}

/// The words that the names of the standard functions are made of: each is
/// unbroken, and no two have the same stamp.
pub proof fn lemma_words()
    ensures
        unbroken("OperatorAdd"@),
        stamp("OperatorAdd"@) == (11nat, 'O', 'a', 'A', ' '),
        unbroken("OperatorAssignAdd"@),
        stamp("OperatorAssignAdd"@) == (17nat, 'O', 'a', 'A', 'A'),
        unbroken("OperatorSubtract"@),
        stamp("OperatorSubtract"@) == (16nat, 'O', 'a', 'S', 'c'),
        unbroken("OperatorAssignSubtract"@),
        stamp("OperatorAssignSubtract"@) == (22nat, 'O', 'a', 'A', 'S'),
        unbroken("OperatorMultiply"@),
        stamp("OperatorMultiply"@) == (16nat, 'O', 'a', 'M', 'l'),
        unbroken("OperatorAssignMultiply"@),
        stamp("OperatorAssignMultiply"@) == (22nat, 'O', 'a', 'A', 'M'),
        unbroken("OperatorDivide"@),
        stamp("OperatorDivide"@) == (14nat, 'O', 'a', 'D', ' '),
        unbroken("OperatorAssignDivide"@),
        stamp("OperatorAssignDivide"@) == (20nat, 'O', 'a', 'A', 'D'),
        unbroken("OperatorEqual"@),
        stamp("OperatorEqual"@) == (13nat, 'O', 'a', 'E', ' '),
        unbroken("OperatorLess"@),
        stamp("OperatorLess"@) == (12nat, 'O', 'a', 'L', ' '),
        unbroken("OperatorLessEqual"@),
        stamp("OperatorLessEqual"@) == (17nat, 'O', 'a', 'L', 'u'),
        unbroken("OperatorGreater"@),
        stamp("OperatorGreater"@) == (15nat, 'O', 'a', 'G', 'r'),
        unbroken("OperatorGreaterEqual"@),
        stamp("OperatorGreaterEqual"@) == (20nat, 'O', 'a', 'G', 'r'),
        unbroken("OperatorLogicAnd"@),
        stamp("OperatorLogicAnd"@) == (16nat, 'O', 'a', 'L', 'n'),
        unbroken("OperatorLogicOr"@),
        stamp("OperatorLogicOr"@) == (15nat, 'O', 'a', 'L', 'r'),
        unbroken("Cast"@),
        stamp("Cast"@) == (4nat, 'C', ' ', ' ', ' '),
        unbroken("Log"@),
        stamp("Log"@) == (3nat, 'L', ' ', ' ', ' '),
        unbroken("RandRange"@),
        stamp("RandRange"@) == (9nat, 'R', 'R', 'e', ' '),
        unbroken("Int8"@),
        stamp("Int8"@) == (4nat, 'I', ' ', ' ', ' '),
        unbroken("Int16"@),
        stamp("Int16"@) == (5nat, 'I', '6', ' ', ' '),
        unbroken("Int32"@),
        stamp("Int32"@) == (5nat, 'I', '2', ' ', ' '),
        unbroken("Int64"@),
        stamp("Int64"@) == (5nat, 'I', '4', ' ', ' '),
        unbroken("Uint8"@),
        stamp("Uint8"@) == (5nat, 'U', '8', ' ', ' '),
        unbroken("Uint16"@),
        stamp("Uint16"@) == (6nat, 'U', '1', ' ', ' '),
        unbroken("Uint32"@),
        stamp("Uint32"@) == (6nat, 'U', '3', ' ', ' '),
        unbroken("Uint64"@),
        stamp("Uint64"@) == (6nat, 'U', '6', ' ', ' '),
        unbroken("String"@),
        stamp("String"@) == (6nat, 'S', 'n', ' ', ' '),
        unbroken("Bool"@),
        stamp("Bool"@) == (4nat, 'B', ' ', ' ', ' '),
{
    reveal_strlit("OperatorAdd");
    reveal_strlit("OperatorAssignAdd");
    reveal_strlit("OperatorSubtract");
    reveal_strlit("OperatorAssignSubtract");
    reveal_strlit("OperatorMultiply");
    reveal_strlit("OperatorAssignMultiply");
    reveal_strlit("OperatorDivide");
    reveal_strlit("OperatorAssignDivide");
    reveal_strlit("OperatorEqual");
    reveal_strlit("OperatorLess");
    reveal_strlit("OperatorLessEqual");
    reveal_strlit("OperatorGreater");
    reveal_strlit("OperatorGreaterEqual");
    reveal_strlit("OperatorLogicAnd");
    reveal_strlit("OperatorLogicOr");
    reveal_strlit("Cast");
    reveal_strlit("Log");
    reveal_strlit("RandRange");
    reveal_strlit("Int8");
    reveal_strlit("Int16");
    reveal_strlit("Int32");
    reveal_strlit("Int64");
    reveal_strlit("Uint8");
    reveal_strlit("Uint16");
    reveal_strlit("Uint32");
    reveal_strlit("Uint64");
    reveal_strlit("String");
    reveal_strlit("Bool");
}

/// The host function that is registered under the name `name`.
pub open spec fn native_named(meta: &Metadata, name: Seq<char>) -> Option<VMFunction> {
    match named(meta.symbols@.functions, name) {
        Some(idx) => meta.native_of(idx),
        None => None,
    }
}

/// Whether the root function of the name `name`, where there is one with
/// something kept for it, has a host function registered that does what
/// `effect` says.
pub open spec fn acts(
    meta: &Metadata,
    name: Seq<char>,
    effect: spec_fn(State, &Pool) -> Option<Result<(State, Option<Value>), Fault>>,
) -> bool {
    match named(meta.symbols@.functions, name) {
        Some(idx) => has_key(meta.function_meta@, idx.0) ==> (native_named(meta, name) matches Some(
            function,
        ) && function.callable() && forall|s: State, pool: &Pool| #[trigger]
            function.effect(s, pool) == effect(s, pool)),
        None => true,
    }
}

/// Whether `after` is `before` with more host functions registered, and
/// nothing else changed.
pub open spec fn extends(after: &Metadata, before: &Metadata) -> bool {
    &&& after.pool == before.pool
    &&& after.symbols == before.symbols
    &&& after.types == before.types
    &&& after.class_meta == before.class_meta
    &&& forall|k: u32| has_key(after.function_meta@, k) == has_key(before.function_meta@, k)
    &&& forall|k: u32| #[trigger]
        before.native_of(PoolIndex(k)) is Some ==> after.native_of(PoolIndex(k)) is Some
}

/// Whether under every name but those in `names` the same host function is
/// registered in `after` as in `before`.
pub open spec fn keeps(after: &Metadata, before: &Metadata, names: Set<Seq<char>>) -> bool {
    forall|other: Seq<char>|
        !names.contains(other) ==> #[trigger] native_named(after, other) == native_named(
            before,
            other,
        )
}

/// Registers `function` under `name`: it then stands under that name, and
/// under every other name stands what stood there.
pub fn register(meta: &mut Metadata, name: &str, function: VMFunction)
    requires
        old(meta).wf(),
        function.callable(),
    ensures
        final(meta).wf(),
        extends(final(meta), old(meta)),
        named(final(meta).symbols@.functions, name@) matches Some(idx) ==> (has_key(
            final(meta).function_meta@,
            idx.0,
        ) ==> native_named(final(meta), name@) == Some(function)),
        keeps(final(meta), old(meta), set![name@]),
{
    meta.set_native_function(name, function);
    proof {
        assert forall|other: Seq<char>| !set![name@].contains(other) implies #[trigger] native_named(
            meta,
            other,
        ) == native_named(old(meta), other) by {
            if named(meta.symbols@.functions, other) is Some && named(
                meta.symbols@.functions,
                other,
            ) == named(meta.symbols@.functions, name@) {
                lemma_one_name(&meta.pool, other, name@);
            }
        }
    }
}

/// What acts under a name goes on acting there when more is registered
/// under other names.
pub proof fn lemma_acts_kept(
    before: &Metadata,
    after: &Metadata,
    names: Set<Seq<char>>,
    name: Seq<char>,
    effect: spec_fn(State, &Pool) -> Option<Result<(State, Option<Value>), Fault>>,
)
    requires
        extends(after, before),
        keeps(after, before, names),
        !names.contains(name),
        acts(before, name, effect),
    ensures
        acts(after, name, effect),
{
    assert(native_named(after, name) == native_named(before, name));
}

/// Registering twice extends, and keeps what neither registration names.
pub proof fn lemma_extends(
    first: &Metadata,
    second: &Metadata,
    third: &Metadata,
    earlier: Set<Seq<char>>,
    later: Set<Seq<char>>,
)
    requires
        extends(second, first),
        extends(third, second),
        keeps(second, first, earlier),
        keeps(third, second, later),
    ensures
        extends(third, first),
        keeps(third, first, earlier.union(later)),
{
    assert forall|k: u32| #[trigger]
        first.native_of(PoolIndex(k)) is Some implies third.native_of(PoolIndex(k)) is Some by {
        assert(second.native_of(PoolIndex(k)) is Some);
    }
    assert forall|other: Seq<char>| !earlier.union(later).contains(other) implies #[trigger] native_named(
        third,
        other,
    ) == native_named(first, other) by {
        assert(native_named(second, other) == native_named(first, other));
    }
}

/// A value twice, where there is one.
pub open spec fn paired<T>(value: Option<T>) -> Option<(T, T)> {
    match value {
        Some(v) => Some((v, v)),
        None => None,
    }
}

/// The sum of two numbers, wrapped around at the bounds of the type.
pub open spec fn sum_of<T: Integer>() -> spec_fn(T, T) -> Option<T> {
    |x: T, y: T| Some(x.sum(y))
}

/// The sum of two numbers, as what is given back and as what is assigned.
pub open spec fn assigned_sum_of<T: Integer>() -> spec_fn(T, T) -> Option<(T, T)> {
    |x: T, y: T| Some((x.sum(y), x.sum(y)))
}

/// The difference of two numbers, wrapped around at the bounds of the type.
pub open spec fn difference_of<T: Integer>() -> spec_fn(T, T) -> Option<T> {
    |x: T, y: T| Some(x.difference(y))
}

/// The difference of two numbers, as what is given back and as what is assigned.
pub open spec fn assigned_difference_of<T: Integer>() -> spec_fn(T, T) -> Option<(T, T)> {
    |x: T, y: T| Some((x.difference(y), x.difference(y)))
}

/// The product of two numbers, wrapped around at the bounds of the type.
pub open spec fn product_of<T: Integer>() -> spec_fn(T, T) -> Option<T> {
    |x: T, y: T| Some(x.product(y))
}

/// The product of two numbers, as what is given back and as what is assigned.
pub open spec fn assigned_product_of<T: Integer>() -> spec_fn(T, T) -> Option<(T, T)> {
    |x: T, y: T| Some((x.product(y), x.product(y)))
}

/// The quotient of two numbers, where there is one.
pub open spec fn quotient_of<T: Integer>() -> spec_fn(T, T) -> Option<Option<T>> {
    |x: T, y: T| Some(x.quotient(y))
}

/// The quotient of two numbers, where there is one, as what is given back and as what is assigned.
pub open spec fn assigned_quotient_of<T: Integer>() -> spec_fn(T, T) -> Option<Option<(T, T)>> {
    |x: T, y: T| Some(paired(x.quotient(y)))
}

/// Whether two numbers are equal.
pub open spec fn equal_of<T: Integer>() -> spec_fn(T, T) -> Option<bool> {
    |x: T, y: T| Some(x == y)
}

/// Whether the first number is less than the second.
pub open spec fn less_of<T: Integer>() -> spec_fn(T, T) -> Option<bool> {
    |x: T, y: T| Some(x.less(y))
}

/// Whether the first number is at most the second.
pub open spec fn less_equal_of<T: Integer>() -> spec_fn(T, T) -> Option<bool> {
    |x: T, y: T| Some(!y.less(x))
}

/// Whether the first number is greater than the second.
pub open spec fn greater_of<T: Integer>() -> spec_fn(T, T) -> Option<bool> {
    |x: T, y: T| Some(y.less(x))
}

/// Whether the first number is at least the second.
pub open spec fn greater_equal_of<T: Integer>() -> spec_fn(T, T) -> Option<bool> {
    |x: T, y: T| Some(!x.less(y))
}

/// The names of the thirteen operators on the type `ty`.
pub open spec fn arithmetic_names(ty: Seq<char>) -> Set<Seq<char>> {
    Set::new(
        |name: Seq<char>|
            {
                   name == operator_name("OperatorAdd"@, false, ty, ty)
                || name == operator_name("OperatorAssignAdd"@, true, ty, ty)
                || name == operator_name("OperatorSubtract"@, false, ty, ty)
                || name == operator_name("OperatorAssignSubtract"@, true, ty, ty)
                || name == operator_name("OperatorMultiply"@, false, ty, ty)
                || name == operator_name("OperatorAssignMultiply"@, true, ty, ty)
                || name == operator_name("OperatorDivide"@, false, ty, ty)
                || name == operator_name("OperatorAssignDivide"@, true, ty, ty)
                || name == operator_name("OperatorEqual"@, false, ty, "Bool"@)
                || name == operator_name("OperatorLess"@, false, ty, "Bool"@)
                || name == operator_name("OperatorLessEqual"@, false, ty, "Bool"@)
                || name == operator_name("OperatorGreater"@, false, ty, "Bool"@)
                || name == operator_name("OperatorGreaterEqual"@, false, ty, "Bool"@)
            },
    )
}

/// Whether each of the thirteen operators on the type `T`, whose name in
/// programs is `ty`, does what it is named after: the arithmetic wraps
/// around, a division without a quotient fails, and an assigning operator
/// puts its result into the cell that its first operand refers to.
pub open spec fn arithmetic_registered<T: Integer>(meta: &Metadata, ty: Seq<char>) -> bool {
    &&& acts(
        meta,
        operator_name("OperatorAdd"@, false, ty, ty),
        |s: State, pool: &Pool| returning2_effect::<T, T, T>(s, pool, sum_of::<T>()),
    )
    &&& acts(
        meta,
        operator_name("OperatorAssignAdd"@, true, ty, ty),
        |s: State, pool: &Pool| assigning2_effect::<T, T, T>(s, pool, assigned_sum_of::<T>()),
    )
    &&& acts(
        meta,
        operator_name("OperatorSubtract"@, false, ty, ty),
        |s: State, pool: &Pool| returning2_effect::<T, T, T>(s, pool, difference_of::<T>()),
    )
    &&& acts(
        meta,
        operator_name("OperatorAssignSubtract"@, true, ty, ty),
        |s: State, pool: &Pool| assigning2_effect::<T, T, T>(s, pool, assigned_difference_of::<T>()),
    )
    &&& acts(
        meta,
        operator_name("OperatorMultiply"@, false, ty, ty),
        |s: State, pool: &Pool| returning2_effect::<T, T, T>(s, pool, product_of::<T>()),
    )
    &&& acts(
        meta,
        operator_name("OperatorAssignMultiply"@, true, ty, ty),
        |s: State, pool: &Pool| assigning2_effect::<T, T, T>(s, pool, assigned_product_of::<T>()),
    )
    &&& acts(
        meta,
        operator_name("OperatorDivide"@, false, ty, ty),
        |s: State, pool: &Pool| partial2_effect::<T, T, T>(s, pool, quotient_of::<T>()),
    )
    &&& acts(
        meta,
        operator_name("OperatorAssignDivide"@, true, ty, ty),
        |s: State, pool: &Pool| partial_assigning2_effect::<T, T, T>(s, pool, assigned_quotient_of::<T>()),
    )
    &&& acts(
        meta,
        operator_name("OperatorEqual"@, false, ty, "Bool"@),
        |s: State, pool: &Pool| returning2_effect::<T, T, bool>(s, pool, equal_of::<T>()),
    )
    &&& acts(
        meta,
        operator_name("OperatorLess"@, false, ty, "Bool"@),
        |s: State, pool: &Pool| returning2_effect::<T, T, bool>(s, pool, less_of::<T>()),
    )
    &&& acts(
        meta,
        operator_name("OperatorLessEqual"@, false, ty, "Bool"@),
        |s: State, pool: &Pool| returning2_effect::<T, T, bool>(s, pool, less_equal_of::<T>()),
    )
    &&& acts(
        meta,
        operator_name("OperatorGreater"@, false, ty, "Bool"@),
        |s: State, pool: &Pool| returning2_effect::<T, T, bool>(s, pool, greater_of::<T>()),
    )
    &&& acts(
        meta,
        operator_name("OperatorGreaterEqual"@, false, ty, "Bool"@),
        |s: State, pool: &Pool| returning2_effect::<T, T, bool>(s, pool, greater_equal_of::<T>()),
    )
}

/// The head of each name of an operator is the operator.
pub proof fn lemma_arithmetic_heads(ty: Seq<char>)
    ensures
        head(operator_name("OperatorAdd"@, false, ty, ty)) == "OperatorAdd"@,
        head(operator_name("OperatorAssignAdd"@, true, ty, ty)) == "OperatorAssignAdd"@,
        head(operator_name("OperatorSubtract"@, false, ty, ty)) == "OperatorSubtract"@,
        head(operator_name("OperatorAssignSubtract"@, true, ty, ty)) == "OperatorAssignSubtract"@,
        head(operator_name("OperatorMultiply"@, false, ty, ty)) == "OperatorMultiply"@,
        head(operator_name("OperatorAssignMultiply"@, true, ty, ty)) == "OperatorAssignMultiply"@,
        head(operator_name("OperatorDivide"@, false, ty, ty)) == "OperatorDivide"@,
        head(operator_name("OperatorAssignDivide"@, true, ty, ty)) == "OperatorAssignDivide"@,
        head(operator_name("OperatorEqual"@, false, ty, "Bool"@)) == "OperatorEqual"@,
        head(operator_name("OperatorLess"@, false, ty, "Bool"@)) == "OperatorLess"@,
        head(operator_name("OperatorLessEqual"@, false, ty, "Bool"@)) == "OperatorLessEqual"@,
        head(operator_name("OperatorGreater"@, false, ty, "Bool"@)) == "OperatorGreater"@,
        head(operator_name("OperatorGreaterEqual"@, false, ty, "Bool"@)) == "OperatorGreaterEqual"@,
{
    lemma_words();
    lemma_operator_head("OperatorAdd"@, false, ty, ty);
    lemma_operator_head("OperatorAssignAdd"@, true, ty, ty);
    lemma_operator_head("OperatorSubtract"@, false, ty, ty);
    lemma_operator_head("OperatorAssignSubtract"@, true, ty, ty);
    lemma_operator_head("OperatorMultiply"@, false, ty, ty);
    lemma_operator_head("OperatorAssignMultiply"@, true, ty, ty);
    lemma_operator_head("OperatorDivide"@, false, ty, ty);
    lemma_operator_head("OperatorAssignDivide"@, true, ty, ty);
    lemma_operator_head("OperatorEqual"@, false, ty, "Bool"@);
    lemma_operator_head("OperatorLess"@, false, ty, "Bool"@);
    lemma_operator_head("OperatorLessEqual"@, false, ty, "Bool"@);
    lemma_operator_head("OperatorGreater"@, false, ty, "Bool"@);
    lemma_operator_head("OperatorGreaterEqual"@, false, ty, "Bool"@);
}

/// Registers the operators on the type `T`, whose name in programs is `ty`.
pub fn register_arithmetic<T: Integer + 'static>(meta: &mut Metadata, ty: &str)
    requires
        old(meta).wf(),
    ensures
        final(meta).wf(),
        extends(final(meta), old(meta)),
        keeps(final(meta), old(meta), arithmetic_names(ty@)),
        arithmetic_registered::<T>(final(meta), ty@),
{
    proof {
        assert forall|x: T| #[trigger] x@ == x by {
            x.view_is_self();
        }
        lemma_words();
        lemma_arithmetic_heads(ty@);
    }
    let ghost m0 = *meta;
    let ghost add_name = operator_name("OperatorAdd"@, false, ty@, ty@);
    let ghost assign_add_name = operator_name("OperatorAssignAdd"@, true, ty@, ty@);
    let ghost subtract_name = operator_name("OperatorSubtract"@, false, ty@, ty@);
    let ghost assign_subtract_name = operator_name("OperatorAssignSubtract"@, true, ty@, ty@);
    let ghost multiply_name = operator_name("OperatorMultiply"@, false, ty@, ty@);
    let ghost assign_multiply_name = operator_name("OperatorAssignMultiply"@, true, ty@, ty@);
    let ghost divide_name = operator_name("OperatorDivide"@, false, ty@, ty@);
    let ghost assign_divide_name = operator_name("OperatorAssignDivide"@, true, ty@, ty@);
    let ghost equal_name = operator_name("OperatorEqual"@, false, ty@, "Bool"@);
    let ghost less_name = operator_name("OperatorLess"@, false, ty@, "Bool"@);
    let ghost less_equal_name = operator_name("OperatorLessEqual"@, false, ty@, "Bool"@);
    let ghost greater_name = operator_name("OperatorGreater"@, false, ty@, "Bool"@);
    let ghost greater_equal_name = operator_name("OperatorGreaterEqual"@, false, ty@, "Bool"@);
    let ghost add_effect = |s: State, pool: &Pool|
        returning2_effect::<T, T, T>(s, pool, sum_of::<T>());
    let ghost assign_add_effect = |s: State, pool: &Pool|
        assigning2_effect::<T, T, T>(s, pool, assigned_sum_of::<T>());
    let ghost subtract_effect = |s: State, pool: &Pool|
        returning2_effect::<T, T, T>(s, pool, difference_of::<T>());
    let ghost assign_subtract_effect = |s: State, pool: &Pool|
        assigning2_effect::<T, T, T>(s, pool, assigned_difference_of::<T>());
    let ghost multiply_effect = |s: State, pool: &Pool|
        returning2_effect::<T, T, T>(s, pool, product_of::<T>());
    let ghost assign_multiply_effect = |s: State, pool: &Pool|
        assigning2_effect::<T, T, T>(s, pool, assigned_product_of::<T>());
    let ghost divide_effect = |s: State, pool: &Pool|
        partial2_effect::<T, T, T>(s, pool, quotient_of::<T>());
    let ghost assign_divide_effect = |s: State, pool: &Pool|
        partial_assigning2_effect::<T, T, T>(s, pool, assigned_quotient_of::<T>());
    let ghost equal_effect = |s: State, pool: &Pool|
        returning2_effect::<T, T, bool>(s, pool, equal_of::<T>());
    let ghost less_effect = |s: State, pool: &Pool|
        returning2_effect::<T, T, bool>(s, pool, less_of::<T>());
    let ghost less_equal_effect = |s: State, pool: &Pool|
        returning2_effect::<T, T, bool>(s, pool, less_equal_of::<T>());
    let ghost greater_effect = |s: State, pool: &Pool|
        returning2_effect::<T, T, bool>(s, pool, greater_of::<T>());
    let ghost greater_equal_effect = |s: State, pool: &Pool|
        returning2_effect::<T, T, bool>(s, pool, greater_equal_of::<T>());
    register(
        meta,
        name_of("OperatorAdd", false, ty, ty).as_str(),
        returning2_as(operator_add::<T>, Ghost(sum_of::<T>())),
    );
    let ghost m1 = *meta;
    proof {
        assert(acts(&m1, add_name, add_effect));
        assert(keeps(&m1, &m0, arithmetic_names(ty@)));
    }
    register(
        meta,
        name_of("OperatorAssignAdd", true, ty, ty).as_str(),
        assigning2_as(operator_assign_add::<T>, Ghost(assigned_sum_of::<T>())),
    );
    let ghost m2 = *meta;
    proof {
        assert(acts(&m2, assign_add_name, assign_add_effect));
        lemma_extends(&m0, &m1, &m2, arithmetic_names(ty@), set![assign_add_name]);
        assert(arithmetic_names(ty@).union(set![assign_add_name]) =~= arithmetic_names(ty@));
        lemma_acts_kept(&m1, &m2, set![assign_add_name], add_name, add_effect);
    }
    register(
        meta,
        name_of("OperatorSubtract", false, ty, ty).as_str(),
        returning2_as(operator_subtract::<T>, Ghost(difference_of::<T>())),
    );
    let ghost m3 = *meta;
    proof {
        assert(acts(&m3, subtract_name, subtract_effect));
        lemma_extends(&m0, &m2, &m3, arithmetic_names(ty@), set![subtract_name]);
        assert(arithmetic_names(ty@).union(set![subtract_name]) =~= arithmetic_names(ty@));
        lemma_acts_kept(&m2, &m3, set![subtract_name], add_name, add_effect);
        lemma_acts_kept(&m2, &m3, set![subtract_name], assign_add_name, assign_add_effect);
    }
    register(
        meta,
        name_of("OperatorAssignSubtract", true, ty, ty).as_str(),
        assigning2_as(operator_assign_subtract::<T>, Ghost(assigned_difference_of::<T>())),
    );
    let ghost m4 = *meta;
    proof {
        assert(acts(&m4, assign_subtract_name, assign_subtract_effect));
        lemma_extends(&m0, &m3, &m4, arithmetic_names(ty@), set![assign_subtract_name]);
        assert(arithmetic_names(ty@).union(set![assign_subtract_name]) =~= arithmetic_names(ty@));
        lemma_acts_kept(&m3, &m4, set![assign_subtract_name], add_name, add_effect);
        lemma_acts_kept(&m3, &m4, set![assign_subtract_name], assign_add_name, assign_add_effect);
        lemma_acts_kept(&m3, &m4, set![assign_subtract_name], subtract_name, subtract_effect);
    }
    register(
        meta,
        name_of("OperatorMultiply", false, ty, ty).as_str(),
        returning2_as(operator_multiply::<T>, Ghost(product_of::<T>())),
    );
    let ghost m5 = *meta;
    proof {
        assert(acts(&m5, multiply_name, multiply_effect));
        lemma_extends(&m0, &m4, &m5, arithmetic_names(ty@), set![multiply_name]);
        assert(arithmetic_names(ty@).union(set![multiply_name]) =~= arithmetic_names(ty@));
        lemma_acts_kept(&m4, &m5, set![multiply_name], add_name, add_effect);
        lemma_acts_kept(&m4, &m5, set![multiply_name], assign_add_name, assign_add_effect);
        lemma_acts_kept(&m4, &m5, set![multiply_name], subtract_name, subtract_effect);
        lemma_acts_kept(&m4, &m5, set![multiply_name], assign_subtract_name, assign_subtract_effect);
    }
    register(
        meta,
        name_of("OperatorAssignMultiply", true, ty, ty).as_str(),
        assigning2_as(operator_assign_multiply::<T>, Ghost(assigned_product_of::<T>())),
    );
    let ghost m6 = *meta;
    proof {
        assert(acts(&m6, assign_multiply_name, assign_multiply_effect));
        lemma_extends(&m0, &m5, &m6, arithmetic_names(ty@), set![assign_multiply_name]);
        assert(arithmetic_names(ty@).union(set![assign_multiply_name]) =~= arithmetic_names(ty@));
        lemma_acts_kept(&m5, &m6, set![assign_multiply_name], add_name, add_effect);
        lemma_acts_kept(&m5, &m6, set![assign_multiply_name], assign_add_name, assign_add_effect);
        lemma_acts_kept(&m5, &m6, set![assign_multiply_name], subtract_name, subtract_effect);
        lemma_acts_kept(&m5, &m6, set![assign_multiply_name], assign_subtract_name, assign_subtract_effect);
        lemma_acts_kept(&m5, &m6, set![assign_multiply_name], multiply_name, multiply_effect);
    }
    register(
        meta,
        name_of("OperatorDivide", false, ty, ty).as_str(),
        partial2_as(operator_divide::<T>, Ghost(quotient_of::<T>())),
    );
    let ghost m7 = *meta;
    proof {
        assert(acts(&m7, divide_name, divide_effect));
        lemma_extends(&m0, &m6, &m7, arithmetic_names(ty@), set![divide_name]);
        assert(arithmetic_names(ty@).union(set![divide_name]) =~= arithmetic_names(ty@));
        lemma_acts_kept(&m6, &m7, set![divide_name], add_name, add_effect);
        lemma_acts_kept(&m6, &m7, set![divide_name], assign_add_name, assign_add_effect);
        lemma_acts_kept(&m6, &m7, set![divide_name], subtract_name, subtract_effect);
        lemma_acts_kept(&m6, &m7, set![divide_name], assign_subtract_name, assign_subtract_effect);
        lemma_acts_kept(&m6, &m7, set![divide_name], multiply_name, multiply_effect);
        lemma_acts_kept(&m6, &m7, set![divide_name], assign_multiply_name, assign_multiply_effect);
    }
    register(
        meta,
        name_of("OperatorAssignDivide", true, ty, ty).as_str(),
        partial_assigning2_as(operator_assign_divide::<T>, Ghost(assigned_quotient_of::<T>())),
    );
    let ghost m8 = *meta;
    proof {
        assert(acts(&m8, assign_divide_name, assign_divide_effect));
        lemma_extends(&m0, &m7, &m8, arithmetic_names(ty@), set![assign_divide_name]);
        assert(arithmetic_names(ty@).union(set![assign_divide_name]) =~= arithmetic_names(ty@));
        lemma_acts_kept(&m7, &m8, set![assign_divide_name], add_name, add_effect);
        lemma_acts_kept(&m7, &m8, set![assign_divide_name], assign_add_name, assign_add_effect);
        lemma_acts_kept(&m7, &m8, set![assign_divide_name], subtract_name, subtract_effect);
        lemma_acts_kept(&m7, &m8, set![assign_divide_name], assign_subtract_name, assign_subtract_effect);
        lemma_acts_kept(&m7, &m8, set![assign_divide_name], multiply_name, multiply_effect);
        lemma_acts_kept(&m7, &m8, set![assign_divide_name], assign_multiply_name, assign_multiply_effect);
        lemma_acts_kept(&m7, &m8, set![assign_divide_name], divide_name, divide_effect);
    }
    register(
        meta,
        name_of("OperatorEqual", false, ty, "Bool").as_str(),
        returning2_as(operator_equal::<T>, Ghost(equal_of::<T>())),
    );
    let ghost m9 = *meta;
    proof {
        assert(acts(&m9, equal_name, equal_effect));
        lemma_extends(&m0, &m8, &m9, arithmetic_names(ty@), set![equal_name]);
        assert(arithmetic_names(ty@).union(set![equal_name]) =~= arithmetic_names(ty@));
        lemma_acts_kept(&m8, &m9, set![equal_name], add_name, add_effect);
        lemma_acts_kept(&m8, &m9, set![equal_name], assign_add_name, assign_add_effect);
        lemma_acts_kept(&m8, &m9, set![equal_name], subtract_name, subtract_effect);
        lemma_acts_kept(&m8, &m9, set![equal_name], assign_subtract_name, assign_subtract_effect);
        lemma_acts_kept(&m8, &m9, set![equal_name], multiply_name, multiply_effect);
        lemma_acts_kept(&m8, &m9, set![equal_name], assign_multiply_name, assign_multiply_effect);
        lemma_acts_kept(&m8, &m9, set![equal_name], divide_name, divide_effect);
        lemma_acts_kept(&m8, &m9, set![equal_name], assign_divide_name, assign_divide_effect);
    }
    register(
        meta,
        name_of("OperatorLess", false, ty, "Bool").as_str(),
        returning2_as(operator_less::<T>, Ghost(less_of::<T>())),
    );
    let ghost m10 = *meta;
    proof {
        assert(acts(&m10, less_name, less_effect));
        lemma_extends(&m0, &m9, &m10, arithmetic_names(ty@), set![less_name]);
        assert(arithmetic_names(ty@).union(set![less_name]) =~= arithmetic_names(ty@));
        lemma_acts_kept(&m9, &m10, set![less_name], add_name, add_effect);
        lemma_acts_kept(&m9, &m10, set![less_name], assign_add_name, assign_add_effect);
        lemma_acts_kept(&m9, &m10, set![less_name], subtract_name, subtract_effect);
        lemma_acts_kept(&m9, &m10, set![less_name], assign_subtract_name, assign_subtract_effect);
        lemma_acts_kept(&m9, &m10, set![less_name], multiply_name, multiply_effect);
        lemma_acts_kept(&m9, &m10, set![less_name], assign_multiply_name, assign_multiply_effect);
        lemma_acts_kept(&m9, &m10, set![less_name], divide_name, divide_effect);
        lemma_acts_kept(&m9, &m10, set![less_name], assign_divide_name, assign_divide_effect);
        lemma_acts_kept(&m9, &m10, set![less_name], equal_name, equal_effect);
    }
    register(
        meta,
        name_of("OperatorLessEqual", false, ty, "Bool").as_str(),
        returning2_as(operator_less_equal::<T>, Ghost(less_equal_of::<T>())),
    );
    let ghost m11 = *meta;
    proof {
        assert(acts(&m11, less_equal_name, less_equal_effect));
        lemma_extends(&m0, &m10, &m11, arithmetic_names(ty@), set![less_equal_name]);
        assert(arithmetic_names(ty@).union(set![less_equal_name]) =~= arithmetic_names(ty@));
        lemma_acts_kept(&m10, &m11, set![less_equal_name], add_name, add_effect);
        lemma_acts_kept(&m10, &m11, set![less_equal_name], assign_add_name, assign_add_effect);
        lemma_acts_kept(&m10, &m11, set![less_equal_name], subtract_name, subtract_effect);
        lemma_acts_kept(&m10, &m11, set![less_equal_name], assign_subtract_name, assign_subtract_effect);
        lemma_acts_kept(&m10, &m11, set![less_equal_name], multiply_name, multiply_effect);
        lemma_acts_kept(&m10, &m11, set![less_equal_name], assign_multiply_name, assign_multiply_effect);
        lemma_acts_kept(&m10, &m11, set![less_equal_name], divide_name, divide_effect);
        lemma_acts_kept(&m10, &m11, set![less_equal_name], assign_divide_name, assign_divide_effect);
        lemma_acts_kept(&m10, &m11, set![less_equal_name], equal_name, equal_effect);
        lemma_acts_kept(&m10, &m11, set![less_equal_name], less_name, less_effect);
    }
    register(
        meta,
        name_of("OperatorGreater", false, ty, "Bool").as_str(),
        returning2_as(operator_greater::<T>, Ghost(greater_of::<T>())),
    );
    let ghost m12 = *meta;
    proof {
        assert(acts(&m12, greater_name, greater_effect));
        lemma_extends(&m0, &m11, &m12, arithmetic_names(ty@), set![greater_name]);
        assert(arithmetic_names(ty@).union(set![greater_name]) =~= arithmetic_names(ty@));
        lemma_acts_kept(&m11, &m12, set![greater_name], add_name, add_effect);
        lemma_acts_kept(&m11, &m12, set![greater_name], assign_add_name, assign_add_effect);
        lemma_acts_kept(&m11, &m12, set![greater_name], subtract_name, subtract_effect);
        lemma_acts_kept(&m11, &m12, set![greater_name], assign_subtract_name, assign_subtract_effect);
        lemma_acts_kept(&m11, &m12, set![greater_name], multiply_name, multiply_effect);
        lemma_acts_kept(&m11, &m12, set![greater_name], assign_multiply_name, assign_multiply_effect);
        lemma_acts_kept(&m11, &m12, set![greater_name], divide_name, divide_effect);
        lemma_acts_kept(&m11, &m12, set![greater_name], assign_divide_name, assign_divide_effect);
        lemma_acts_kept(&m11, &m12, set![greater_name], equal_name, equal_effect);
        lemma_acts_kept(&m11, &m12, set![greater_name], less_name, less_effect);
        lemma_acts_kept(&m11, &m12, set![greater_name], less_equal_name, less_equal_effect);
    }
    register(
        meta,
        name_of("OperatorGreaterEqual", false, ty, "Bool").as_str(),
        returning2_as(operator_greater_equal::<T>, Ghost(greater_equal_of::<T>())),
    );
    let ghost m13 = *meta;
    proof {
        assert(acts(&m13, greater_equal_name, greater_equal_effect));
        lemma_extends(&m0, &m12, &m13, arithmetic_names(ty@), set![greater_equal_name]);
        assert(arithmetic_names(ty@).union(set![greater_equal_name]) =~= arithmetic_names(ty@));
        lemma_acts_kept(&m12, &m13, set![greater_equal_name], add_name, add_effect);
        lemma_acts_kept(&m12, &m13, set![greater_equal_name], assign_add_name, assign_add_effect);
        lemma_acts_kept(&m12, &m13, set![greater_equal_name], subtract_name, subtract_effect);
        lemma_acts_kept(&m12, &m13, set![greater_equal_name], assign_subtract_name, assign_subtract_effect);
        lemma_acts_kept(&m12, &m13, set![greater_equal_name], multiply_name, multiply_effect);
        lemma_acts_kept(&m12, &m13, set![greater_equal_name], assign_multiply_name, assign_multiply_effect);
        lemma_acts_kept(&m12, &m13, set![greater_equal_name], divide_name, divide_effect);
        lemma_acts_kept(&m12, &m13, set![greater_equal_name], assign_divide_name, assign_divide_effect);
        lemma_acts_kept(&m12, &m13, set![greater_equal_name], equal_name, equal_effect);
        lemma_acts_kept(&m12, &m13, set![greater_equal_name], less_name, less_effect);
        lemma_acts_kept(&m12, &m13, set![greater_equal_name], less_equal_name, less_equal_effect);
        lemma_acts_kept(&m12, &m13, set![greater_equal_name], greater_name, greater_effect);
    }
}

/// The names of the operators on two different types differ.
pub proof fn lemma_arithmetic_apart(first: Seq<char>, second: Seq<char>)
    requires
        first != second,
    ensures
        arithmetic_names(first).disjoint(arithmetic_names(second)),
{
    lemma_words();
    lemma_arithmetic_heads(first);
    lemma_arithmetic_heads(second);
    assert forall|name: Seq<char>|
        arithmetic_names(first).contains(name) && arithmetic_names(second).contains(
            name,
        ) implies false by {
        if name == operator_name("OperatorAdd"@, false, first, first)
            && name == operator_name("OperatorAdd"@, false, second, second) {
            lemma_same_operator("OperatorAdd"@, false, first, first, second, second);
        }
        if name == operator_name("OperatorAssignAdd"@, true, first, first)
            && name == operator_name("OperatorAssignAdd"@, true, second, second) {
            lemma_same_operator("OperatorAssignAdd"@, true, first, first, second, second);
        }
        if name == operator_name("OperatorSubtract"@, false, first, first)
            && name == operator_name("OperatorSubtract"@, false, second, second) {
            lemma_same_operator("OperatorSubtract"@, false, first, first, second, second);
        }
        if name == operator_name("OperatorAssignSubtract"@, true, first, first)
            && name == operator_name("OperatorAssignSubtract"@, true, second, second) {
            lemma_same_operator("OperatorAssignSubtract"@, true, first, first, second, second);
        }
        if name == operator_name("OperatorMultiply"@, false, first, first)
            && name == operator_name("OperatorMultiply"@, false, second, second) {
            lemma_same_operator("OperatorMultiply"@, false, first, first, second, second);
        }
        if name == operator_name("OperatorAssignMultiply"@, true, first, first)
            && name == operator_name("OperatorAssignMultiply"@, true, second, second) {
            lemma_same_operator("OperatorAssignMultiply"@, true, first, first, second, second);
        }
        if name == operator_name("OperatorDivide"@, false, first, first)
            && name == operator_name("OperatorDivide"@, false, second, second) {
            lemma_same_operator("OperatorDivide"@, false, first, first, second, second);
        }
        if name == operator_name("OperatorAssignDivide"@, true, first, first)
            && name == operator_name("OperatorAssignDivide"@, true, second, second) {
            lemma_same_operator("OperatorAssignDivide"@, true, first, first, second, second);
        }
        if name == operator_name("OperatorEqual"@, false, first, "Bool"@)
            && name == operator_name("OperatorEqual"@, false, second, "Bool"@) {
            lemma_same_operator("OperatorEqual"@, false, first, "Bool"@, second, "Bool"@);
        }
        if name == operator_name("OperatorLess"@, false, first, "Bool"@)
            && name == operator_name("OperatorLess"@, false, second, "Bool"@) {
            lemma_same_operator("OperatorLess"@, false, first, "Bool"@, second, "Bool"@);
        }
        if name == operator_name("OperatorLessEqual"@, false, first, "Bool"@)
            && name == operator_name("OperatorLessEqual"@, false, second, "Bool"@) {
            lemma_same_operator("OperatorLessEqual"@, false, first, "Bool"@, second, "Bool"@);
        }
        if name == operator_name("OperatorGreater"@, false, first, "Bool"@)
            && name == operator_name("OperatorGreater"@, false, second, "Bool"@) {
            lemma_same_operator("OperatorGreater"@, false, first, "Bool"@, second, "Bool"@);
        }
        if name == operator_name("OperatorGreaterEqual"@, false, first, "Bool"@)
            && name == operator_name("OperatorGreaterEqual"@, false, second, "Bool"@) {
            lemma_same_operator("OperatorGreaterEqual"@, false, first, "Bool"@, second, "Bool"@);
        }
    }
}

/// The operators on a type go on doing what they did when more is
/// registered under other names.
pub proof fn lemma_arithmetic_kept<T: Integer>(
    before: &Metadata,
    after: &Metadata,
    names: Set<Seq<char>>,
    ty: Seq<char>,
)
    requires
        extends(after, before),
        keeps(after, before, names),
        arithmetic_names(ty).disjoint(names),
        arithmetic_registered::<T>(before, ty),
    ensures
        arithmetic_registered::<T>(after, ty),
{
    let add_name = operator_name("OperatorAdd"@, false, ty, ty);
    assert(arithmetic_names(ty).contains(add_name));
    lemma_acts_kept(
        before,
        after,
        names,
        add_name,
        |s: State, pool: &Pool| returning2_effect::<T, T, T>(s, pool, sum_of::<T>()),
    );
    let assign_add_name = operator_name("OperatorAssignAdd"@, true, ty, ty);
    assert(arithmetic_names(ty).contains(assign_add_name));
    lemma_acts_kept(
        before,
        after,
        names,
        assign_add_name,
        |s: State, pool: &Pool| assigning2_effect::<T, T, T>(s, pool, assigned_sum_of::<T>()),
    );
    let subtract_name = operator_name("OperatorSubtract"@, false, ty, ty);
    assert(arithmetic_names(ty).contains(subtract_name));
    lemma_acts_kept(
        before,
        after,
        names,
        subtract_name,
        |s: State, pool: &Pool| returning2_effect::<T, T, T>(s, pool, difference_of::<T>()),
    );
    let assign_subtract_name = operator_name("OperatorAssignSubtract"@, true, ty, ty);
    assert(arithmetic_names(ty).contains(assign_subtract_name));
    lemma_acts_kept(
        before,
        after,
        names,
        assign_subtract_name,
        |s: State, pool: &Pool| assigning2_effect::<T, T, T>(s, pool, assigned_difference_of::<T>()),
    );
    let multiply_name = operator_name("OperatorMultiply"@, false, ty, ty);
    assert(arithmetic_names(ty).contains(multiply_name));
    lemma_acts_kept(
        before,
        after,
        names,
        multiply_name,
        |s: State, pool: &Pool| returning2_effect::<T, T, T>(s, pool, product_of::<T>()),
    );
    let assign_multiply_name = operator_name("OperatorAssignMultiply"@, true, ty, ty);
    assert(arithmetic_names(ty).contains(assign_multiply_name));
    lemma_acts_kept(
        before,
        after,
        names,
        assign_multiply_name,
        |s: State, pool: &Pool| assigning2_effect::<T, T, T>(s, pool, assigned_product_of::<T>()),
    );
    let divide_name = operator_name("OperatorDivide"@, false, ty, ty);
    assert(arithmetic_names(ty).contains(divide_name));
    lemma_acts_kept(
        before,
        after,
        names,
        divide_name,
        |s: State, pool: &Pool| partial2_effect::<T, T, T>(s, pool, quotient_of::<T>()),
    );
    let assign_divide_name = operator_name("OperatorAssignDivide"@, true, ty, ty);
    assert(arithmetic_names(ty).contains(assign_divide_name));
    lemma_acts_kept(
        before,
        after,
        names,
        assign_divide_name,
        |s: State, pool: &Pool| partial_assigning2_effect::<T, T, T>(s, pool, assigned_quotient_of::<T>()),
    );
    let equal_name = operator_name("OperatorEqual"@, false, ty, "Bool"@);
    assert(arithmetic_names(ty).contains(equal_name));
    lemma_acts_kept(
        before,
        after,
        names,
        equal_name,
        |s: State, pool: &Pool| returning2_effect::<T, T, bool>(s, pool, equal_of::<T>()),
    );
    let less_name = operator_name("OperatorLess"@, false, ty, "Bool"@);
    assert(arithmetic_names(ty).contains(less_name));
    lemma_acts_kept(
        before,
        after,
        names,
        less_name,
        |s: State, pool: &Pool| returning2_effect::<T, T, bool>(s, pool, less_of::<T>()),
    );
    let less_equal_name = operator_name("OperatorLessEqual"@, false, ty, "Bool"@);
    assert(arithmetic_names(ty).contains(less_equal_name));
    lemma_acts_kept(
        before,
        after,
        names,
        less_equal_name,
        |s: State, pool: &Pool| returning2_effect::<T, T, bool>(s, pool, less_equal_of::<T>()),
    );
    let greater_name = operator_name("OperatorGreater"@, false, ty, "Bool"@);
    assert(arithmetic_names(ty).contains(greater_name));
    lemma_acts_kept(
        before,
        after,
        names,
        greater_name,
        |s: State, pool: &Pool| returning2_effect::<T, T, bool>(s, pool, greater_of::<T>()),
    );
    let greater_equal_name = operator_name("OperatorGreaterEqual"@, false, ty, "Bool"@);
    assert(arithmetic_names(ty).contains(greater_equal_name));
    lemma_acts_kept(
        before,
        after,
        names,
        greater_equal_name,
        |s: State, pool: &Pool| returning2_effect::<T, T, bool>(s, pool, greater_equal_of::<T>()),
    );
}

/// What the conversion of a number to another type of whole numbers gives:
/// the number that the target type holds for its value.
pub open spec fn converted<A: Integer, B: Integer>() -> spec_fn(A) -> Option<B> {
    |x: A| Some(B::narrowed(x.wide()))
}

/// Whether the conversion from the type `A`, named `from`, to the type `B`,
/// named `to`, does what it is named after, unless the two names are the
/// same.
pub open spec fn cast_registered<A: Integer, B: Integer>(
    meta: &Metadata,
    from: Seq<char>,
    to: Seq<char>,
) -> bool {
    from != to ==> acts(
        meta,
        cast_name(from, to),
        |s: State, pool: &Pool| returning1_effect::<A, B>(s, pool, converted::<A, B>()),
    )
}

/// Registers the conversion from `A` to `B`, unless the two are the same.
pub fn register_cast<A: Integer + 'static, B: Integer + 'static>(
    meta: &mut Metadata,
    from: &str,
    to: &str,
)
    requires
        old(meta).wf(),
    ensures
        final(meta).wf(),
        extends(final(meta), old(meta)),
        keeps(final(meta), old(meta), set![cast_name(from@, to@)]),
        cast_registered::<A, B>(final(meta), from@, to@),
{
    if String::from_str(from) != String::from_str(to) {
        proof {
            assert forall|x: A| #[trigger] x@ == x by {
                x.view_is_self();
            }
            assert forall|x: B| #[trigger] x@ == x by {
                x.view_is_self();
            }
        }
        register(
            meta,
            cast_name_of(from, to).as_str(),
            returning1_as(cast::<A, B>, Ghost(converted::<A, B>())),
        );
    }
}

/// A conversion goes on doing what it did when more is registered under
/// other names.
pub proof fn lemma_cast_kept<A: Integer, B: Integer>(
    before: &Metadata,
    after: &Metadata,
    names: Set<Seq<char>>,
    from: Seq<char>,
    to: Seq<char>,
)
    requires
        extends(after, before),
        keeps(after, before, names),
        !names.contains(cast_name(from, to)),
        cast_registered::<A, B>(before, from, to),
    ensures
        cast_registered::<A, B>(after, from, to),
{
    if from != to {
        lemma_acts_kept(
            before,
            after,
            names,
            cast_name(from, to),
            |s: State, pool: &Pool| returning1_effect::<A, B>(s, pool, converted::<A, B>()),
        );
    }
}

/// Two conversions from one type that have one name have one target.
pub proof fn lemma_same_target(from: Seq<char>, to: Seq<char>, other_to: Seq<char>)
    requires
        cast_name(from, to) == cast_name(from, other_to),
    ensures
        to == other_to,
{
    assert(cast_name(from, to).skip((6 + from.len()) as int) =~= to) by {
        reveal_strlit("Cast;");
        reveal_strlit(";");
    }
    assert(cast_name(from, other_to).skip((6 + from.len()) as int) =~= other_to) by {
        reveal_strlit("Cast;");
        reveal_strlit(";");
    }
}

/// The names of the conversions from the type `from` to the types of whole
/// numbers.
pub open spec fn cast_names(from: Seq<char>) -> Set<Seq<char>> {
    Set::new(
        |name: Seq<char>|
            {
                   name == cast_name(from, "Int8"@)
                || name == cast_name(from, "Int16"@)
                || name == cast_name(from, "Int32"@)
                || name == cast_name(from, "Int64"@)
                || name == cast_name(from, "Uint8"@)
                || name == cast_name(from, "Uint16"@)
                || name == cast_name(from, "Uint32"@)
                || name == cast_name(from, "Uint64"@)
            },
    )
}

/// Whether the conversions from the type `A`, whose name in programs is
/// `from`, to the other types of whole numbers do what they are named
/// after.
pub open spec fn casts_registered<A: Integer>(meta: &Metadata, from: Seq<char>) -> bool {
    &&& cast_registered::<A, i8>(meta, from, "Int8"@)
    &&& cast_registered::<A, i16>(meta, from, "Int16"@)
    &&& cast_registered::<A, i32>(meta, from, "Int32"@)
    &&& cast_registered::<A, i64>(meta, from, "Int64"@)
    &&& cast_registered::<A, u8>(meta, from, "Uint8"@)
    &&& cast_registered::<A, u16>(meta, from, "Uint16"@)
    &&& cast_registered::<A, u32>(meta, from, "Uint32"@)
    &&& cast_registered::<A, u64>(meta, from, "Uint64"@)
}

/// Registers the conversions from `A`, whose name in programs is `from`, to
/// the other types of whole numbers.
pub fn register_casts<A: Integer + 'static>(meta: &mut Metadata, from: &str)
    requires
        old(meta).wf(),
    ensures
        final(meta).wf(),
        extends(final(meta), old(meta)),
        keeps(final(meta), old(meta), cast_names(from@)),
        casts_registered::<A>(final(meta), from@),
{
    proof {
        lemma_words();
    }
    let ghost m0 = *meta;
    let ghost to_i8 = cast_name(from@, "Int8"@);
    let ghost to_i16 = cast_name(from@, "Int16"@);
    let ghost to_i32 = cast_name(from@, "Int32"@);
    let ghost to_i64 = cast_name(from@, "Int64"@);
    let ghost to_u8 = cast_name(from@, "Uint8"@);
    let ghost to_u16 = cast_name(from@, "Uint16"@);
    let ghost to_u32 = cast_name(from@, "Uint32"@);
    let ghost to_u64 = cast_name(from@, "Uint64"@);
    register_cast::<A, i8>(meta, from, "Int8");
    let ghost m1 = *meta;
    proof {
        assert(keeps(&m1, &m0, cast_names(from@)));
    }
    register_cast::<A, i16>(meta, from, "Int16");
    let ghost m2 = *meta;
    proof {
        lemma_extends(&m0, &m1, &m2, cast_names(from@), set![to_i16]);
        assert(cast_names(from@).union(set![to_i16]) =~= cast_names(from@));
        if to_i8 == to_i16 {
            lemma_same_target(from@, "Int8"@, "Int16"@);
        }
        lemma_cast_kept::<A, i8>(&m1, &m2, set![to_i16], from@, "Int8"@);
    }
    register_cast::<A, i32>(meta, from, "Int32");
    let ghost m3 = *meta;
    proof {
        lemma_extends(&m0, &m2, &m3, cast_names(from@), set![to_i32]);
        assert(cast_names(from@).union(set![to_i32]) =~= cast_names(from@));
        if to_i8 == to_i32 {
            lemma_same_target(from@, "Int8"@, "Int32"@);
        }
        lemma_cast_kept::<A, i8>(&m2, &m3, set![to_i32], from@, "Int8"@);
        if to_i16 == to_i32 {
            lemma_same_target(from@, "Int16"@, "Int32"@);
        }
        lemma_cast_kept::<A, i16>(&m2, &m3, set![to_i32], from@, "Int16"@);
    }
    register_cast::<A, i64>(meta, from, "Int64");
    let ghost m4 = *meta;
    proof {
        lemma_extends(&m0, &m3, &m4, cast_names(from@), set![to_i64]);
        assert(cast_names(from@).union(set![to_i64]) =~= cast_names(from@));
        if to_i8 == to_i64 {
            lemma_same_target(from@, "Int8"@, "Int64"@);
        }
        lemma_cast_kept::<A, i8>(&m3, &m4, set![to_i64], from@, "Int8"@);
        if to_i16 == to_i64 {
            lemma_same_target(from@, "Int16"@, "Int64"@);
        }
        lemma_cast_kept::<A, i16>(&m3, &m4, set![to_i64], from@, "Int16"@);
        if to_i32 == to_i64 {
            lemma_same_target(from@, "Int32"@, "Int64"@);
        }
        lemma_cast_kept::<A, i32>(&m3, &m4, set![to_i64], from@, "Int32"@);
    }
    register_cast::<A, u8>(meta, from, "Uint8");
    let ghost m5 = *meta;
    proof {
        lemma_extends(&m0, &m4, &m5, cast_names(from@), set![to_u8]);
        assert(cast_names(from@).union(set![to_u8]) =~= cast_names(from@));
        if to_i8 == to_u8 {
            lemma_same_target(from@, "Int8"@, "Uint8"@);
        }
        lemma_cast_kept::<A, i8>(&m4, &m5, set![to_u8], from@, "Int8"@);
        if to_i16 == to_u8 {
            lemma_same_target(from@, "Int16"@, "Uint8"@);
        }
        lemma_cast_kept::<A, i16>(&m4, &m5, set![to_u8], from@, "Int16"@);
        if to_i32 == to_u8 {
            lemma_same_target(from@, "Int32"@, "Uint8"@);
        }
        lemma_cast_kept::<A, i32>(&m4, &m5, set![to_u8], from@, "Int32"@);
        if to_i64 == to_u8 {
            lemma_same_target(from@, "Int64"@, "Uint8"@);
        }
        lemma_cast_kept::<A, i64>(&m4, &m5, set![to_u8], from@, "Int64"@);
    }
    register_cast::<A, u16>(meta, from, "Uint16");
    let ghost m6 = *meta;
    proof {
        lemma_extends(&m0, &m5, &m6, cast_names(from@), set![to_u16]);
        assert(cast_names(from@).union(set![to_u16]) =~= cast_names(from@));
        if to_i8 == to_u16 {
            lemma_same_target(from@, "Int8"@, "Uint16"@);
        }
        lemma_cast_kept::<A, i8>(&m5, &m6, set![to_u16], from@, "Int8"@);
        if to_i16 == to_u16 {
            lemma_same_target(from@, "Int16"@, "Uint16"@);
        }
        lemma_cast_kept::<A, i16>(&m5, &m6, set![to_u16], from@, "Int16"@);
        if to_i32 == to_u16 {
            lemma_same_target(from@, "Int32"@, "Uint16"@);
        }
        lemma_cast_kept::<A, i32>(&m5, &m6, set![to_u16], from@, "Int32"@);
        if to_i64 == to_u16 {
            lemma_same_target(from@, "Int64"@, "Uint16"@);
        }
        lemma_cast_kept::<A, i64>(&m5, &m6, set![to_u16], from@, "Int64"@);
        if to_u8 == to_u16 {
            lemma_same_target(from@, "Uint8"@, "Uint16"@);
        }
        lemma_cast_kept::<A, u8>(&m5, &m6, set![to_u16], from@, "Uint8"@);
    }
    register_cast::<A, u32>(meta, from, "Uint32");
    let ghost m7 = *meta;
    proof {
        lemma_extends(&m0, &m6, &m7, cast_names(from@), set![to_u32]);
        assert(cast_names(from@).union(set![to_u32]) =~= cast_names(from@));
        if to_i8 == to_u32 {
            lemma_same_target(from@, "Int8"@, "Uint32"@);
        }
        lemma_cast_kept::<A, i8>(&m6, &m7, set![to_u32], from@, "Int8"@);
        if to_i16 == to_u32 {
            lemma_same_target(from@, "Int16"@, "Uint32"@);
        }
        lemma_cast_kept::<A, i16>(&m6, &m7, set![to_u32], from@, "Int16"@);
        if to_i32 == to_u32 {
            lemma_same_target(from@, "Int32"@, "Uint32"@);
        }
        lemma_cast_kept::<A, i32>(&m6, &m7, set![to_u32], from@, "Int32"@);
        if to_i64 == to_u32 {
            lemma_same_target(from@, "Int64"@, "Uint32"@);
        }
        lemma_cast_kept::<A, i64>(&m6, &m7, set![to_u32], from@, "Int64"@);
        if to_u8 == to_u32 {
            lemma_same_target(from@, "Uint8"@, "Uint32"@);
        }
        lemma_cast_kept::<A, u8>(&m6, &m7, set![to_u32], from@, "Uint8"@);
        if to_u16 == to_u32 {
            lemma_same_target(from@, "Uint16"@, "Uint32"@);
        }
        lemma_cast_kept::<A, u16>(&m6, &m7, set![to_u32], from@, "Uint16"@);
    }
    register_cast::<A, u64>(meta, from, "Uint64");
    let ghost m8 = *meta;
    proof {
        lemma_extends(&m0, &m7, &m8, cast_names(from@), set![to_u64]);
        assert(cast_names(from@).union(set![to_u64]) =~= cast_names(from@));
        if to_i8 == to_u64 {
            lemma_same_target(from@, "Int8"@, "Uint64"@);
        }
        lemma_cast_kept::<A, i8>(&m7, &m8, set![to_u64], from@, "Int8"@);
        if to_i16 == to_u64 {
            lemma_same_target(from@, "Int16"@, "Uint64"@);
        }
        lemma_cast_kept::<A, i16>(&m7, &m8, set![to_u64], from@, "Int16"@);
        if to_i32 == to_u64 {
            lemma_same_target(from@, "Int32"@, "Uint64"@);
        }
        lemma_cast_kept::<A, i32>(&m7, &m8, set![to_u64], from@, "Int32"@);
        if to_i64 == to_u64 {
            lemma_same_target(from@, "Int64"@, "Uint64"@);
        }
        lemma_cast_kept::<A, i64>(&m7, &m8, set![to_u64], from@, "Int64"@);
        if to_u8 == to_u64 {
            lemma_same_target(from@, "Uint8"@, "Uint64"@);
        }
        lemma_cast_kept::<A, u8>(&m7, &m8, set![to_u64], from@, "Uint8"@);
        if to_u16 == to_u64 {
            lemma_same_target(from@, "Uint16"@, "Uint64"@);
        }
        lemma_cast_kept::<A, u16>(&m7, &m8, set![to_u64], from@, "Uint16"@);
        if to_u32 == to_u64 {
            lemma_same_target(from@, "Uint32"@, "Uint64"@);
        }
        lemma_cast_kept::<A, u32>(&m7, &m8, set![to_u64], from@, "Uint32"@);
    }
}

/// The names of the conversions from two different types, both of unbroken
/// names, differ.
pub proof fn lemma_casts_apart(first: Seq<char>, second: Seq<char>)
    requires
        unbroken(first),
        unbroken(second),
        first != second,
    ensures
        cast_names(first).disjoint(cast_names(second)),
{
    assert forall|to: Seq<char>, other_to: Seq<char>|
        #[trigger] cast_name(first, to) == #[trigger] cast_name(second, other_to) implies false by {
        lemma_same_cast(first, to, second, other_to);
    }
}

/// The conversions from a type go on doing what they did when more is
/// registered under other names.
pub proof fn lemma_casts_kept<A: Integer>(
    before: &Metadata,
    after: &Metadata,
    names: Set<Seq<char>>,
    from: Seq<char>,
)
    requires
        extends(after, before),
        keeps(after, before, names),
        cast_names(from).disjoint(names),
        casts_registered::<A>(before, from),
    ensures
        casts_registered::<A>(after, from),
{
    assert(cast_names(from).contains(cast_name(from, "Int8"@)));
    lemma_cast_kept::<A, i8>(before, after, names, from, "Int8"@);
    assert(cast_names(from).contains(cast_name(from, "Int16"@)));
    lemma_cast_kept::<A, i16>(before, after, names, from, "Int16"@);
    assert(cast_names(from).contains(cast_name(from, "Int32"@)));
    lemma_cast_kept::<A, i32>(before, after, names, from, "Int32"@);
    assert(cast_names(from).contains(cast_name(from, "Int64"@)));
    lemma_cast_kept::<A, i64>(before, after, names, from, "Int64"@);
    assert(cast_names(from).contains(cast_name(from, "Uint8"@)));
    lemma_cast_kept::<A, u8>(before, after, names, from, "Uint8"@);
    assert(cast_names(from).contains(cast_name(from, "Uint16"@)));
    lemma_cast_kept::<A, u16>(before, after, names, from, "Uint16"@);
    assert(cast_names(from).contains(cast_name(from, "Uint32"@)));
    lemma_cast_kept::<A, u32>(before, after, names, from, "Uint32"@);
    assert(cast_names(from).contains(cast_name(from, "Uint64"@)));
    lemma_cast_kept::<A, u64>(before, after, names, from, "Uint64"@);
}

/// The names of the operators on all types of whole numbers.
pub open spec fn all_arithmetic_names() -> Set<Seq<char>> {
    arithmetic_names("Int8"@)
        .union(arithmetic_names("Int16"@))
        .union(arithmetic_names("Int32"@))
        .union(arithmetic_names("Int64"@))
        .union(arithmetic_names("Uint8"@))
        .union(arithmetic_names("Uint16"@))
        .union(arithmetic_names("Uint32"@))
        .union(arithmetic_names("Uint64"@))
}

/// Whether the operators on all types of whole numbers do what they are
/// named after.
pub open spec fn all_arithmetic_registered(meta: &Metadata) -> bool {
    &&& arithmetic_registered::<i8>(meta, "Int8"@)
    &&& arithmetic_registered::<i16>(meta, "Int16"@)
    &&& arithmetic_registered::<i32>(meta, "Int32"@)
    &&& arithmetic_registered::<i64>(meta, "Int64"@)
    &&& arithmetic_registered::<u8>(meta, "Uint8"@)
    &&& arithmetic_registered::<u16>(meta, "Uint16"@)
    &&& arithmetic_registered::<u32>(meta, "Uint32"@)
    &&& arithmetic_registered::<u64>(meta, "Uint64"@)
}

/// The names of the conversions between all types of whole numbers.
pub open spec fn all_cast_names() -> Set<Seq<char>> {
    cast_names("Int8"@)
        .union(cast_names("Int16"@))
        .union(cast_names("Int32"@))
        .union(cast_names("Int64"@))
        .union(cast_names("Uint8"@))
        .union(cast_names("Uint16"@))
        .union(cast_names("Uint32"@))
        .union(cast_names("Uint64"@))
}

/// Whether the conversions between all types of whole numbers do what they
/// are named after.
pub open spec fn all_casts_registered(meta: &Metadata) -> bool {
    &&& casts_registered::<i8>(meta, "Int8"@)
    &&& casts_registered::<i16>(meta, "Int16"@)
    &&& casts_registered::<i32>(meta, "Int32"@)
    &&& casts_registered::<i64>(meta, "Int64"@)
    &&& casts_registered::<u8>(meta, "Uint8"@)
    &&& casts_registered::<u16>(meta, "Uint16"@)
    &&& casts_registered::<u32>(meta, "Uint32"@)
    &&& casts_registered::<u64>(meta, "Uint64"@)
}

/// Registers the operators on all types of whole numbers.
pub fn register_all_arithmetic(meta: &mut Metadata)
    requires
        old(meta).wf(),
    ensures
        final(meta).wf(),
        extends(final(meta), old(meta)),
        keeps(final(meta), old(meta), all_arithmetic_names()),
        all_arithmetic_registered(final(meta)),
{
    proof {
        lemma_words();
    }
    let ghost m0 = *meta;
    register_arithmetic::<i8>(meta, "Int8");
    let ghost m1 = *meta;
    register_arithmetic::<i16>(meta, "Int16");
    let ghost m2 = *meta;
    proof {
        lemma_extends(
            &m0,
            &m1,
            &m2,
            arithmetic_names("Int8"@),
            arithmetic_names("Int16"@),
        );
        lemma_arithmetic_apart("Int8"@, "Int16"@);
        lemma_arithmetic_kept::<i8>(&m1, &m2, arithmetic_names("Int16"@), "Int8"@);
    }
    register_arithmetic::<i32>(meta, "Int32");
    let ghost m3 = *meta;
    proof {
        lemma_extends(
            &m0,
            &m2,
            &m3,
            arithmetic_names("Int8"@)
                .union(arithmetic_names("Int16"@)),
            arithmetic_names("Int32"@),
        );
        lemma_arithmetic_apart("Int8"@, "Int32"@);
        lemma_arithmetic_kept::<i8>(&m2, &m3, arithmetic_names("Int32"@), "Int8"@);
        lemma_arithmetic_apart("Int16"@, "Int32"@);
        lemma_arithmetic_kept::<i16>(&m2, &m3, arithmetic_names("Int32"@), "Int16"@);
    }
    register_arithmetic::<i64>(meta, "Int64");
    let ghost m4 = *meta;
    proof {
        lemma_extends(
            &m0,
            &m3,
            &m4,
            arithmetic_names("Int8"@)
                .union(arithmetic_names("Int16"@))
                .union(arithmetic_names("Int32"@)),
            arithmetic_names("Int64"@),
        );
        lemma_arithmetic_apart("Int8"@, "Int64"@);
        lemma_arithmetic_kept::<i8>(&m3, &m4, arithmetic_names("Int64"@), "Int8"@);
        lemma_arithmetic_apart("Int16"@, "Int64"@);
        lemma_arithmetic_kept::<i16>(&m3, &m4, arithmetic_names("Int64"@), "Int16"@);
        lemma_arithmetic_apart("Int32"@, "Int64"@);
        lemma_arithmetic_kept::<i32>(&m3, &m4, arithmetic_names("Int64"@), "Int32"@);
    }
    register_arithmetic::<u8>(meta, "Uint8");
    let ghost m5 = *meta;
    proof {
        lemma_extends(
            &m0,
            &m4,
            &m5,
            arithmetic_names("Int8"@)
                .union(arithmetic_names("Int16"@))
                .union(arithmetic_names("Int32"@))
                .union(arithmetic_names("Int64"@)),
            arithmetic_names("Uint8"@),
        );
        lemma_arithmetic_apart("Int8"@, "Uint8"@);
        lemma_arithmetic_kept::<i8>(&m4, &m5, arithmetic_names("Uint8"@), "Int8"@);
        lemma_arithmetic_apart("Int16"@, "Uint8"@);
        lemma_arithmetic_kept::<i16>(&m4, &m5, arithmetic_names("Uint8"@), "Int16"@);
        lemma_arithmetic_apart("Int32"@, "Uint8"@);
        lemma_arithmetic_kept::<i32>(&m4, &m5, arithmetic_names("Uint8"@), "Int32"@);
        lemma_arithmetic_apart("Int64"@, "Uint8"@);
        lemma_arithmetic_kept::<i64>(&m4, &m5, arithmetic_names("Uint8"@), "Int64"@);
    }
    register_arithmetic::<u16>(meta, "Uint16");
    let ghost m6 = *meta;
    proof {
        lemma_extends(
            &m0,
            &m5,
            &m6,
            arithmetic_names("Int8"@)
                .union(arithmetic_names("Int16"@))
                .union(arithmetic_names("Int32"@))
                .union(arithmetic_names("Int64"@))
                .union(arithmetic_names("Uint8"@)),
            arithmetic_names("Uint16"@),
        );
        lemma_arithmetic_apart("Int8"@, "Uint16"@);
        lemma_arithmetic_kept::<i8>(&m5, &m6, arithmetic_names("Uint16"@), "Int8"@);
        lemma_arithmetic_apart("Int16"@, "Uint16"@);
        lemma_arithmetic_kept::<i16>(&m5, &m6, arithmetic_names("Uint16"@), "Int16"@);
        lemma_arithmetic_apart("Int32"@, "Uint16"@);
        lemma_arithmetic_kept::<i32>(&m5, &m6, arithmetic_names("Uint16"@), "Int32"@);
        lemma_arithmetic_apart("Int64"@, "Uint16"@);
        lemma_arithmetic_kept::<i64>(&m5, &m6, arithmetic_names("Uint16"@), "Int64"@);
        lemma_arithmetic_apart("Uint8"@, "Uint16"@);
        lemma_arithmetic_kept::<u8>(&m5, &m6, arithmetic_names("Uint16"@), "Uint8"@);
    }
    register_arithmetic::<u32>(meta, "Uint32");
    let ghost m7 = *meta;
    proof {
        lemma_extends(
            &m0,
            &m6,
            &m7,
            arithmetic_names("Int8"@)
                .union(arithmetic_names("Int16"@))
                .union(arithmetic_names("Int32"@))
                .union(arithmetic_names("Int64"@))
                .union(arithmetic_names("Uint8"@))
                .union(arithmetic_names("Uint16"@)),
            arithmetic_names("Uint32"@),
        );
        lemma_arithmetic_apart("Int8"@, "Uint32"@);
        lemma_arithmetic_kept::<i8>(&m6, &m7, arithmetic_names("Uint32"@), "Int8"@);
        lemma_arithmetic_apart("Int16"@, "Uint32"@);
        lemma_arithmetic_kept::<i16>(&m6, &m7, arithmetic_names("Uint32"@), "Int16"@);
        lemma_arithmetic_apart("Int32"@, "Uint32"@);
        lemma_arithmetic_kept::<i32>(&m6, &m7, arithmetic_names("Uint32"@), "Int32"@);
        lemma_arithmetic_apart("Int64"@, "Uint32"@);
        lemma_arithmetic_kept::<i64>(&m6, &m7, arithmetic_names("Uint32"@), "Int64"@);
        lemma_arithmetic_apart("Uint8"@, "Uint32"@);
        lemma_arithmetic_kept::<u8>(&m6, &m7, arithmetic_names("Uint32"@), "Uint8"@);
        lemma_arithmetic_apart("Uint16"@, "Uint32"@);
        lemma_arithmetic_kept::<u16>(&m6, &m7, arithmetic_names("Uint32"@), "Uint16"@);
    }
    register_arithmetic::<u64>(meta, "Uint64");
    let ghost m8 = *meta;
    proof {
        lemma_extends(
            &m0,
            &m7,
            &m8,
            arithmetic_names("Int8"@)
                .union(arithmetic_names("Int16"@))
                .union(arithmetic_names("Int32"@))
                .union(arithmetic_names("Int64"@))
                .union(arithmetic_names("Uint8"@))
                .union(arithmetic_names("Uint16"@))
                .union(arithmetic_names("Uint32"@)),
            arithmetic_names("Uint64"@),
        );
        lemma_arithmetic_apart("Int8"@, "Uint64"@);
        lemma_arithmetic_kept::<i8>(&m7, &m8, arithmetic_names("Uint64"@), "Int8"@);
        lemma_arithmetic_apart("Int16"@, "Uint64"@);
        lemma_arithmetic_kept::<i16>(&m7, &m8, arithmetic_names("Uint64"@), "Int16"@);
        lemma_arithmetic_apart("Int32"@, "Uint64"@);
        lemma_arithmetic_kept::<i32>(&m7, &m8, arithmetic_names("Uint64"@), "Int32"@);
        lemma_arithmetic_apart("Int64"@, "Uint64"@);
        lemma_arithmetic_kept::<i64>(&m7, &m8, arithmetic_names("Uint64"@), "Int64"@);
        lemma_arithmetic_apart("Uint8"@, "Uint64"@);
        lemma_arithmetic_kept::<u8>(&m7, &m8, arithmetic_names("Uint64"@), "Uint8"@);
        lemma_arithmetic_apart("Uint16"@, "Uint64"@);
        lemma_arithmetic_kept::<u16>(&m7, &m8, arithmetic_names("Uint64"@), "Uint16"@);
        lemma_arithmetic_apart("Uint32"@, "Uint64"@);
        lemma_arithmetic_kept::<u32>(&m7, &m8, arithmetic_names("Uint64"@), "Uint32"@);
    }
}

/// Registers the conversions between all types of whole numbers.
pub fn register_all_casts(meta: &mut Metadata)
    requires
        old(meta).wf(),
    ensures
        final(meta).wf(),
        extends(final(meta), old(meta)),
        keeps(final(meta), old(meta), all_cast_names()),
        all_casts_registered(final(meta)),
{
    proof {
        lemma_words();
    }
    let ghost m0 = *meta;
    register_casts::<i8>(meta, "Int8");
    let ghost m1 = *meta;
    register_casts::<i16>(meta, "Int16");
    let ghost m2 = *meta;
    proof {
        lemma_extends(
            &m0,
            &m1,
            &m2,
            cast_names("Int8"@),
            cast_names("Int16"@),
        );
        lemma_casts_apart("Int8"@, "Int16"@);
        lemma_casts_kept::<i8>(&m1, &m2, cast_names("Int16"@), "Int8"@);
    }
    register_casts::<i32>(meta, "Int32");
    let ghost m3 = *meta;
    proof {
        lemma_extends(
            &m0,
            &m2,
            &m3,
            cast_names("Int8"@)
                .union(cast_names("Int16"@)),
            cast_names("Int32"@),
        );
        lemma_casts_apart("Int8"@, "Int32"@);
        lemma_casts_kept::<i8>(&m2, &m3, cast_names("Int32"@), "Int8"@);
        lemma_casts_apart("Int16"@, "Int32"@);
        lemma_casts_kept::<i16>(&m2, &m3, cast_names("Int32"@), "Int16"@);
    }
    register_casts::<i64>(meta, "Int64");
    let ghost m4 = *meta;
    proof {
        lemma_extends(
            &m0,
            &m3,
            &m4,
            cast_names("Int8"@)
                .union(cast_names("Int16"@))
                .union(cast_names("Int32"@)),
            cast_names("Int64"@),
        );
        lemma_casts_apart("Int8"@, "Int64"@);
        lemma_casts_kept::<i8>(&m3, &m4, cast_names("Int64"@), "Int8"@);
        lemma_casts_apart("Int16"@, "Int64"@);
        lemma_casts_kept::<i16>(&m3, &m4, cast_names("Int64"@), "Int16"@);
        lemma_casts_apart("Int32"@, "Int64"@);
        lemma_casts_kept::<i32>(&m3, &m4, cast_names("Int64"@), "Int32"@);
    }
    register_casts::<u8>(meta, "Uint8");
    let ghost m5 = *meta;
    proof {
        lemma_extends(
            &m0,
            &m4,
            &m5,
            cast_names("Int8"@)
                .union(cast_names("Int16"@))
                .union(cast_names("Int32"@))
                .union(cast_names("Int64"@)),
            cast_names("Uint8"@),
        );
        lemma_casts_apart("Int8"@, "Uint8"@);
        lemma_casts_kept::<i8>(&m4, &m5, cast_names("Uint8"@), "Int8"@);
        lemma_casts_apart("Int16"@, "Uint8"@);
        lemma_casts_kept::<i16>(&m4, &m5, cast_names("Uint8"@), "Int16"@);
        lemma_casts_apart("Int32"@, "Uint8"@);
        lemma_casts_kept::<i32>(&m4, &m5, cast_names("Uint8"@), "Int32"@);
        lemma_casts_apart("Int64"@, "Uint8"@);
        lemma_casts_kept::<i64>(&m4, &m5, cast_names("Uint8"@), "Int64"@);
    }
    register_casts::<u16>(meta, "Uint16");
    let ghost m6 = *meta;
    proof {
        lemma_extends(
            &m0,
            &m5,
            &m6,
            cast_names("Int8"@)
                .union(cast_names("Int16"@))
                .union(cast_names("Int32"@))
                .union(cast_names("Int64"@))
                .union(cast_names("Uint8"@)),
            cast_names("Uint16"@),
        );
        lemma_casts_apart("Int8"@, "Uint16"@);
        lemma_casts_kept::<i8>(&m5, &m6, cast_names("Uint16"@), "Int8"@);
        lemma_casts_apart("Int16"@, "Uint16"@);
        lemma_casts_kept::<i16>(&m5, &m6, cast_names("Uint16"@), "Int16"@);
        lemma_casts_apart("Int32"@, "Uint16"@);
        lemma_casts_kept::<i32>(&m5, &m6, cast_names("Uint16"@), "Int32"@);
        lemma_casts_apart("Int64"@, "Uint16"@);
        lemma_casts_kept::<i64>(&m5, &m6, cast_names("Uint16"@), "Int64"@);
        lemma_casts_apart("Uint8"@, "Uint16"@);
        lemma_casts_kept::<u8>(&m5, &m6, cast_names("Uint16"@), "Uint8"@);
    }
    register_casts::<u32>(meta, "Uint32");
    let ghost m7 = *meta;
    proof {
        lemma_extends(
            &m0,
            &m6,
            &m7,
            cast_names("Int8"@)
                .union(cast_names("Int16"@))
                .union(cast_names("Int32"@))
                .union(cast_names("Int64"@))
                .union(cast_names("Uint8"@))
                .union(cast_names("Uint16"@)),
            cast_names("Uint32"@),
        );
        lemma_casts_apart("Int8"@, "Uint32"@);
        lemma_casts_kept::<i8>(&m6, &m7, cast_names("Uint32"@), "Int8"@);
        lemma_casts_apart("Int16"@, "Uint32"@);
        lemma_casts_kept::<i16>(&m6, &m7, cast_names("Uint32"@), "Int16"@);
        lemma_casts_apart("Int32"@, "Uint32"@);
        lemma_casts_kept::<i32>(&m6, &m7, cast_names("Uint32"@), "Int32"@);
        lemma_casts_apart("Int64"@, "Uint32"@);
        lemma_casts_kept::<i64>(&m6, &m7, cast_names("Uint32"@), "Int64"@);
        lemma_casts_apart("Uint8"@, "Uint32"@);
        lemma_casts_kept::<u8>(&m6, &m7, cast_names("Uint32"@), "Uint8"@);
        lemma_casts_apart("Uint16"@, "Uint32"@);
        lemma_casts_kept::<u16>(&m6, &m7, cast_names("Uint32"@), "Uint16"@);
    }
    register_casts::<u64>(meta, "Uint64");
    let ghost m8 = *meta;
    proof {
        lemma_extends(
            &m0,
            &m7,
            &m8,
            cast_names("Int8"@)
                .union(cast_names("Int16"@))
                .union(cast_names("Int32"@))
                .union(cast_names("Int64"@))
                .union(cast_names("Uint8"@))
                .union(cast_names("Uint16"@))
                .union(cast_names("Uint32"@)),
            cast_names("Uint64"@),
        );
        lemma_casts_apart("Int8"@, "Uint64"@);
        lemma_casts_kept::<i8>(&m7, &m8, cast_names("Uint64"@), "Int8"@);
        lemma_casts_apart("Int16"@, "Uint64"@);
        lemma_casts_kept::<i16>(&m7, &m8, cast_names("Uint64"@), "Int16"@);
        lemma_casts_apart("Int32"@, "Uint64"@);
        lemma_casts_kept::<i32>(&m7, &m8, cast_names("Uint64"@), "Int32"@);
        lemma_casts_apart("Int64"@, "Uint64"@);
        lemma_casts_kept::<i64>(&m7, &m8, cast_names("Uint64"@), "Int64"@);
        lemma_casts_apart("Uint8"@, "Uint64"@);
        lemma_casts_kept::<u8>(&m7, &m8, cast_names("Uint64"@), "Uint8"@);
        lemma_casts_apart("Uint16"@, "Uint64"@);
        lemma_casts_kept::<u16>(&m7, &m8, cast_names("Uint64"@), "Uint16"@);
        lemma_casts_apart("Uint32"@, "Uint64"@);
        lemma_casts_kept::<u32>(&m7, &m8, cast_names("Uint64"@), "Uint32"@);
    }
}

/// What a number drawn at random promises: nothing of the number where the
/// range holds one, and a failure where it holds none.
pub open spec fn drawn() -> spec_fn(i32, i32) -> Option<Option<i32>> {
    |min: i32, max: i32|
        if min < max {
            None::<Option<i32>>
        } else {
            Some(None::<i32>)
        }
}

/// Two strings, one after the other.
pub open spec fn joined_of() -> spec_fn(Seq<char>, Seq<char>) -> Option<Seq<char>> {
    |x: Seq<char>, y: Seq<char>| Some(x + y)
}

/// Whether both of two booleans hold.
pub open spec fn both_of() -> spec_fn(bool, bool) -> Option<bool> {
    |x: bool, y: bool| Some(x && y)
}

/// Whether one of two booleans holds.
pub open spec fn either_of() -> spec_fn(bool, bool) -> Option<bool> {
    |x: bool, y: bool| Some(x || y)
}

/// The names of the functions that stand alone.
pub open spec fn basic_names() -> Set<Seq<char>> {
    Set::new(
        |name: Seq<char>|
            {
                   name == "Log"@
                || name == "RandRange"@
                || name == operator_name("OperatorAdd"@, false, "String"@, "String"@)
                || name == operator_name("OperatorLogicAnd"@, false, "Bool"@, "Bool"@)
                || name == operator_name("OperatorLogicOr"@, false, "Bool"@, "Bool"@)
            },
    )
}

/// Whether the functions that stand alone do what they are named after:
/// logging takes a string and gives nothing back, a random number is
/// refused where the range holds none, strings are joined, and the logic
/// is that of booleans.
pub open spec fn basics_registered(meta: &Metadata) -> bool {
    &&& acts(
        meta,
        "Log"@,
        |s: State, pool: &Pool| procedure1_effect::<String>(s, pool),
    )
    &&& acts(
        meta,
        "RandRange"@,
        |s: State, pool: &Pool| partial2_effect::<i32, i32, i32>(s, pool, drawn()),
    )
    &&& acts(
        meta,
        operator_name("OperatorAdd"@, false, "String"@, "String"@),
        |s: State, pool: &Pool| returning2_effect::<String, String, String>(s, pool, joined_of()),
    )
    &&& acts(
        meta,
        operator_name("OperatorLogicAnd"@, false, "Bool"@, "Bool"@),
        |s: State, pool: &Pool| returning2_effect::<bool, bool, bool>(s, pool, both_of()),
    )
    &&& acts(
        meta,
        operator_name("OperatorLogicOr"@, false, "Bool"@, "Bool"@),
        |s: State, pool: &Pool| returning2_effect::<bool, bool, bool>(s, pool, either_of()),
    )
}

/// The head of each name of a function that stands alone.
pub proof fn lemma_basic_heads()
    ensures
        head("Log"@) == "Log"@,
        head("RandRange"@) == "RandRange"@,
        head(operator_name("OperatorAdd"@, false, "String"@, "String"@)) == "OperatorAdd"@,
        head(operator_name("OperatorLogicAnd"@, false, "Bool"@, "Bool"@)) == "OperatorLogicAnd"@,
        head(operator_name("OperatorLogicOr"@, false, "Bool"@, "Bool"@)) == "OperatorLogicOr"@,
{
    lemma_words();
    lemma_head_whole("Log"@);
    lemma_head_whole("RandRange"@);
    lemma_operator_head("OperatorAdd"@, false, "String"@, "String"@);
    lemma_operator_head("OperatorLogicAnd"@, false, "Bool"@, "Bool"@);
    lemma_operator_head("OperatorLogicOr"@, false, "Bool"@, "Bool"@);
}

/// Registers the functions that stand alone. `on_log` gets what programs
/// log.
pub fn register_basics<F: Fn(String) + 'static>(meta: &mut Metadata, on_log: F)
    requires
        old(meta).wf(),
        forall|text: String| call_requires(on_log, (text,)),
    ensures
        final(meta).wf(),
        extends(final(meta), old(meta)),
        keeps(final(meta), old(meta), basic_names()),
        basics_registered(final(meta)),
{
    proof {
        lemma_words();
        lemma_basic_heads();
    }
    let ghost m0 = *meta;
    let ghost log_name = "Log"@;
    let ghost random_name = "RandRange"@;
    let ghost join_name = operator_name("OperatorAdd"@, false, "String"@, "String"@);
    let ghost and_name = operator_name("OperatorLogicAnd"@, false, "Bool"@, "Bool"@);
    let ghost or_name = operator_name("OperatorLogicOr"@, false, "Bool"@, "Bool"@);
    let ghost log_effect = |s: State, pool: &Pool|
        procedure1_effect::<String>(s, pool);
    let ghost random_effect = |s: State, pool: &Pool|
        partial2_effect::<i32, i32, i32>(s, pool, drawn());
    let ghost join_effect = |s: State, pool: &Pool|
        returning2_effect::<String, String, String>(s, pool, joined_of());
    let ghost and_effect = |s: State, pool: &Pool|
        returning2_effect::<bool, bool, bool>(s, pool, both_of());
    let ghost or_effect = |s: State, pool: &Pool|
        returning2_effect::<bool, bool, bool>(s, pool, either_of());
    register(meta, "Log", procedure1(on_log));
    let ghost m1 = *meta;
    proof {
        assert(acts(&m1, log_name, log_effect));
        assert(keeps(&m1, &m0, basic_names()));
    }
    register(meta, "RandRange", partial2_as(rand_range, Ghost(drawn())));
    let ghost m2 = *meta;
    proof {
        assert(acts(&m2, random_name, random_effect));
        lemma_extends(&m0, &m1, &m2, basic_names(), set![random_name]);
        assert(basic_names().union(set![random_name]) =~= basic_names());
        lemma_acts_kept(&m1, &m2, set![random_name], log_name, log_effect);
    }
    register(
        meta,
        name_of("OperatorAdd", false, "String", "String").as_str(),
        returning2_as(operator_add_strings, Ghost(joined_of())),
    );
    let ghost m3 = *meta;
    proof {
        assert(acts(&m3, join_name, join_effect));
        lemma_extends(&m0, &m2, &m3, basic_names(), set![join_name]);
        assert(basic_names().union(set![join_name]) =~= basic_names());
        lemma_acts_kept(&m2, &m3, set![join_name], log_name, log_effect);
        lemma_acts_kept(&m2, &m3, set![join_name], random_name, random_effect);
    }
    register(
        meta,
        name_of("OperatorLogicAnd", false, "Bool", "Bool").as_str(),
        returning2_as(operator_logic_and, Ghost(both_of())),
    );
    let ghost m4 = *meta;
    proof {
        assert(acts(&m4, and_name, and_effect));
        lemma_extends(&m0, &m3, &m4, basic_names(), set![and_name]);
        assert(basic_names().union(set![and_name]) =~= basic_names());
        lemma_acts_kept(&m3, &m4, set![and_name], log_name, log_effect);
        lemma_acts_kept(&m3, &m4, set![and_name], random_name, random_effect);
        lemma_acts_kept(&m3, &m4, set![and_name], join_name, join_effect);
    }
    register(
        meta,
        name_of("OperatorLogicOr", false, "Bool", "Bool").as_str(),
        returning2_as(operator_logic_or, Ghost(either_of())),
    );
    let ghost m5 = *meta;
    proof {
        assert(acts(&m5, or_name, or_effect));
        lemma_extends(&m0, &m4, &m5, basic_names(), set![or_name]);
        assert(basic_names().union(set![or_name]) =~= basic_names());
        lemma_acts_kept(&m4, &m5, set![or_name], log_name, log_effect);
        lemma_acts_kept(&m4, &m5, set![or_name], random_name, random_effect);
        lemma_acts_kept(&m4, &m5, set![or_name], join_name, join_effect);
        lemma_acts_kept(&m4, &m5, set![or_name], and_name, and_effect);
    }
}

/// The functions that stand alone go on doing what they did when more is
/// registered under other names.
pub proof fn lemma_basics_kept(before: &Metadata, after: &Metadata, names: Set<Seq<char>>)
    requires
        extends(after, before),
        keeps(after, before, names),
        basic_names().disjoint(names),
        basics_registered(before),
    ensures
        basics_registered(after),
{
    let log_name = "Log"@;
    assert(basic_names().contains(log_name));
    lemma_acts_kept(
        before,
        after,
        names,
        log_name,
        |s: State, pool: &Pool| procedure1_effect::<String>(s, pool),
    );
    let random_name = "RandRange"@;
    assert(basic_names().contains(random_name));
    lemma_acts_kept(
        before,
        after,
        names,
        random_name,
        |s: State, pool: &Pool| partial2_effect::<i32, i32, i32>(s, pool, drawn()),
    );
    let join_name = operator_name("OperatorAdd"@, false, "String"@, "String"@);
    assert(basic_names().contains(join_name));
    lemma_acts_kept(
        before,
        after,
        names,
        join_name,
        |s: State, pool: &Pool| returning2_effect::<String, String, String>(s, pool, joined_of()),
    );
    let and_name = operator_name("OperatorLogicAnd"@, false, "Bool"@, "Bool"@);
    assert(basic_names().contains(and_name));
    lemma_acts_kept(
        before,
        after,
        names,
        and_name,
        |s: State, pool: &Pool| returning2_effect::<bool, bool, bool>(s, pool, both_of()),
    );
    let or_name = operator_name("OperatorLogicOr"@, false, "Bool"@, "Bool"@);
    assert(basic_names().contains(or_name));
    lemma_acts_kept(
        before,
        after,
        names,
        or_name,
        |s: State, pool: &Pool| returning2_effect::<bool, bool, bool>(s, pool, either_of()),
    );
}

/// The operators on all types of whole numbers go on doing what they did
/// when more is registered under other names.
pub proof fn lemma_all_arithmetic_kept(before: &Metadata, after: &Metadata, names: Set<Seq<char>>)
    requires
        extends(after, before),
        keeps(after, before, names),
        all_arithmetic_names().disjoint(names),
        all_arithmetic_registered(before),
    ensures
        all_arithmetic_registered(after),
{
    lemma_arithmetic_kept::<i8>(before, after, names, "Int8"@);
    lemma_arithmetic_kept::<i16>(before, after, names, "Int16"@);
    lemma_arithmetic_kept::<i32>(before, after, names, "Int32"@);
    lemma_arithmetic_kept::<i64>(before, after, names, "Int64"@);
    lemma_arithmetic_kept::<u8>(before, after, names, "Uint8"@);
    lemma_arithmetic_kept::<u16>(before, after, names, "Uint16"@);
    lemma_arithmetic_kept::<u32>(before, after, names, "Uint32"@);
    lemma_arithmetic_kept::<u64>(before, after, names, "Uint64"@);
}

/// No function that stands alone has the name of an operator on the type
/// `ty`, where that is not the type of strings, nor that of a conversion.
pub proof fn lemma_basics_apart(ty: Seq<char>)
    requires
        ty != "String"@,
    ensures
        basic_names().disjoint(arithmetic_names(ty)),
        basic_names().disjoint(cast_names(ty)),
        arithmetic_names(ty).disjoint(all_cast_names()),
{
    lemma_words();
    lemma_basic_heads();
    lemma_arithmetic_heads(ty);
    assert forall|from: Seq<char>, to: Seq<char>|
        head(#[trigger] cast_name(from, to)) == "Cast"@ by {
        lemma_cast_head(from, to);
    }
    if operator_name("OperatorAdd"@, false, "String"@, "String"@) == operator_name(
        "OperatorAdd"@,
        false,
        ty,
        ty,
    ) {
        lemma_same_operator("OperatorAdd"@, false, "String"@, "String"@, ty, ty);
    }
}

/// The names of the functions that the machine offers to every program.
pub open spec fn standard_names() -> Set<Seq<char>> {
    basic_names().union(all_arithmetic_names()).union(all_cast_names())
}

/// Whether the functions that the machine offers to every program do what
/// they are named after, as far as the pool has functions of their names.
pub open spec fn standard_registered(meta: &Metadata) -> bool {
    &&& basics_registered(meta)
    &&& all_arithmetic_registered(meta)
    &&& all_casts_registered(meta)
}

/// Registers the functions that the machine offers to every program:
/// logging, random numbers, joining of strings, logic, and arithmetic,
/// comparison and conversion of whole numbers. `on_log` gets what programs
/// log. What is registered under other names stays.
pub fn register_natives<F: Fn(String) + 'static>(vm: &mut VM, on_log: F)
    requires
        old(vm).wf(),
        forall|text: String| call_requires(on_log, (text,)),
    ensures
        final(vm).wf(),
        final(vm).arena == old(vm).arena,
        final(vm).budget == old(vm).budget,
        extends(&final(vm).metadata, &old(vm).metadata),
        keeps(&final(vm).metadata, &old(vm).metadata, standard_names()),
        standard_registered(&final(vm).metadata),
{
    register_basics(&mut vm.metadata, on_log);
    let ghost m0 = vm.metadata;
    register_all_arithmetic(&mut vm.metadata);
    let ghost m1 = vm.metadata;
    register_all_casts(&mut vm.metadata);
    proof {
        lemma_words();
        lemma_basics_apart("Int8"@);
        lemma_basics_apart("Int16"@);
        lemma_basics_apart("Int32"@);
        lemma_basics_apart("Int64"@);
        lemma_basics_apart("Uint8"@);
        lemma_basics_apart("Uint16"@);
        lemma_basics_apart("Uint32"@);
        lemma_basics_apart("Uint64"@);
        lemma_extends(&old(vm).metadata, &m0, &m1, basic_names(), all_arithmetic_names());
        lemma_extends(
            &old(vm).metadata,
            &m1,
            &vm.metadata,
            basic_names().union(all_arithmetic_names()),
            all_cast_names(),
        );
        lemma_basics_kept(&m0, &m1, all_arithmetic_names());
        lemma_basics_kept(&m1, &vm.metadata, all_cast_names());
        lemma_all_arithmetic_kept(&m1, &vm.metadata, all_cast_names());
    }
}

/// Whether the definition at position `k` of `pool` is a primitive type of
/// the name `text` that belongs to no other definition.
pub open spec fn named_prim(pool: &Pool, k: int, text: Seq<char>) -> bool {
    &&& 0 <= k < pool.definitions@.len()
    &&& pool.definitions@[k].value == AnyDefinition::Type(Type::Prim)
    &&& pool.definitions@[k].parent.0 == 0
    &&& pool.spec_name(pool.definitions@[k].name) == Some(text)
}

/// Adds a primitive type of the name `text` to `pool`.
fn register_prim(pool: &mut Pool, text: &str)
    requires
        old(pool).names@.len() < 1000,
        old(pool).definitions@.len() < 1000,
    ensures
        final(pool).definitions@.len() == old(pool).definitions@.len() + 1,
        final(pool).names@.len() <= old(pool).names@.len() + 1,
        named_prim(final(pool), old(pool).definitions@.len() as int, text@),
        forall|j: int, t: Seq<char>| #[trigger]
            named_prim(old(pool), j, t) ==> named_prim(final(pool), j, t),
        final(pool).strings == old(pool).strings,
        final(pool).tweakdb_ids == old(pool).tweakdb_ids,
        final(pool).resources == old(pool).resources,
{
    proof {
        crate::pool::lemma_first_position_from(pool.names@, text@, 0);
    }
    let name = match pool.add_name(text) {
        Some(name) => name,
        None => PoolIndex(0),
    };
    let ghost named = *pool;
    assert(named.spec_name(name) == Some(text@));
    assert forall|idx: PoolIndex| #[trigger]
        old(pool).spec_name(idx) is Some implies named.spec_name(idx) == old(pool).spec_name(
        idx,
    ) by {
        if named.names@.len() != old(pool).names@.len() {
            assert(named.names@.drop_last()[idx.0 as int] == old(pool).names@[idx.0 as int]);
        }
    }
    pool.add_definition(
        Definition { name, parent: PoolIndex(0), value: AnyDefinition::Type(Type::Prim) },
    );
    proof {
        assert forall|j: int, t: Seq<char>| #[trigger]
            named_prim(old(pool), j, t) implies named_prim(pool, j, t) by {
            assert(old(pool).spec_name(old(pool).definitions@[j].name) is Some);
        }
    }
}

/// The names of the primitive types of the default pool, by position.
pub open spec fn default_names() -> Seq<Seq<char>> {
    seq![
        ""@,
        "Int8"@,
        "Int16"@,
        "Int32"@,
        "Int64"@,
        "Uint8"@,
        "Uint16"@,
        "Uint32"@,
        "Uint64"@,
        "Float"@,
        "Double"@,
        "String"@,
        "Bool"@,
        "CName"@,
        "TweakDBID"@,
        "ResRef"@,
    ]
}

/// A pool that holds the primitive types and nothing else. The type at
/// position zero has the empty name; it stands for no type.
pub fn default_pool() -> (r: Pool)
    ensures
        r.definitions@.len() == 16,
        forall|k: int| 0 <= k < 16 ==> named_prim(&r, k, #[trigger] default_names()[k]),
        r.strings@.len() == 0,
        r.tweakdb_ids@.len() == 0,
        r.resources@.len() == 0,
{
    let mut pool = Pool::new();
    register_prim(&mut pool, "");
    register_prim(&mut pool, "Int8");
    register_prim(&mut pool, "Int16");
    register_prim(&mut pool, "Int32");
    register_prim(&mut pool, "Int64");
    register_prim(&mut pool, "Uint8");
    register_prim(&mut pool, "Uint16");
    register_prim(&mut pool, "Uint32");
    register_prim(&mut pool, "Uint64");
    register_prim(&mut pool, "Float");
    register_prim(&mut pool, "Double");
    register_prim(&mut pool, "String");
    register_prim(&mut pool, "Bool");
    register_prim(&mut pool, "CName");
    register_prim(&mut pool, "TweakDBID");
    register_prim(&mut pool, "ResRef");
    pool
}

/// What the sum of two 32-bit numbers does where the operators on them are
/// registered and the pool has the function: the two numbers come off the
/// operand stack, and their sum, wrapped around at the bounds, is given
/// back.
pub proof fn lemma_sum_effect(meta: &Metadata, s: State, pool: &Pool, x: i32, y: i32)
    requires
        arithmetic_registered::<i32>(meta, "Int32"@),
        named(
            meta.symbols@.functions,
            operator_name("OperatorAdd"@, false, "Int32"@, "Int32"@),
        ) matches Some(idx) && has_key(meta.function_meta@, idx.0),
        s.stack.len() >= 2,
        s.peek(1) == Value::I32(x),
        s.peek(0) == Value::I32(y),
    ensures
        native_named(
            meta,
            operator_name("OperatorAdd"@, false, "Int32"@, "Int32"@),
        ) matches Some(function) && function.effect(s, pool) == Some(
            Ok::<(State, Option<Value>), Fault>((s.drop(2), Some(Value::I32(x.wrapping_add(y))))),
        ),
{
}

/// What the quotient of two 32-bit numbers does where the operators on them
/// are registered and the pool has the function: the two numbers come off
/// the operand stack; the call fails where there is no quotient, else the
/// quotient is given back.
pub proof fn lemma_quotient_effect(meta: &Metadata, s: State, pool: &Pool, x: i32, y: i32)
    requires
        arithmetic_registered::<i32>(meta, "Int32"@),
        named(
            meta.symbols@.functions,
            operator_name("OperatorDivide"@, false, "Int32"@, "Int32"@),
        ) matches Some(idx) && has_key(meta.function_meta@, idx.0),
        s.stack.len() >= 2,
        s.peek(1) == Value::I32(x),
        s.peek(0) == Value::I32(y),
    ensures
        native_named(
            meta,
            operator_name("OperatorDivide"@, false, "Int32"@, "Int32"@),
        ) matches Some(function) && function.effect(s, pool) == (match x.checked_div(y) {
            Some(q) => Some(Ok::<(State, Option<Value>), Fault>((s.drop(2), Some(Value::I32(q))))),
            None => Some(Err(Fault::Arithmetic)),
        }),
{
}

/// What the assigning sum of two 32-bit numbers does where the operators on
/// them are registered and the pool has the function: its first argument is
/// a reference cell that holds a number; the sum goes into the cell, and is
/// given back as well.
pub proof fn lemma_assigning_sum_effect(
    meta: &Metadata,
    s: State,
    pool: &Pool,
    cell: crate::value::Handle,
    x: i32,
    y: i32,
)
    requires
        arithmetic_registered::<i32>(meta, "Int32"@),
        named(
            meta.symbols@.functions,
            operator_name("OperatorAssignAdd"@, true, "Int32"@, "Int32"@),
        ) matches Some(idx) && has_key(meta.function_meta@, idx.0),
        s.stack.len() >= 2,
        s.peek(1) == Value::Pinned(cell),
        pinned_at(s.cells, cell) == Some(Value::I32(x)),
        s.peek(0) == Value::I32(y),
    ensures
        native_named(
            meta,
            operator_name("OperatorAssignAdd"@, true, "Int32"@, "Int32"@),
        ) matches Some(function) && function.effect(s, pool) == Some(
            Ok::<(State, Option<Value>), Fault>(
                (
                    s.drop(2).with_cell(cell, CellView::Pinned(Value::I32(x.wrapping_add(y)))),
                    Some(Value::I32(x.wrapping_add(y))),
                ),
            ),
        ),
{
}

} // verus!
