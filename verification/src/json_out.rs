//! Rendering a structured value as compact JSON bytes.
//!
//! The store's quota checks are stated over this rendering, so it is fixed
//! exactly: strings escape the quote, the backslash and every control
//! character (with the short forms for backspace, tab, newline, form feed
//! and carriage return, and a four-digit hexadecimal form otherwise) and
//! pass every other byte of their UTF-8 form through; integers render in
//! decimal; a non-integer number carries its own rendering, emitted after a
//! grammar check, a malformed one collapsing to null; arrays and objects
//! render with no whitespace, pairs in insertion order.

use vstd::prelude::*;
use vstd::utf8::encode_utf8;

use crate::value::{TreeV, TreeValue, pairs_deep, items_deep};

verus! {

broadcast use vstd::std_specs::vec::group_vec_axioms;

/// The lowercase hexadecimal digit for a value below sixteen.
pub open spec fn spec_hex_digit(n: u8) -> u8 {
    if n < 10 {
        (48 + n) as u8
    } else {
        (87 + n) as u8
    }
}

/// The JSON escape of one byte of a string's UTF-8 form.
pub open spec fn escape_byte(b: u8) -> Seq<u8> {
    if b == 0x22 {
        seq![0x5cu8, 0x22u8]
    } else if b == 0x5c {
        seq![0x5cu8, 0x5cu8]
    } else if b == 0x08 {
        seq![0x5cu8, 0x62u8]
    } else if b == 0x09 {
        seq![0x5cu8, 0x74u8]
    } else if b == 0x0a {
        seq![0x5cu8, 0x6eu8]
    } else if b == 0x0c {
        seq![0x5cu8, 0x66u8]
    } else if b == 0x0d {
        seq![0x5cu8, 0x72u8]
    } else if b < 0x20 {
        seq![0x5cu8, 0x75u8, 0x30u8, 0x30u8, spec_hex_digit(b / 16), spec_hex_digit(b % 16)]
    } else {
        seq![b]
    }
}

/// The escape of a whole byte run.
pub open spec fn escape_bytes(bs: Seq<u8>) -> Seq<u8>
    decreases bs.len(),
{
    if bs.len() == 0 {
        Seq::empty()
    } else {
        escape_bytes(bs.drop_last()) + escape_byte(bs.last())
    }
}

/// A quoted, escaped JSON string.
pub open spec fn json_str_bytes(s: Seq<char>) -> Seq<u8> {
    seq![0x22u8] + escape_bytes(encode_utf8(s)) + seq![0x22u8]
}

/// The decimal digits of an unsigned value.
pub open spec fn spec_dec_digits(n: nat) -> Seq<u8>
    decreases n,
{
    if n < 10 {
        seq![(48 + n) as u8]
    } else {
        spec_dec_digits(n / 10) + seq![(48 + (n % 10)) as u8]
    }
}

/// The decimal rendering of a signed integer.
pub open spec fn spec_int_json(i: int) -> Seq<u8> {
    if i < 0 {
        seq![0x2du8] + spec_dec_digits((-i) as nat)
    } else {
        spec_dec_digits(i as nat)
    }
}

/// The states of the JSON number grammar.
#[derive(Debug, Clone, Copy, PartialEq, Eq, Structural)]
pub enum NumSt {
    /// Nothing read yet.
    Start,
    /// A leading minus sign was read.
    Sign,
    /// The integer part is a lone zero.
    Zero,
    /// Inside a non-zero integer part.
    IntD,
    /// A decimal point was read, digits owed.
    Dot,
    /// Inside the fraction digits.
    FracD,
    /// An exponent marker was read.
    Exp,
    /// An exponent sign was read, digits owed.
    ExpSign,
    /// Inside the exponent digits.
    ExpD,
}

/// A state in which the number may end.
pub open spec fn num_accept(st: NumSt) -> bool {
    st == NumSt::Zero || st == NumSt::IntD || st == NumSt::FracD || st == NumSt::ExpD
}

/// One step of the JSON number grammar.
pub open spec fn num_step(st: NumSt, c: char) -> Option<NumSt> {
    match st {
        NumSt::Start => if c == '-' {
            Some(NumSt::Sign)
        } else if c == '0' {
            Some(NumSt::Zero)
        } else if '1' <= c && c <= '9' {
            Some(NumSt::IntD)
        } else {
            None
        },
        NumSt::Sign => if c == '0' {
            Some(NumSt::Zero)
        } else if '1' <= c && c <= '9' {
            Some(NumSt::IntD)
        } else {
            None
        },
        NumSt::Zero => if c == '.' {
            Some(NumSt::Dot)
        } else if c == 'e' || c == 'E' {
            Some(NumSt::Exp)
        } else {
            None
        },
        NumSt::IntD => if '0' <= c && c <= '9' {
            Some(NumSt::IntD)
        } else if c == '.' {
            Some(NumSt::Dot)
        } else if c == 'e' || c == 'E' {
            Some(NumSt::Exp)
        } else {
            None
        },
        NumSt::Dot => if '0' <= c && c <= '9' {
            Some(NumSt::FracD)
        } else {
            None
        },
        NumSt::FracD => if '0' <= c && c <= '9' {
            Some(NumSt::FracD)
        } else if c == 'e' || c == 'E' {
            Some(NumSt::Exp)
        } else {
            None
        },
        NumSt::Exp => if c == '+' || c == '-' {
            Some(NumSt::ExpSign)
        } else if '0' <= c && c <= '9' {
            Some(NumSt::ExpD)
        } else {
            None
        },
        NumSt::ExpSign => if '0' <= c && c <= '9' {
            Some(NumSt::ExpD)
        } else {
            None
        },
        NumSt::ExpD => if '0' <= c && c <= '9' {
            Some(NumSt::ExpD)
        } else {
            None
        },
    }
}

/// The grammar run from position `i` in state `st` accepts the rest.
pub open spec fn num_run(s: Seq<char>, i: int, st: NumSt) -> bool
    decreases s.len() - i,
{
    if i < 0 || i >= s.len() {
        num_accept(st)
    } else {
        match num_step(st, s[i]) {
            Some(st2) => num_run(s, i + 1, st2),
            None => false,
        }
    }
}

/// The text is a well-formed JSON number.
pub open spec fn spec_json_number(s: Seq<char>) -> bool {
    s.len() > 0 && num_run(s, 0, NumSt::Start)
}

/// Every character the number grammar accepts is ASCII.
proof fn lemma_num_ascii(s: Seq<char>, i: int, st: NumSt)
    requires
        num_run(s, i, st),
        0 <= i <= s.len(),
    ensures
        forall|j: int| i <= j < s.len() ==> '\0' <= #[trigger] s[j] <= '\u{7f}',
    decreases s.len() - i,
{
    if i < s.len() {
        match num_step(st, s[i]) {
            Some(st2) => {
                lemma_num_ascii(s, i + 1, st2);
            },
            None => {},
        }
    }
}

/// The compact JSON rendering of a structured value.
pub open spec fn json_bytes(t: TreeV) -> Seq<u8>
    decreases t,
{
    match t {
        TreeV::Null => seq![0x6eu8, 0x75u8, 0x6cu8, 0x6cu8],
        TreeV::Bool(b) => if b {
            seq![0x74u8, 0x72u8, 0x75u8, 0x65u8]
        } else {
            seq![0x66u8, 0x61u8, 0x6cu8, 0x73u8, 0x65u8]
        },
        TreeV::Int(i) => spec_int_json(i),
        TreeV::Num(txt) => if spec_json_number(txt) {
            txt.map_values(|c: char| c as u8)
        } else {
            seq![0x6eu8, 0x75u8, 0x6cu8, 0x6cu8]
        },
        TreeV::Str(s) => json_str_bytes(s),
        TreeV::Arr(items) => seq![0x5bu8] + arr_body_bytes(items) + seq![0x5du8],
        TreeV::Obj(pairs) => seq![0x7bu8] + obj_body_bytes(pairs) + seq![0x7du8],
    }
}

/// The comma-separated items of an array.
pub open spec fn arr_body_bytes(items: Seq<TreeV>) -> Seq<u8>
    decreases items,
{
    if items.len() == 0 {
        Seq::empty()
    } else if items.len() == 1 {
        json_bytes(items[0])
    } else {
        arr_body_bytes(items.drop_last()) + seq![0x2cu8] + json_bytes(items.last())
    }
}

/// The comma-separated pairs of an object.
pub open spec fn obj_body_bytes(pairs: Seq<(Seq<char>, TreeV)>) -> Seq<u8>
    decreases pairs,
{
    if pairs.len() == 0 {
        Seq::empty()
    } else if pairs.len() == 1 {
        json_str_bytes(pairs[0].0) + seq![0x3au8] + json_bytes(pairs[0].1)
    } else {
        obj_body_bytes(pairs.drop_last()) + seq![0x2cu8] + json_str_bytes(pairs.last().0)
            + seq![0x3au8] + json_bytes(pairs.last().1)
    }
}

/// Checks a number text against the JSON number grammar.
#[verifier::loop_isolation(false)]
pub fn check_json_number(s: &str) -> (r: bool)
    ensures
        r == spec_json_number(s@),
{
    let n = s.unicode_len();
    if n == 0 {
        return false;
    }
    let mut st = NumSt::Start;
    let mut i: usize = 0;
    while i < n
        invariant
            0 <= i <= n,
            num_run(s@, 0, NumSt::Start) == num_run(s@, i as int, st),
        decreases n - i,
    {
        let c = s.get_char(i);
        let next = match st {
            NumSt::Start => {
                if c == '-' {
                    Some(NumSt::Sign)
                } else if c == '0' {
                    Some(NumSt::Zero)
                } else if '1' <= c && c <= '9' {
                    Some(NumSt::IntD)
                } else {
                    None
                }
            },
            NumSt::Sign => {
                if c == '0' {
                    Some(NumSt::Zero)
                } else if '1' <= c && c <= '9' {
                    Some(NumSt::IntD)
                } else {
                    None
                }
            },
            NumSt::Zero => {
                if c == '.' {
                    Some(NumSt::Dot)
                } else if c == 'e' || c == 'E' {
                    Some(NumSt::Exp)
                } else {
                    None
                }
            },
            NumSt::IntD => {
                if '0' <= c && c <= '9' {
                    Some(NumSt::IntD)
                } else if c == '.' {
                    Some(NumSt::Dot)
                } else if c == 'e' || c == 'E' {
                    Some(NumSt::Exp)
                } else {
                    None
                }
            },
            NumSt::Dot => {
                if '0' <= c && c <= '9' {
                    Some(NumSt::FracD)
                } else {
                    None
                }
            },
            NumSt::FracD => {
                if '0' <= c && c <= '9' {
                    Some(NumSt::FracD)
                } else if c == 'e' || c == 'E' {
                    Some(NumSt::Exp)
                } else {
                    None
                }
            },
            NumSt::Exp => {
                if c == '+' || c == '-' {
                    Some(NumSt::ExpSign)
                } else if '0' <= c && c <= '9' {
                    Some(NumSt::ExpD)
                } else {
                    None
                }
            },
            NumSt::ExpSign => {
                if '0' <= c && c <= '9' {
                    Some(NumSt::ExpD)
                } else {
                    None
                }
            },
            NumSt::ExpD => {
                if '0' <= c && c <= '9' {
                    Some(NumSt::ExpD)
                } else {
                    None
                }
            },
        };
        assert(num_step(st, s@[i as int]) == next);
        match next {
            Some(st2) => {
                st = st2;
            },
            None => {
                return false;
            },
        }
        i += 1;
    }
    match st {
        NumSt::Zero => true,
        NumSt::IntD => true,
        NumSt::FracD => true,
        NumSt::ExpD => true,
        _ => false,
    }
}

/// Appends the escaped, quoted form of a string.
#[verifier::loop_isolation(false)]
fn push_json_str(out: &mut Vec<u8>, s: &str)
    ensures
        final(out)@ == old(out)@ + json_str_bytes(s@),
{
    out.push(0x22);
    let bs = s.as_bytes();
    let ghost bv = encode_utf8(s@);
    let n = bs.len();
    let mut i: usize = 0;
    while i < n
        invariant
            i <= n,
            n == bv.len(),
            bs@ == bv,
            out@ == old(out)@ + seq![0x22u8] + escape_bytes(bv.take(i as int)),
        decreases n - i,
    {
        let b = bs[i];
        proof {
            assert(bv.take(i + 1 as int).drop_last() =~= bv.take(i as int));
            assert(bv.take(i + 1 as int).last() == bv[i as int]);
        }
        if b == 0x22 {
            out.push(0x5c);
            out.push(0x22);
        } else if b == 0x5c {
            out.push(0x5c);
            out.push(0x5c);
        } else if b == 0x08 {
            out.push(0x5c);
            out.push(0x62);
        } else if b == 0x09 {
            out.push(0x5c);
            out.push(0x74);
        } else if b == 0x0a {
            out.push(0x5c);
            out.push(0x6e);
        } else if b == 0x0c {
            out.push(0x5c);
            out.push(0x66);
        } else if b == 0x0d {
            out.push(0x5c);
            out.push(0x72);
        } else if b < 0x20 {
            out.push(0x5c);
            out.push(0x75);
            out.push(0x30);
            out.push(0x30);
            let hi = b / 16;
            let lo = b % 16;
            out.push(if hi < 10 { 48 + hi } else { 87 + hi });
            out.push(if lo < 10 { 48 + lo } else { 87 + lo });
        } else {
            out.push(b);
        }
        assert(out@ =~= old(out)@ + seq![0x22u8] + escape_bytes(bv.take(i + 1 as int)));
        i += 1;
    }
    proof {
        assert(bv.take(n as int) =~= bv);
    }
    out.push(0x22);
    assert(out@ =~= old(out)@ + json_str_bytes(s@));
}

/// Appends the decimal digits of an unsigned value.
fn push_dec_digits(out: &mut Vec<u8>, n: u64)
    ensures
        final(out)@ == old(out)@ + spec_dec_digits(n as nat),
    decreases n,
{
    if n < 10 {
        out.push(48 + (n as u8));
        assert(out@ =~= old(out)@ + spec_dec_digits(n as nat));
    } else {
        push_dec_digits(out, n / 10);
        out.push(48 + ((n % 10) as u8));
        assert(out@ =~= old(out)@ + spec_dec_digits(n as nat));
    }
}

/// Appends the decimal rendering of a signed integer.
fn push_int_json(out: &mut Vec<u8>, i: i64)
    ensures
        final(out)@ == old(out)@ + spec_int_json(i as int),
{
    if i < 0 {
        out.push(0x2d);
        let m: u64 = if i == i64::MIN {
            9223372036854775808u64
        } else {
            (-i) as u64
        };
        assert(m as nat == (-(i as int)) as nat);
        push_dec_digits(out, m);
        assert(out@ =~= old(out)@ + spec_int_json(i as int));
    } else {
        push_dec_digits(out, i as u64);
    }
}

/// Renders a structured value as compact JSON bytes.
#[verifier::loop_isolation(false)]
#[verifier::rlimit(100)]
pub fn json_encode(t: &TreeValue) -> (r: Vec<u8>)
    ensures
        r@ == json_bytes(t.deep_view()),
    decreases t,
{
    let mut out: Vec<u8> = Vec::new();
    push_json_value(&mut out, t);
    out
}

/// Appends the compact JSON rendering of a structured value.
#[verifier::loop_isolation(false)]
#[verifier::rlimit(100)]
pub fn push_json_value(out: &mut Vec<u8>, t: &TreeValue)
    ensures
        final(out)@ == old(out)@ + json_bytes(t.deep_view()),
    decreases t,
{
    match t {
        TreeValue::Null => {
            out.push(0x6e);
            out.push(0x75);
            out.push(0x6c);
            out.push(0x6c);
            assert(out@ =~= old(out)@ + json_bytes(t.deep_view()));
        },
        TreeValue::Bool(b) => {
            if *b {
                out.push(0x74);
                out.push(0x72);
                out.push(0x75);
                out.push(0x65);
            } else {
                out.push(0x66);
                out.push(0x61);
                out.push(0x6c);
                out.push(0x73);
                out.push(0x65);
            }
            assert(out@ =~= old(out)@ + json_bytes(t.deep_view()));
        },
        TreeValue::Int(i) => {
            push_int_json(out, *i);
        },
        TreeValue::Num(txt) => {
            if check_json_number(txt.as_str()) {
                proof {
                    lemma_num_ascii(txt@, 0, NumSt::Start);
                    assert(vstd::utf8::is_ascii_chars(txt@));
                    vstd::utf8::is_ascii_chars_encode_utf8(txt@);
                }
                let bs = txt.as_str().as_bytes();
                let n = bs.len();
                let mut i: usize = 0;
                while i < n
                    invariant
                        i <= n,
                        n == bs@.len(),
                        bs@ == encode_utf8(txt@),
                        encode_utf8(txt@) =~= txt@.map_values(|c: char| c as u8),
                        out@ == old(out)@ + txt@.map_values(|c: char| c as u8).take(i as int),
                    decreases n - i,
                {
                    out.push(bs[i]);
                    assert(out@ =~= old(out)@ + txt@.map_values(|c: char| c as u8).take(
                        i + 1 as int,
                    ));
                    i += 1;
                }
                proof {
                    assert(txt@.map_values(|c: char| c as u8).take(n as int) =~= txt@.map_values(
                        |c: char| c as u8,
                    ));
                }
            } else {
                out.push(0x6e);
                out.push(0x75);
                out.push(0x6c);
                out.push(0x6c);
                assert(out@ =~= old(out)@ + json_bytes(t.deep_view()));
            }
        },
        TreeValue::Str(s) => {
            push_json_str(out, s.as_str());
        },
        TreeValue::Arr(items) => {
            let ghost ditems = items_deep(items@);
            assert(t.deep_view() == TreeV::Arr(ditems));
            out.push(0x5b);
            let n = items.len();
            let mut i: usize = 0;
            while i < n
                invariant
                    i <= n,
                    n == items.len(),
                    ditems == items_deep(items@),
                    ditems.len() == n,
                    out@ == old(out)@ + seq![0x5bu8] + arr_body_bytes(ditems.take(i as int)),
                decreases n - i,
            {
                if i > 0 {
                    out.push(0x2c);
                }
                proof {
                    assert(t->Arr_0 == *items);
                    assert(decreases_to!(*t => t->Arr_0));
                    assert(decreases_to!(*items => items@));
                    assert(decreases_to!(items@ => items@[i as int]));
                }
                push_json_value(out, &items[i]);
                proof {
                    assert(ditems.take(i + 1 as int).drop_last() =~= ditems.take(i as int));
                    assert(ditems.take(i + 1 as int).last() == ditems[i as int]);
                    assert(ditems[i as int] == items@[i as int].deep_view());
                    assert(out@ =~= old(out)@ + seq![0x5bu8] + arr_body_bytes(
                        ditems.take(i + 1 as int),
                    ));
                }
                i += 1;
            }
            proof {
                assert(ditems.take(n as int) =~= ditems);
            }
            out.push(0x5d);
            assert(out@ =~= old(out)@ + json_bytes(t.deep_view()));
        },
        TreeValue::Obj(pairs) => {
            let ghost dpairs = pairs_deep(pairs@);
            assert(t.deep_view() == TreeV::Obj(dpairs));
            out.push(0x7b);
            let n = pairs.len();
            let mut i: usize = 0;
            while i < n
                invariant
                    i <= n,
                    n == pairs.len(),
                    dpairs == pairs_deep(pairs@),
                    dpairs.len() == n,
                    out@ == old(out)@ + seq![0x7bu8] + obj_body_bytes(dpairs.take(i as int)),
                decreases n - i,
            {
                if i > 0 {
                    out.push(0x2c);
                }
                push_json_str(out, pairs[i].0.as_str());
                out.push(0x3a);
                proof {
                    assert(t->Obj_0 == *pairs);
                    assert(decreases_to!(*t => t->Obj_0));
                    assert(decreases_to!(*pairs => pairs@));
                    assert(decreases_to!(pairs@ => pairs@[i as int]));
                    assert(decreases_to!(pairs@[i as int] => pairs@[i as int].1));
                }
                push_json_value(out, &pairs[i].1);
                proof {
                    assert(dpairs.take(i + 1 as int).drop_last() =~= dpairs.take(i as int));
                    assert(dpairs.take(i + 1 as int).last() == dpairs[i as int]);
                    assert(dpairs[i as int] == (
                        pairs@[i as int].0@,
                        pairs@[i as int].1.deep_view(),
                    ));
                    assert(out@ =~= old(out)@ + seq![0x7bu8] + obj_body_bytes(
                        dpairs.take(i + 1 as int),
                    ));
                }
                i += 1;
            }
            proof {
                assert(dpairs.take(n as int) =~= dpairs);
            }
            out.push(0x7d);
            assert(out@ =~= old(out)@ + json_bytes(t.deep_view()));
        },
    }
}

/// Renders an object's pair vector as compact JSON bytes, without taking
/// ownership of it.
#[verifier::loop_isolation(false)]
#[verifier::rlimit(100)]
pub fn json_encode_obj(pairs: &Vec<(String, TreeValue)>) -> (r: Vec<u8>)
    ensures
        r@ == json_bytes(TreeV::Obj(pairs_deep(pairs@))),
{
    let ghost dpairs = pairs_deep(pairs@);
    let mut out: Vec<u8> = Vec::new();
    out.push(0x7b);
    let n = pairs.len();
    let mut i: usize = 0;
    while i < n
        invariant
            i <= n,
            n == pairs.len(),
            dpairs == pairs_deep(pairs@),
            dpairs.len() == n,
            out@ == seq![0x7bu8] + obj_body_bytes(dpairs.take(i as int)),
        decreases n - i,
    {
        if i > 0 {
            out.push(0x2c);
        }
        push_json_str(&mut out, pairs[i].0.as_str());
        out.push(0x3a);
        push_json_value(&mut out, &pairs[i].1);
        proof {
            assert(dpairs.take(i + 1 as int).drop_last() =~= dpairs.take(i as int));
            assert(dpairs.take(i + 1 as int).last() == dpairs[i as int]);
            assert(dpairs[i as int] == (pairs@[i as int].0@, pairs@[i as int].1.deep_view()));
            assert(out@ =~= seq![0x7bu8] + obj_body_bytes(dpairs.take(i + 1 as int)));
        }
        i += 1;
    }
    proof {
        assert(dpairs.take(n as int) =~= dpairs);
    }
    out.push(0x7d);
    assert(out@ =~= json_bytes(TreeV::Obj(dpairs)));
    out
}

} // verus!
