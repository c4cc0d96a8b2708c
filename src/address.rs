//! Syntax of hardware addresses: six `:`-separated hexadecimal bytes.
use vstd::prelude::*;

verus! {

/// Value of one hexadecimal digit, or -1 for any other character.
pub open spec fn hex_digit_value(c: char) -> int {
    let n = c as u32;
    if 0x30 <= n <= 0x39 {
        n - 0x30
    } else if 0x61 <= n <= 0x66 {
        n - 0x61 + 10
    } else if 0x41 <= n <= 0x46 {
        n - 0x41 + 10
    } else {
        -1
    }
}

pub open spec fn is_hex_digit(c: char) -> bool {
    hex_digit_value(c) >= 0
}

/// Base-16 value of a string of hexadecimal digits, most significant first.
pub open spec fn hex_value(d: Seq<char>) -> int
    decreases d.len(),
{
    if d.len() == 0 {
        0
    } else {
        hex_value(d.drop_last()) * 16 + hex_digit_value(d.last())
    }
}

/// The digits of a byte field: an optional leading `+` sign is not part of them.
pub open spec fn digits_of(seg: Seq<char>) -> Seq<char> {
    if seg.len() > 0 && seg[0] == '+' {
        seg.skip(1)
    } else {
        seg
    }
}

/// A field that reads as an unsigned byte in base 16: an optional `+`, then at
/// least one hexadecimal digit, with a value of at most 255.
pub open spec fn is_hex_byte(seg: Seq<char>) -> bool {
    &&& digits_of(seg).len() > 0
    &&& forall|i: int| 0 <= i < digits_of(seg).len() ==> is_hex_digit(#[trigger] digits_of(seg)[i])
    &&& hex_value(digits_of(seg)) <= 255
}

/// The fields of `s` between the `:` separators; there is always at least one.
pub open spec fn split_colon(s: Seq<char>) -> Seq<Seq<char>>
    decreases s.len(),
{
    if s.len() == 0 {
        seq![Seq::empty()]
    } else {
        let r = split_colon(s.drop_last());
        if s.last() == ':' {
            r.push(Seq::empty())
        } else {
            r.update(r.len() - 1, r.last().push(s.last()))
        }
    }
}

/// A hardware address: exactly six fields, each a hexadecimal byte.
pub open spec fn is_mac_addr(s: Seq<char>) -> bool {
    let f = split_colon(s);
    &&& f.len() == 6
    &&& forall|k: int| 0 <= k < 6 ==> is_hex_byte(#[trigger] f[k])
}

pub proof fn lemma_split_nonempty(s: Seq<char>)
    ensures
        split_colon(s).len() >= 1,
    decreases s.len(),
{
    if s.len() > 0 {
        lemma_split_nonempty(s.drop_last());
    }
}

proof fn lemma_hex_value_grows(d: Seq<char>, c: char)
    requires
        is_hex_digit(c),
    ensures
        hex_value(d.push(c)) == hex_value(d) * 16 + hex_digit_value(c),
{
    assert(d.push(c).drop_last() =~= d);
}

fn hex_digit(c: char) -> (r: u32)
    ensures
        is_hex_digit(c) ==> r as int == hex_digit_value(c) && r < 16,
        !is_hex_digit(c) ==> r == 16,
{
    let n = c as u32;
    if 0x30 <= n && n <= 0x39 {
        n - 0x30
    } else if 0x61 <= n && n <= 0x66 {
        n - 0x61 + 10
    } else if 0x41 <= n && n <= 0x46 {
        n - 0x41 + 10
    } else {
        16
    }
}

/// Whether one field reads as a hexadecimal byte.
pub fn is_hex_byte_field(seg: &Vec<char>) -> (r: bool)
    ensures
        r == is_hex_byte(seg@),
{
    let start: usize = if seg.len() > 0 && seg[0] == '+' { 1 } else { 0 };
    let ghost d = digits_of(seg@);
    assert(d =~= seg@.subrange(start as int, seg@.len() as int));
    if start >= seg.len() {
        return false;
    }
    let mut value: u32 = 0;
    let mut i: usize = start;
    while i < seg.len()
        invariant
            start <= i <= seg.len(),
            d == digits_of(seg@),
            d =~= seg@.subrange(start as int, seg@.len() as int),
            forall|j: int| 0 <= j < i - start ==> is_hex_digit(#[trigger] d[j]),
            value <= 255 ==> value as int == hex_value(d.take(i - start)),
            value > 255 ==> hex_value(d.take(i - start)) > 255,
            value <= 4095,
        decreases seg.len() - i,
    {
        let v = hex_digit(seg[i]);
        assert(d[i - start] == seg@[i as int]);
        if v >= 16 {
            assert(!is_hex_digit(d[i - start]));
            return false;
        }
        let ghost p = d.take(i - start);
        proof {
            lemma_hex_value_grows(p, seg@[i as int]);
            assert(d.take(i + 1 - start) =~= p.push(seg@[i as int]));
        }
        if value <= 255 {
            value = value * 16 + v;
        }
        i = i + 1;
    }
    assert(d.take(i - start) =~= d);
    value <= 255
}

/// The error of an address that is not six `:`-separated hexadecimal bytes.
#[derive(Debug, Clone, Copy, PartialEq, Eq, Structural)]
pub struct InvalidAddress;

/// Checks the syntax of a hardware address; it never resolves or contacts anything.
pub fn parse_mac_addr(mac: &str) -> (r: Result<(), InvalidAddress>)
    ensures
        r is Ok <==> is_mac_addr(mac@),
{
    let mut cur: Vec<char> = Vec::new();
    // Number of completed fields, counted up to six.
    let mut done: usize = 0;
    let mut ok = true;
    for c in it: mac.chars()
        invariant
            it.seq() == mac@,
            done <= 6,
            done < 6 ==> split_colon(mac@.take(it.index())).len() == done + 1,
            done == 6 ==> split_colon(mac@.take(it.index())).len() >= 7,
            done < 6 ==> cur@ == split_colon(mac@.take(it.index())).last(),
            done < 6 ==> (ok <==> forall|k: int|
                0 <= k < done ==> is_hex_byte(#[trigger] split_colon(mac@.take(it.index()))[k])),
    {
        let ghost pre = mac@.take(it.index());
        let ghost post = mac@.take(it.index() + 1);
        proof {
            assert(post.drop_last() =~= pre);
            assert(post.last() == c);
            lemma_split_nonempty(pre);
        }
        let ghost old_done = done;
        let ghost old_cur = cur@;
        if c == ':' {
            if done < 6 {
                ok = ok && is_hex_byte_field(&cur);
                done = done + 1;
                cur = Vec::new();
            }
        } else if done < 6 {
            cur.push(c);
        }
        proof {
            if old_done < 6 {
                assert(forall|k: int|
                    0 <= k < old_done ==> split_colon(post)[k] == split_colon(pre)[k]);
                if c == ':' {
                    assert(split_colon(post)[old_done as int] == old_cur);
                }
            }
        }
    }
    proof {
        assert(mac@.take(mac@.len() as int) =~= mac@);
        lemma_split_nonempty(mac@);
    }
    if done == 5 && ok && is_hex_byte_field(&cur) {
        assert(split_colon(mac@)[5] == cur@);
        Ok(())
    } else {
        proof {
            if done == 5 && ok {
                assert(split_colon(mac@)[5] == cur@);
            }
        }
        Err(InvalidAddress)
    }
}

} // verus!
