//! Indicators: the addresses, domains, URLs and file names that
//! classification extracts from a message.

use vstd::prelude::*;
use crate::models::score::{
    chars_of, digit_run, digits_value, is_digit, lemma_digit_run_digits, read_digits, skip_digits,
};

verus! {

/// Where the octet that starts at `from` ends: after one to three digits
/// that denote a number up to 255. `None` where no octet starts there.
pub open spec fn octet_end(s: Seq<char>, from: int) -> Option<int> {
    let n = digit_run(s, from);
    if 0 <= from && 1 <= n <= 3 && digits_value(s.subrange(from, from + n)) <= 255 {
        Some(from + n)
    } else {
        None
    }
}

/// Whether an octet that ends at `end` is followed by a dot.
pub open spec fn dot_at(s: Seq<char>, end: Option<int>) -> bool {
    end matches Some(e) && e < s.len() && s[e] == '.'
}

/// Whether `s` is an IPv4 address in dotted decimal: four octets with a dot
/// between each two.
pub open spec fn is_ipv4(s: Seq<char>) -> bool {
    let a = octet_end(s, 0);
    let b = octet_end(s, a->Some_0 + 1);
    let c = octet_end(s, b->Some_0 + 1);
    let d = octet_end(s, c->Some_0 + 1);
    dot_at(s, a) && dot_at(s, b) && dot_at(s, c) && d == Some(s.len() as int)
}

/// The first of `items` that is an IPv4 address, if one is.
pub open spec fn first_ipv4(items: Seq<Seq<char>>) -> Option<Seq<char>>
    decreases items.len(),
{
    if items.len() == 0 {
        None
    } else if is_ipv4(items[0]) {
        Some(items[0])
    } else {
        first_ipv4(items.drop_first())
    }
}

/// Where the octet that starts at `from` ends, if one starts there.
fn scan_octet(v: &Vec<char>, from: usize) -> (r: Option<usize>)
    requires
        from <= v@.len(),
    ensures
        r is Some <==> octet_end(v@, from as int) is Some,
        r matches Some(e) ==> octet_end(v@, from as int) == Some(e as int) && e <= v@.len(),
{
    let end = skip_digits(v, from);
    if end == from || end - from > 3 {
        return None;
    }
    proof {
        assert forall|i: int| from <= i < end implies is_digit(#[trigger] v@[i]) by {
            lemma_digit_run_digits(v@, from as int, i);
        }
        assert(Seq::<char>::empty() + v@.subrange(from as int, end as int) == v@.subrange(
            from as int,
            end as int,
        ));
    }
    let value = read_digits(v, from, end, 0, Ghost(Seq::empty()));
    if value <= 255 {
        Some(end)
    } else {
        None
    }
}

/// Where the octet and the dot that start at `from` end, if they stand
/// there.
fn scan_octet_and_dot(v: &Vec<char>, from: usize) -> (r: Option<usize>)
    requires
        from <= v@.len(),
    ensures
        r is Some <==> dot_at(v@, octet_end(v@, from as int)),
        r matches Some(e) ==> octet_end(v@, from as int) == Some(e - 1) && e <= v@.len(),
{
    match scan_octet(v, from) {
        None => None,
        Some(e) => {
            if e < v.len() && v[e] == '.' {
                Some(e + 1)
            } else {
                None
            }
        },
    }
}

/// Whether `s` is an IPv4 address in dotted decimal.
pub fn is_ip_address(s: &str) -> (r: bool)
    ensures
        r == is_ipv4(s@),
{
    let v = chars_of(s);
    let a = match scan_octet_and_dot(&v, 0) {
        None => {
            return false;
        },
        Some(a) => a,
    };
    let b = match scan_octet_and_dot(&v, a) {
        None => {
            return false;
        },
        Some(b) => b,
    };
    let c = match scan_octet_and_dot(&v, b) {
        None => {
            return false;
        },
        Some(c) => c,
    };
    match scan_octet(&v, c) {
        None => false,
        Some(d) => d == v.len(),
    }
}

/// The first of `items` that is an IPv4 address, if one is.
pub fn first_ip_address(items: &Vec<String>) -> (r: Option<String>)
    ensures
        crate::text::opt_text(r) == first_ipv4(items.deep_view()),
{
    let mut i: usize = 0;
    proof {
        assert(items.deep_view().skip(0) == items.deep_view());
    }
    while i < items.len()
        invariant
            0 <= i <= items@.len(),
            first_ipv4(items.deep_view()) == first_ipv4(items.deep_view().skip(i as int)),
        decreases items@.len() - i,
    {
        proof {
            let rest = items.deep_view().skip(i as int);
            assert(rest[0] == items@[i as int]@);
            assert(rest.drop_first() == items.deep_view().skip(i + 1));
        }
        if is_ip_address(items[i].as_str()) {
            return Some(items[i].clone());
        }
        i += 1;
    }
    proof {
        assert(items.deep_view().skip(items@.len() as int).len() == 0);
    }
    None
}

} // verus!
