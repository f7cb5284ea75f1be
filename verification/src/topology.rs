use vstd::prelude::*;
use vstd::string::StrSliceExecFns;
use vstd::string::StringExecFns;

use crate::strutil::{
    starts_with_seq,
    str_starts_with,
    find_char,
    seq_contains_char,
    spec_before_char,
    lemma_before_char_is_prefix,
};

verus! {

/// A decimal digit.
pub open spec fn is_digit(c: char) -> bool {
    48 <= c as u32 <= 57
}

/// The value of one decimal digit.
pub open spec fn digit_val(c: char) -> nat {
    (c as u32 - 48) as nat
}

/// Every character of `s` is a decimal digit.
pub open spec fn all_digits(s: Seq<char>) -> bool {
    forall|i: int| 0 <= i < s.len() ==> is_digit(#[trigger] s[i])
}

/// The number a digit string denotes, most significant digit first.
pub open spec fn digits_val(s: Seq<char>) -> nat
    decreases s.len(),
{
    if s.len() == 0 {
        0
    } else {
        digits_val(s.take(s.len() - 1)) * 10 + digit_val(s[s.len() - 1])
    }
}

/// A non-empty digit string whose value fits in a `u32`.
pub open spec fn is_u32_numeral(s: Seq<char>) -> bool {
    s.len() > 0 && all_digits(s) && digits_val(s) <= u32::MAX
}

/// The value of a digit string never shrinks when digits are appended.
proof fn lemma_digits_val_prefix_le(s: Seq<char>, i: int)
    requires
        0 <= i <= s.len(),
    ensures
        digits_val(s.take(i)) <= digits_val(s),
    decreases s.len(),
{
    if i == s.len() {
        assert(s.take(i) =~= s);
    } else {
        let head = s.take(s.len() - 1);
        assert(head.take(i) =~= s.take(i));
        lemma_digits_val_prefix_le(head, i);
    }
}

/// Parse a decimal `u32` numeral: digits only, no sign, no other characters.
pub fn parse_u32(s: &str) -> (r: Option<u32>)
    ensures
        match r {
            Some(n) => is_u32_numeral(s@) && n == digits_val(s@),
            None => !is_u32_numeral(s@),
        },
{
    let len = s.unicode_len();
    if len == 0 {
        return None;
    }
    let mut acc: u32 = 0;
    let mut i: usize = 0;
    proof {
        assert(s@.take(0) =~= Seq::<char>::empty());
    }
    while i < len
        invariant
            len == s@.len(),
            i <= len,
            all_digits(s@.take(i as int)),
            acc == digits_val(s@.take(i as int)),
        decreases len - i,
    {
        let c = s.get_char(i);
        let cv = c as u32;
        if cv < 48 || cv > 57 {
            return None;
        }
        let d: u32 = cv - 48;
        let wide: u64 = (acc as u64) * 10 + (d as u64);
        proof {
            assert(s@.take(i + 1).take(i as int) =~= s@.take(i as int));
            assert(s@.take(i + 1)[i as int] == s@[i as int]);
        }
        if wide > 0xffff_ffffu64 {
            proof {
                lemma_digits_val_prefix_le(s@, i + 1);
            }
            return None;
        }
        acc = wide as u32;
        i = i + 1;
    }
    proof {
        assert(s@.take(len as int) =~= s@);
    }
    Some(acc)
}

/// The identifying parts of a USB topology string of the shape
/// `usb-<pci-id>-<usb-bus>/<endpoint>`: the PCI id and the bus part. The
/// portion after the first `/` is ignored; parts after a second `-` are too.
pub open spec fn spec_topology_parts(s: Seq<char>) -> Option<(Seq<char>, Seq<char>)> {
    if !starts_with_seq(s, "usb-"@) {
        None
    } else {
        let path = spec_before_char(s.skip("usb-"@.len() as int), '/');
        if !seq_contains_char(path, '-') {
            None
        } else {
            let pci = spec_before_char(path, '-');
            let rest = path.skip(pci.len() as int + 1);
            Some((pci, spec_before_char(rest, '-')))
        }
    }
}

/// A parsed USB topology string: the PCI id of the host controller, the bus
/// part as written, and its numeric value.
#[derive(Debug, Clone)]
pub struct UsbTopology {
    pub pci_id: String,
    pub usb_path: String,
    pub usb_bus: u32,
}

/// Parse a topology string of the shape `usb-<pci-id>-<usb-bus>/<endpoint>`.
/// Anything malformed — wrong prefix, no bus part, a bus part that is not a
/// `u32` numeral — yields `None`, never an error.
pub fn parse_topology(input: &str) -> (r: Option<UsbTopology>)
    ensures
        match r {
            Some(t) => spec_topology_parts(input@) == Some((t.pci_id@, t.usb_path@))
                && is_u32_numeral(t.usb_path@) && t.usb_bus == digits_val(t.usb_path@),
            None => spec_topology_parts(input@) is None || (spec_topology_parts(input@) matches Some(
                p,
            ) && !is_u32_numeral(p.1)),
        },
{
    proof {
        reveal_strlit("usb-");
    }
    if !str_starts_with(input, "usb-") {
        return None;
    }
    let ilen = input.unicode_len();
    let body = input.substring_char(4, ilen);
    proof {
        assert(body@ =~= input@.skip(4));
    }
    let path_end = match find_char(body, '/') {
        Some(i) => {
            proof {
                lemma_before_char_is_prefix(body@, '/', i as int);
            }
            i
        },
        None => {
            proof {
                lemma_before_char_is_prefix(body@, '/', body@.len() as int);
                assert(body@.take(body@.len() as int) =~= body@);
            }
            body.unicode_len()
        },
    };
    let path = body.substring_char(0, path_end);
    let dash1 = match find_char(path, '-') {
        Some(i) => {
            proof {
                lemma_before_char_is_prefix(path@, '-', i as int);
            }
            i
        },
        None => {
            return None;
        },
    };
    let pci = path.substring_char(0, dash1);
    let plen = path.unicode_len();
    let rest = path.substring_char(dash1 + 1, plen);
    proof {
        assert(rest@ =~= path@.skip(dash1 + 1));
    }
    let port_end = match find_char(rest, '-') {
        Some(i) => {
            proof {
                lemma_before_char_is_prefix(rest@, '-', i as int);
            }
            i
        },
        None => {
            proof {
                lemma_before_char_is_prefix(rest@, '-', rest@.len() as int);
                assert(rest@.take(rest@.len() as int) =~= rest@);
            }
            rest.unicode_len()
        },
    };
    let port = rest.substring_char(0, port_end);
    let bus = match parse_u32(port) {
        Some(n) => n,
        None => {
            return None;
        },
    };
    Some(UsbTopology { pci_id: pci.to_owned(), usb_path: port.to_owned(), usb_bus: bus })
}

/// The display name combined from manufacturer and product strings: the
/// product alone when it already starts with the manufacturer; plain
/// concatenation when either is empty; otherwise the two joined by one space.
pub open spec fn spec_derive_name(m: Seq<char>, p: Seq<char>) -> Seq<char> {
    if starts_with_seq(p, m) {
        p
    } else if m.len() == 0 || p.len() == 0 {
        m + p
    } else {
        m + " "@ + p
    }
}

/// Combine manufacturer and product strings into one display name.
pub fn derive_name(manufacturer: &str, product: &str) -> (r: String)
    ensures
        r@ == spec_derive_name(manufacturer@, product@),
{
    if str_starts_with(product, manufacturer) {
        return product.to_owned();
    }
    if manufacturer.is_empty() || product.is_empty() {
        let mut s = manufacturer.to_owned();
        s.append(product);
        return s;
    }
    let mut s = manufacturer.to_owned();
    s.append(" ");
    s.append(product);
    s
}

/// A product that already starts with the manufacturer is kept unchanged.
pub proof fn lemma_derive_name_keeps_product(m: Seq<char>, p: Seq<char>)
    requires
        starts_with_seq(p, m),
    ensures
        spec_derive_name(m, p) == p,
{
}

/// Two empty inputs give the empty name.
pub proof fn lemma_derive_name_empty(m: Seq<char>, p: Seq<char>)
    requires
        m.len() == 0,
        p.len() == 0,
    ensures
        spec_derive_name(m, p).len() == 0,
{
    assert(p.subrange(0, 0) =~= m);
}

/// Two non-empty inputs, where the product does not already carry the
/// manufacturer, are joined with a single space.
pub proof fn lemma_derive_name_joined(m: Seq<char>, p: Seq<char>)
    requires
        !starts_with_seq(p, m),
        m.len() > 0,
        p.len() > 0,
    ensures
        spec_derive_name(m, p) == m + " "@ + p,
{
}

} // verus!
