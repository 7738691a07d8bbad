//! What elements are called, and how numbers are written.

use vstd::prelude::*;

use crate::decode::record::field_of;
use crate::registry::element;
use crate::registry::enterprise::{NOKIA, VMWARE};
use crate::registry::iana_ie::{row_with, IeDef, IeType, REGISTRY};
use crate::text::{dec, hex, numeral};

verus! {

/// The number that digits stand for: letters go on where the ten digits end.
pub open spec fn digits_value(s: Seq<char>, base: nat) -> nat
    decreases s.len(),
{
    if s.len() == 0 {
        0
    } else {
        digits_value(s.drop_last(), base) * base + digit_value(s.last())
    }
}

/// The number of a digit.
pub open spec fn digit_value(c: char) -> nat {
    if '0' <= c <= '9' {
        (c as int - '0' as int) as nat
    } else {
        (c as int - 'a' as int + 10) as nat
    }
}

/// A digit of some base.
pub open spec fn is_digit(c: char, base: nat) -> bool {
    ('0' <= c <= '9' || 'a' <= c <= 'f') && digit_value(c) < base
}

/// A number that was written down can be read again: only digits stand there, they
/// weigh up to the number, and no zero leads unless the number is zero.
pub proof fn lemma_numeral_reads_back(n: nat, base: nat)
    requires
        2 <= base <= 16,
    ensures
        numeral(n, base).len() > 0,
        digits_value(numeral(n, base), base) == n,
        forall|i: int| 0 <= i < numeral(n, base).len() ==> #[trigger] is_digit(
            numeral(n, base)[i],
            base,
        ),
        numeral(n, base)[0] == '0' ==> n == 0,
    decreases n,
{
    let s = numeral(n, base);
    if n < base {
        assert(s.drop_last() =~= Seq::<char>::empty());
        assert(digits_value(s.drop_last(), base) == 0);
        assert(0 * base == 0) by (nonlinear_arith);
    } else {
        vstd::arithmetic::div_mod::lemma_div_decreases(n as int, base as int);
        vstd::arithmetic::div_mod::lemma_fundamental_div_mod(n as int, base as int);
        vstd::arithmetic::div_mod::lemma_mod_bound(n as int, base as int);
        vstd::arithmetic::div_mod::lemma_div_non_zero(n as int, base as int);
        let front = numeral(n / base, base);
        lemma_numeral_reads_back(n / base, base);
        assert(s.drop_last() =~= front);
        assert(digit_value(s.last()) == n % base);
        assert((n / base) * base == base * (n / base)) by (nonlinear_arith);
        assert forall|i: int| 0 <= i < s.len() implies #[trigger] is_digit(s[i], base) by {
            if i < front.len() {
                assert(s[i] == front[i]);
                assert(is_digit(front[i], base));
            }
        }
        assert(s[0] == front[0]);
    }
}

/// Different numbers are written differently, in decimal and in hexadecimal.
pub proof fn lemma_numerals_differ(a: nat, b: nat)
    ensures
        dec(a) == dec(b) ==> a == b,
        hex(a) == hex(b) ==> a == b,
{
    lemma_numeral_reads_back(a, 10);
    lemma_numeral_reads_back(b, 10);
    lemma_numeral_reads_back(a, 16);
    lemma_numeral_reads_back(b, 16);
}

/// The row of an id is one of the rows, and it is the row of that id.
proof fn lemma_row_is_listed(rows: Seq<(u16, &'static str, IeType)>, id: u16)
    ensures
        match row_with(rows, id) {
            Some(d) => d.id == id && exists|k: int|
                0 <= k < rows.len() && #[trigger] rows[k] == (id, d.name, d.ty),
            None => forall|k: int| 0 <= k < rows.len() ==> (#[trigger] rows[k]).0 != id,
        },
    decreases rows.len(),
{
    if rows.len() > 0 {
        let more = rows.drop_first();
        if rows[0].0 == id {
            let d = row_with(rows, id)->0;
            assert(rows[0] == (id, d.name, d.ty));
        } else {
            lemma_row_is_listed(more, id);
            match row_with(more, id) {
                Some(d) => {
                    let k = choose|k: int|
                        0 <= k < more.len() && #[trigger] more[k] == (id, d.name, d.ty);
                    assert(rows[k + 1] == (id, d.name, d.ty));
                },
                None => {
                    assert forall|k: int| 0 <= k < rows.len() implies (#[trigger] rows[k]).0
                        != id by {
                        if k > 0 {
                            assert(more[k - 1] == rows[k]);
                        }
                    }
                },
            }
        }
    }
}

/// Every standard element is known under the name and the type of its own row, and no
/// other is.
pub proof fn lemma_standard_elements(id: u16)
    ensures
        forall|k: int|
            0 <= k < REGISTRY@.len() && (#[trigger] REGISTRY@[k]).0 == id ==> element(0, id)
                == Some(IeDef { id, name: REGISTRY@[k].1, ty: REGISTRY@[k].2 }),
        (forall|k: int| 0 <= k < REGISTRY@.len() ==> (#[trigger] REGISTRY@[k]).0 != id)
            ==> element(0, id) is None,
{
    lemma_row_is_listed(REGISTRY@, id);
    assert forall|k: int|
        0 <= k < REGISTRY@.len() && (#[trigger] REGISTRY@[k]).0 == id implies element(0, id)
        == Some(IeDef { id, name: REGISTRY@[k].1, ty: REGISTRY@[k].2 }) by {
        let d = element(0, id)->0;
        let j = choose|j: int|
            0 <= j < REGISTRY@.len() && #[trigger] REGISTRY@[j] == (id, d.name, d.ty);
        if j < k {
            crate::registry::iana_ie::lemma_registry_ascending(j, k);
        } else if k < j {
            crate::registry::iana_ie::lemma_registry_ascending(k, j);
        }
    }
}

/// The elements of a vendor are known under that vendor's number alone, under the name
/// and the type of their own row; no other vendor has any.
pub proof fn lemma_vendor_elements(pen: u32, id: u16)
    requires
        pen != 0,
    ensures
        element(pen, id) is Some ==> pen == 6_876 || pen == 637,
        pen == 6_876 ==> match element(pen, id) {
            Some(d) => d.id == id && exists|k: int|
                0 <= k < VMWARE@.len() && #[trigger] VMWARE@[k] == (id, d.name, d.ty),
            None => forall|k: int| 0 <= k < VMWARE@.len() ==> (#[trigger] VMWARE@[k]).0 != id,
        },
        pen == 637 ==> match element(pen, id) {
            Some(d) => d.id == id && exists|k: int|
                0 <= k < NOKIA@.len() && #[trigger] NOKIA@[k] == (id, d.name, d.ty),
            None => forall|k: int| 0 <= k < NOKIA@.len() ==> (#[trigger] NOKIA@[k]).0 != id,
        },
{
    lemma_row_is_listed(VMWARE@, id);
    lemma_row_is_listed(NOKIA@, id);
}

/// A field keeps the number of its element, its enterprise and its length, and is called
/// what the registry calls it; one that no registry knows is called by its numbers, and
/// its bytes are of no known type.
pub proof fn lemma_field_naming(pen: u32, id: u16, length: u16)
    ensures
        ({
            let f = field_of(pen, id, length);
            &&& f.ie_id == id
            &&& f.enterprise_number == pen
            &&& f.length == length
            &&& match element(pen, id) {
                Some(d) => f.name == d.name@ && f.ie_type == label(d.ty),
                None => {
                    &&& f.ie_type == "octetArray"@
                    &&& f.name == if pen == 0 {
                        "id"@ + dec(id as nat)
                    } else {
                        "e"@ + dec(pen as nat) + "id"@ + dec(id as nat)
                    }
                },
            }
        }),
{
}

/// What a type is called.
pub open spec fn label(t: IeType) -> Seq<char> {
    match t {
        IeType::Boolean => "boolean"@,
        IeType::DateTimeMicroseconds => "dateTimeMicroseconds"@,
        IeType::DateTimeMilliseconds => "dateTimeMilliseconds"@,
        IeType::DateTimeNanoseconds => "dateTimeNanoseconds"@,
        IeType::DateTimeSeconds => "dateTimeSeconds"@,
        IeType::Float64 => "float64"@,
        IeType::Ipv4Address => "ipv4Address"@,
        IeType::Ipv6Address => "ipv6Address"@,
        IeType::MacAddress => "macAddress"@,
        IeType::OctetArray => "octetArray"@,
        IeType::Signed32 => "signed32"@,
        IeType::Signed64 => "signed64"@,
        IeType::String => "string"@,
        IeType::Unsigned16 => "unsigned16"@,
        IeType::Unsigned32 => "unsigned32"@,
        IeType::Unsigned64 => "unsigned64"@,
        IeType::Unsigned8 => "unsigned8"@,
    }
}

} // verus!
