use vstd::prelude::*;
use vstd::utf8::encode_utf8;

use crate::address::{address_value, parse_address, parses_as_address, ConfigError};
use crate::ranges::{coalesce_addresses, coalesce_spec, covered, well_separated, AddressRange};

verus! {

/// A configured register: its address and an optional label.
#[derive(Debug, PartialEq, Eq)]
pub struct RegisterDescriptor {
    pub address: u16,
    pub label: Option<String>,
}

/// The key of a configuration entry reads as an address.
pub open spec fn key_parses(key: &String) -> bool {
    parses_as_address(encode_utf8(key@))
}

/// The address that the key of a configuration entry denotes.
pub open spec fn key_address(key: &String) -> u16 {
    address_value(encode_utf8(key@))
}

/// Every key of the entries reads as an address.
pub open spec fn all_keys_parse(entries: Seq<(String, Option<String>)>) -> bool {
    forall|i: int| 0 <= i < entries.len() ==> key_parses(&(#[trigger] entries[i]).0)
}

/// The index of the first entry whose key does not read as an address.
pub open spec fn first_bad_key(entries: Seq<(String, Option<String>)>, i: int) -> bool {
    &&& 0 <= i < entries.len()
    &&& !key_parses(&entries[i].0)
    &&& forall|j: int| 0 <= j < i ==> key_parses(&(#[trigger] entries[j]).0)
}

/// The addresses of the entries, in order.
pub open spec fn entry_addresses(entries: Seq<(String, Option<String>)>) -> Seq<u16> {
    Seq::new(entries.len(), |i: int| key_address(&entries[i].0))
}

/// What `parse_registers` and `build_ranges` report for entries with a bad key.
pub open spec fn reports_first_bad_key(entries: Seq<(String, Option<String>)>, e: ConfigError) -> bool {
    exists|i: int|
        first_bad_key(entries, i) && (match e {
            ConfigError::InvalidAddress { key } => key@ == entries[i].0@,
        })
}

/// Reads the configured registers, keyed by decimal address, in order; the
/// first key that is not a 16-bit decimal number is refused.
pub fn parse_registers(entries: &Vec<(String, Option<String>)>) -> (r: Result<Vec<RegisterDescriptor>, ConfigError>)
    ensures
        r is Ok <==> all_keys_parse(entries@),
        match r {
            Ok(ds) => ds@.len() == entries@.len() && forall|i: int|
                0 <= i < ds@.len() ==> (#[trigger] ds@[i]).address == key_address(&entries@[i].0)
                    && ds@[i].label == entries@[i].1,
            Err(e) => reports_first_bad_key(entries@, e),
        },
{
    let mut out: Vec<RegisterDescriptor> = Vec::new();
    let mut i: usize = 0;
    while i < entries.len()
        invariant
            0 <= i <= entries.len(),
            out@.len() == i,
            forall|j: int| 0 <= j < i ==> key_parses(&(#[trigger] entries@[j]).0),
            forall|j: int|
                0 <= j < i ==> (#[trigger] out@[j]).address == key_address(&entries@[j].0)
                    && out@[j].label == entries@[j].1,
        decreases entries.len() - i,
    {
        let entry = &entries[i];
        match parse_address(entry.0.as_str()) {
            Ok(address) => {
                let label = match &entry.1 {
                    Some(l) => Some(l.clone()),
                    None => None,
                };
                out.push(RegisterDescriptor { address, label });
            },
            Err(e) => {
                assert(first_bad_key(entries@, i as int));
                return Err(e);
            },
        }
        i += 1;
    }
    Ok(out)
}

/// Reads the configured registers and coalesces their addresses, in the
/// order of the entries, into contiguous read ranges.
pub fn build_ranges(entries: &Vec<(String, Option<String>)>) -> (r: Result<Vec<AddressRange>, ConfigError>)
    ensures
        r is Ok <==> all_keys_parse(entries@),
        match r {
            Ok(rs) => rs@ == coalesce_spec(entry_addresses(entries@)) && well_separated(rs@)
                && forall|a: int| covered(rs@, a) <==> exists|i: int|
                    0 <= i < entries@.len() && key_address(&(#[trigger] entries@[i]).0) as int == a,
            Err(e) => reports_first_bad_key(entries@, e),
        },
{
    let descriptors = match parse_registers(entries) {
        Ok(ds) => ds,
        Err(e) => return Err(e),
    };
    let mut addrs: Vec<u16> = Vec::new();
    let mut i: usize = 0;
    while i < descriptors.len()
        invariant
            0 <= i <= descriptors.len(),
            descriptors@.len() == entries@.len(),
            forall|j: int|
                0 <= j < descriptors@.len() ==> (#[trigger] descriptors@[j]).address == key_address(&entries@[j].0),
            addrs@ == entry_addresses(entries@).subrange(0, i as int),
        decreases descriptors.len() - i,
    {
        addrs.push(descriptors[i].address);
        i += 1;
    }
    assert(addrs@ == entry_addresses(entries@));
    let rs = coalesce_addresses(&addrs);
    assert forall|a: int| covered(rs@, a) <==> exists|i: int|
        0 <= i < entries@.len() && key_address(&(#[trigger] entries@[i]).0) as int == a by {
        if covered(rs@, a) {
            let i = choose|i: int| 0 <= i < addrs@.len() && addrs@[i] as int == a;
            assert(key_address(&entries@[i].0) as int == a);
        }
        if exists|i: int| 0 <= i < entries@.len() && key_address(&(#[trigger] entries@[i]).0) as int == a {
            let i = choose|i: int| 0 <= i < entries@.len() && key_address(&(#[trigger] entries@[i]).0) as int == a;
            assert(addrs@[i] as int == a);
        }
    }
    Ok(rs)
}

} // verus!
