//! Config lines generated from a name prefix and a uri prefix: slot `i` holds
//! the name `"<name> #<i + 1>"` and the uri `"<uri><i + 1>"`.
use vstd::prelude::*;

use crate::bitmask::table_wf;
use crate::slots::{line_views, lines_fit, slots_written, write_slots};
use crate::state::{CandyError, CandyMachineData, CometMintSettings, ConfigLine};

verus! {

/// The decimal digits of `v`, as ASCII bytes.
pub open spec fn decimal(v: nat) -> Seq<u8>
    decreases v,
{
    if v < 10 {
        seq![(48 + v) as u8]
    } else {
        decimal(v / 10) + seq![(48 + v % 10) as u8]
    }
}

/// The generated name of slot `i`.
pub open spec fn template_name(prefix: Seq<u8>, i: nat) -> Seq<u8> {
    prefix + seq![32u8, 35u8] + decimal(i + 1)
}

/// The generated uri of slot `i`.
pub open spec fn template_uri(prefix: Seq<u8>, i: nat) -> Seq<u8> {
    prefix + decimal(i + 1)
}

/// The generated lines of a table of `n` slots.
pub open spec fn template_lines(name: Seq<u8>, uri: Seq<u8>, n: nat) -> Seq<(Seq<u8>, Seq<u8>)> {
    Seq::new(n, |i: int| (template_name(name, i as nat), template_uri(uri, i as nat)))
}

/// Whether the config lines of `data` are generated into its table.
pub open spec fn generates_lines(data: CandyMachineData) -> bool {
    match data.comet_mint_settings {
        Some(cms) => !cms.sequel_mint,
        None => false,
    }
}

/// Appends the decimal digits of `v` to `out`.
pub fn push_decimal(out: &mut Vec<u8>, v: u64)
    ensures
        final(out)@ == old(out)@ + decimal(v as nat),
    decreases v,
{
    if v >= 10 {
        push_decimal(out, v / 10);
    }
    out.push(48u8 + (v % 10) as u8);
    assert(out@ =~= old(out)@ + decimal(v as nat));
}

/// A copy of `v`.
fn copy_bytes(v: &Vec<u8>) -> (r: Vec<u8>)
    ensures
        r@ == v@,
{
    let mut r: Vec<u8> = Vec::new();
    let mut k: usize = 0;
    while k < v.len()
        invariant
            k <= v@.len(),
            r@ == v@.take(k as int),
        decreases v@.len() - k,
    {
        r.push(v[k]);
        k = k + 1;
        assert(r@ =~= v@.take(k as int));
    }
    assert(v@.take(v@.len() as int) =~= v@);
    r
}

/// The generated config line of slot `i`.
pub fn template_line(cms: &CometMintSettings, i: u32) -> (r: ConfigLine)
    ensures
        r.name@ == template_name(cms.name@, i as nat),
        r.uri@ == template_uri(cms.uri@, i as nat),
{
    let mut name = copy_bytes(&cms.name);
    name.push(32u8);
    name.push(35u8);
    push_decimal(&mut name, i as u64 + 1);
    let mut uri = copy_bytes(&cms.uri);
    push_decimal(&mut uri, i as u64 + 1);
    assert(name@ =~= template_name(cms.name@, i as nat));
    ConfigLine { name, uri }
}

/// Fills the whole table with generated config lines, when `data` asks for
/// them; otherwise leaves the account as it is.
pub fn add_comet_config_lines(buf: &mut Vec<u8>, data: &CandyMachineData) -> (r: Result<(), CandyError>)
    requires
        generates_lines(*data) ==> table_wf(old(buf)@, data.items_available as nat),
    ensures
        !generates_lines(*data) ==> r == Ok::<(), CandyError>(()) && final(buf)@ == old(buf)@,
        generates_lines(*data) ==> {
            let cms = data.comet_mint_settings->Some_0;
            let lines = template_lines(cms.name@, cms.uri@, data.items_available as nat);
            &&& r == if lines_fit(lines) {
                Ok::<(), CandyError>(())
            } else {
                Err::<(), CandyError>(CandyError::FieldTooLong)
            }
            &&& r is Ok ==> slots_written(old(buf)@, final(buf)@, data.items_available as nat, 0, lines)
            &&& r is Err ==> final(buf)@ == old(buf)@
            &&& table_wf(final(buf)@, data.items_available as nat)
        },
{
    match &data.comet_mint_settings {
        Some(cms) => {
            if cms.sequel_mint {
                return Ok(());
            }
            let n = data.items_available;
            let ghost lines = template_lines(cms.name@, cms.uri@, n as nat);
            let mut records: Vec<ConfigLine> = Vec::new();
            let mut i: u32 = 0;
            while i < n
                invariant
                    i <= n,
                    lines == template_lines(cms.name@, cms.uri@, n as nat),
                    line_views(records@) == lines.take(i as int),
                    records@.len() == i,
                decreases n - i,
            {
                let line = template_line(cms, i);
                let ghost prev = records@;
                let ghost lv = (line.name@, line.uri@);
                records.push(line);
                proof {
                    assert(records@ == prev.push(line));
                    assert forall|q: int| 0 <= q <= i implies line_views(records@)[q] == lines[q] by {
                        if q < i {
                            assert(records@[q] == prev[q]);
                            assert(line_views(prev)[q] == lines.take(i as int)[q]);
                        }
                    }
                }
                i = i + 1;
                assert(line_views(records@) =~= lines.take(i as int));
            }
            assert(lines.take(n as int) =~= lines);
            write_slots(buf, n, 0, &records)
        },
        None => Ok(()),
    }
}

} // verus!
