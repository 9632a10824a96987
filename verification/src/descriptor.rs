//! HID report descriptor parsing - only enough to find the vendor collections.
use crate::protocol::{RID_CMD, RID_DATA};
use vstd::prelude::*;

verus! {

// ---------------------------------------------------------------------------
// the items of a descriptor
// ---------------------------------------------------------------------------

/// A short item: its type, its tag and its value.
pub struct Item {
    pub kind: u8,
    pub tag: u8,
    pub value: u32,
}

/// How many data bytes a short item announces in its prefix.
pub open spec fn data_size(prefix: u8) -> int {
    if prefix % 4 == 3 {
        4
    } else {
        (prefix % 4) as int
    }
}

/// The `k`-th data byte of the item that `d` starts with: 0 where the item has
/// fewer, or the descriptor ends before it.
pub open spec fn data_byte(d: Seq<u8>, k: int) -> int {
    if k <= data_size(d[0]) && k < d.len() {
        d[k] as int
    } else {
        0
    }
}

/// The short item that `d` starts with; its value is little-endian.
pub open spec fn first_item(d: Seq<u8>) -> Item {
    Item {
        kind: (d[0] / 4 % 4) as u8,
        tag: d[0] / 16,
        value: (data_byte(d, 1) + 0x100 * data_byte(d, 2) + 0x1_0000 * data_byte(d, 3)
            + 0x100_0000 * data_byte(d, 4)) as u32,
    }
}

/// `d` without its first `n` bytes, or what there is to drop of them.
pub open spec fn after(d: Seq<u8>, n: int) -> Seq<u8> {
    if n < d.len() {
        d.skip(n)
    } else {
        Seq::empty()
    }
}

/// The short items of a descriptor, in order. A long item (prefix `0xfe`, data
/// size, tag, data) is passed over; one whose head is cut off ends the list.
pub open spec fn items(d: Seq<u8>) -> Seq<Item>
    decreases d.len(),
{
    if d.len() == 0 {
        Seq::empty()
    } else if d[0] == 0xfe {
        if d.len() <= 2 {
            Seq::empty()
        } else {
            items(after(d, 3 + d[1]))
        }
    } else {
        seq![first_item(d)] + items(after(d, 1 + data_size(d[0])))
    }
}

// ---------------------------------------------------------------------------
// the reports that the items declare
// ---------------------------------------------------------------------------

/// The bytes that a report has in each direction.
pub struct Sizes {
    pub input: nat,
    pub output: nat,
    pub feature: nat,
}

/// What the items read so far have set.
pub struct Declared {
    pub rid: u8,
    pub size: u32,
    pub count: u32,
    pub reports: Seq<(u8, Sizes)>,
}

/// Whole bytes of `count` fields of `size` bits.
pub open spec fn field_bytes(size: u32, count: u32) -> nat {
    ((size * count + 7) / 8) as nat
}

/// The index of the entry for a report id, or the length of the list.
pub open spec fn position(reports: Seq<(u8, Sizes)>, id: u8) -> int
    decreases reports.len(),
{
    if reports.len() == 0 || reports[0].0 == id {
        0
    } else {
        1 + position(reports.drop_first(), id)
    }
}

/// `sizes` with the bytes of an input (tag 8), output (tag 9) or feature item
/// (tag 11) added.
pub open spec fn grown(sizes: Sizes, tag: u8, bytes: nat) -> Sizes {
    if tag == 8 {
        Sizes { input: sizes.input + bytes, ..sizes }
    } else if tag == 9 {
        Sizes { output: sizes.output + bytes, ..sizes }
    } else {
        Sizes { feature: sizes.feature + bytes, ..sizes }
    }
}

/// The list with the bytes of an item added to the entry of its report id,
/// which is appended where there is none.
pub open spec fn with_field(reports: Seq<(u8, Sizes)>, id: u8, tag: u8, bytes: nat) -> Seq<
    (u8, Sizes),
> {
    let at = position(reports, id);
    if at < reports.len() {
        reports.update(at, (id, grown(reports[at].1, tag, bytes)))
    } else {
        reports.push((id, grown(Sizes { input: 0, output: 0, feature: 0 }, tag, bytes)))
    }
}

/// What is declared after one more item. A global item sets the report size
/// (tag 7), the report id (tag 8) or the report count (tag 9); a main item uses
/// up the size and the count.
pub open spec fn declare(state: Declared, item: Item) -> Declared {
    if item.kind == 1 {
        if item.tag == 7 {
            Declared { size: item.value, ..state }
        } else if item.tag == 8 {
            Declared { rid: (item.value % 256) as u8, ..state }
        } else if item.tag == 9 {
            Declared { count: item.value, ..state }
        } else {
            state
        }
    } else if item.kind == 0 {
        Declared {
            rid: state.rid,
            size: 0,
            count: 0,
            reports: if (item.tag == 8 || item.tag == 9 || item.tag == 11) && state.size != 0
                && state.count != 0 {
                with_field(
                    state.reports,
                    state.rid,
                    item.tag,
                    field_bytes(state.size, state.count),
                )
            } else {
                state.reports
            },
        }
    } else {
        state
    }
}

/// What a list of items declares.
pub open spec fn declared(list: Seq<Item>) -> Declared
    decreases list.len(),
{
    if list.len() == 0 {
        Declared { rid: 0, size: 0, count: 0, reports: Seq::empty() }
    } else {
        declare(declared(list.drop_last()), list.last())
    }
}

/// The reports of a descriptor.
pub open spec fn reports_of(desc: Seq<u8>) -> Seq<(u8, Sizes)> {
    declared(items(desc)).reports
}

/// The feature bytes listed for a report id, 0 where it is not listed.
pub open spec fn feature_listed(reports: Seq<(u8, Sizes)>, id: u8) -> nat {
    let at = position(reports, id);
    if at < reports.len() {
        reports[at].1.feature
    } else {
        0
    }
}

/// Whether a list has the two vendor feature reports.
pub open spec fn has_vendor_reports(reports: Seq<(u8, Sizes)>) -> bool {
    feature_listed(reports, RID_CMD) >= 7 && feature_listed(reports, RID_DATA) >= 519
}

/// The sizes of a report, wide enough for the sums of any descriptor.
#[derive(Debug, Clone, Copy, PartialEq, Eq)]
pub struct ReportSizes {
    pub input: u128,
    pub output: u128,
    pub feature: u128,
}

impl View for ReportSizes {
    type V = Sizes;

    open spec fn view(&self) -> Sizes {
        Sizes {
            input: self.input as nat,
            output: self.output as nat,
            feature: self.feature as nat,
        }
    }
}

/// The list behind the executable one.
pub open spec fn list_view(list: Seq<(u8, ReportSizes)>) -> Seq<(u8, Sizes)> {
    list.map_values(|entry: (u8, ReportSizes)| (entry.0, entry.1@))
}

proof fn lemma_position(reports: Seq<(u8, Sizes)>, id: u8)
    ensures
        0 <= position(reports, id) <= reports.len(),
        position(reports, id) < reports.len() ==> reports[position(reports, id)].0 == id,
        forall|k: int| 0 <= k < position(reports, id) ==> (#[trigger] reports[k]).0 != id,
    decreases reports.len(),
{
    if reports.len() != 0 && reports[0].0 != id {
        let rest = reports.drop_first();
        lemma_position(rest, id);
        assert forall|k: int| 0 <= k < position(reports, id) implies (#[trigger] reports[k]).0
            != id by {
            if k > 0 {
                assert(reports[k] == rest[k - 1]);
            }
        }
    }
}

proof fn lemma_position_is(reports: Seq<(u8, Sizes)>, id: u8, at: int)
    requires
        0 <= at <= reports.len(),
        at < reports.len() ==> reports[at].0 == id,
        forall|k: int| 0 <= k < at ==> (#[trigger] reports[k]).0 != id,
    ensures
        position(reports, id) == at,
{
    lemma_position(reports, id);
    let p = position(reports, id);
    if p < at {
        assert(reports[p].0 != id);
    } else if at < p {
        assert(reports[at].0 != id);
    }
}

fn find_report(reports: &Vec<(u8, ReportSizes)>, id: u8) -> (at: usize)
    ensures
        at == position(list_view(reports@), id),
        at <= reports@.len(),
{
    let mut at: usize = 0;
    while at < reports.len() && reports[at].0 != id
        invariant
            at <= reports@.len(),
            forall|k: int| 0 <= k < at ==> (#[trigger] list_view(reports@)[k]).0 != id,
        decreases reports@.len() - at,
    {
        at += 1;
    }
    proof {
        lemma_position_is(list_view(reports@), id, at as int);
    }
    at
}

/// The largest sum that `n` items can declare.
spec fn sums_within(list: Seq<(u8, ReportSizes)>, n: int) -> bool {
    forall|k: int|
        0 <= k < list.len() ==> {
            &&& (#[trigger] list[k]).1.input <= n * 0x2000_0000_0000_0000
            &&& list[k].1.output <= n * 0x2000_0000_0000_0000
            &&& list[k].1.feature <= n * 0x2000_0000_0000_0000
        }
}

fn add_field(reports: &mut Vec<(u8, ReportSizes)>, id: u8, tag: u8, bytes: u64, Ghost(n): Ghost<int>)
    requires
        0 <= n <= 0xffff_ffff_ffff_ffff,
        sums_within(old(reports)@, n),
        bytes <= 0x2000_0000_0000_0000,
    ensures
        list_view(final(reports)@) == with_field(list_view(old(reports)@), id, tag, bytes as nat),
        sums_within(final(reports)@, n + 1),
{
    let at = find_report(reports, id);
    let ghost before = reports@;
    if at == reports.len() {
        reports.push((id, ReportSizes { input: 0, output: 0, feature: 0 }));
    }
    proof {
        assert(sums_within(reports@, n));
        lemma_position(list_view(before), id);
    }
    let mut sizes = reports[at].1;
    if tag == 8 {
        sizes.input = sizes.input + bytes as u128;
    } else if tag == 9 {
        sizes.output = sizes.output + bytes as u128;
    } else {
        sizes.feature = sizes.feature + bytes as u128;
    }
    let ghost middle = reports@;
    reports.set(at, (id, sizes));
    proof {
        assert(reports@ =~= middle.update(at as int, (id, sizes)));
        assert(list_view(reports@) =~= with_field(list_view(before), id, tag, bytes as nat));
    }
}

fn data_byte_at(desc: &[u8], from: usize, size: usize, k: usize) -> (byte: u8)
    requires
        from < desc@.len(),
        k <= 4,
        size == data_size(desc@[from as int]),
    ensures
        byte == data_byte(desc@.skip(from as int), k as int),
{
    if k <= size && k < desc.len() - from {
        desc[from + k]
    } else {
        0
    }
}

/// The reports that a descriptor declares, in the order in which their ids
/// first come up.
pub fn parse_report_descriptor(desc: &[u8]) -> (reports: Vec<(u8, ReportSizes)>)
    ensures
        list_view(reports@) == reports_of(desc@),
{
    let mut reports: Vec<(u8, ReportSizes)> = Vec::new();
    let mut rid: u8 = 0;
    let mut size: u32 = 0;
    let mut count: u32 = 0;
    let mut i: usize = 0;
    let ghost mut read: Seq<Item> = Seq::empty();
    proof {
        assert(desc@.skip(0) =~= desc@);
        assert(read + items(desc@) =~= items(desc@));
        assert(list_view(reports@) =~= Seq::<(u8, Sizes)>::empty());
    }
    while i < desc.len()
        invariant_except_break
            i <= desc@.len(),
            read.len() <= i,
            read + items(desc@.skip(i as int)) == items(desc@),
            declared(read) == (Declared { rid, size, count, reports: list_view(reports@) }),
            sums_within(reports@, read.len() as int),
        ensures
            list_view(reports@) == reports_of(desc@),
        decreases desc@.len() - i,
    {
        let ghost rest = desc@.skip(i as int);
        let prefix = desc[i];
        if prefix == 0xfe {
            // long item: 0xFE, data size, tag, data
            if desc.len() - i <= 2 {
                proof {
                    assert(read + items(rest) =~= read);
                }
                break;
            }
            let step: usize = 3 + desc[i + 1] as usize;
            if step < desc.len() - i {
                i += step;
            } else {
                i = desc.len();
            }
            proof {
                assert(after(rest, step as int) =~= desc@.skip(i as int));
            }
            continue;
        }
        assert((prefix & 0x03) == prefix % 4 && (prefix >> 2) & 0x03 == prefix / 4 % 4 && prefix
            >> 4 == prefix / 16) by (bit_vector);
        let mut bsize: usize = (prefix & 0x03) as usize;
        let btype = (prefix >> 2) & 0x03;
        let btag = prefix >> 4;
        if bsize == 3 {
            bsize = 4;
        }
        let b1 = data_byte_at(desc, i, bsize, 1);
        let b2 = data_byte_at(desc, i, bsize, 2);
        let b3 = data_byte_at(desc, i, bsize, 3);
        let b4 = data_byte_at(desc, i, bsize, 4);
        let val: u32 = b1 as u32 + 0x100 * b2 as u32 + 0x1_0000 * b3 as u32 + 0x100_0000
            * b4 as u32;
        let ghost item = first_item(rest);
        let ghost more = read.push(item);
        proof {
            assert(item.kind == btype && item.tag == btag && item.value == val);
            assert(more.drop_last() =~= read);
            assert(declared(more) == declare(declared(read), item));
        }
        if 1 + bsize < desc.len() - i {
            i += 1 + bsize;
        } else {
            i = desc.len();
        }
        proof {
            assert(after(rest, 1 + bsize as int) =~= desc@.skip(i as int));
            assert(more + items(desc@.skip(i as int)) =~= read + items(rest));
        }
        if btype == 1 {
            if btag == 7 {
                size = val;
            } else if btag == 8 {
                rid = (val % 256) as u8;
            } else if btag == 9 {
                count = val;
            }
        } else if btype == 0 {
            if (btag == 8 || btag == 9 || btag == 11) && size != 0 && count != 0 {
                assert(size * count <= 0xffff_ffff * 0xffff_ffff) by (nonlinear_arith)
                    requires
                        size <= 0xffff_ffff,
                        count <= 0xffff_ffff,
                ;
                let bits: u64 = size as u64 * count as u64;
                let bytes: u64 = (bits + 7) / 8;
                add_field(&mut reports, rid, btag, bytes, Ghost(read.len() as int));
            }
            size = 0;
            count = 0;
        }
        proof {
            read = more;
            assert(sums_within(reports@, read.len() as int));
        }
    }
    reports
}

fn listed_feature(reports: &Vec<(u8, ReportSizes)>, id: u8) -> (bytes: u128)
    ensures
        bytes == feature_listed(list_view(reports@), id),
{
    let at = find_report(reports, id);
    if at < reports.len() {
        reports[at].1.feature
    } else {
        0
    }
}

/// Vendor collections: feature report id 5 of 7 bytes and id 8 of 519 bytes.
pub fn is_control_interface(reports: &Vec<(u8, ReportSizes)>) -> (yes: bool)
    ensures
        yes == has_vendor_reports(list_view(reports@)),
{
    listed_feature(reports, RID_CMD) >= 7 && listed_feature(reports, RID_DATA) >= 519
}

// ---------------------------------------------------------------------------
// laws
// ---------------------------------------------------------------------------

/// The feature bytes that a list of items declares for a report id: the sum
/// over its feature items.
pub open spec fn feature_total(list: Seq<Item>, id: u8) -> nat
    decreases list.len(),
{
    if list.len() == 0 {
        0
    } else {
        let before = declared(list.drop_last());
        feature_total(list.drop_last(), id) + if list.last().kind == 0 && list.last().tag == 11
            && before.rid == id {
            field_bytes(before.size, before.count)
        } else {
            0
        }
    }
}

proof fn lemma_with_field(reports: Seq<(u8, Sizes)>, rid: u8, tag: u8, bytes: nat, id: u8)
    requires
        tag == 8 || tag == 9 || tag == 11,
    ensures
        feature_listed(with_field(reports, rid, tag, bytes), id) == feature_listed(reports, id)
            + if tag == 11 && rid == id {
            bytes
        } else {
            0
        },
{
    lemma_position(reports, rid);
    lemma_position(reports, id);
    let next = with_field(reports, rid, tag, bytes);
    let at = position(reports, rid);
    let p = position(reports, id);
    if p < reports.len() || rid != id {
        if p == reports.len() && at == reports.len() {
            lemma_position_is(next, id, next.len() as int);
        } else {
            lemma_position_is(next, id, p);
        }
    } else {
        lemma_position_is(next, id, p);
    }
}

/// The feature bytes listed for a report id are the sum over all the feature
/// items that the descriptor declares for it.
pub proof fn law_listed_feature_is_the_total(list: Seq<Item>, id: u8)
    ensures
        feature_listed(declared(list).reports, id) == feature_total(list, id),
    decreases list.len(),
{
    if list.len() > 0 {
        let before = declared(list.drop_last());
        let item = list.last();
        law_listed_feature_is_the_total(list.drop_last(), id);
        if item.kind == 0 && (item.tag == 8 || item.tag == 9 || item.tag == 11) && before.size != 0
            && before.count != 0 {
            lemma_with_field(
                before.reports,
                before.rid,
                item.tag,
                field_bytes(before.size, before.count),
                id,
            );
        } else if item.kind == 0 && item.tag == 11 {
            assert(before.size * before.count == 0) by (nonlinear_arith)
                requires
                    before.size == 0 || before.count == 0,
            ;
        }
    }
}

/// A descriptor is that of the control interface exactly if it declares at
/// least 7 feature bytes for the command report and 519 for the data report.
pub proof fn law_control_interface_by_totals(desc: Seq<u8>)
    ensures
        has_vendor_reports(reports_of(desc)) <==> feature_total(items(desc), RID_CMD) >= 7
            && feature_total(items(desc), RID_DATA) >= 519,
{
    law_listed_feature_is_the_total(items(desc), RID_CMD);
    law_listed_feature_is_the_total(items(desc), RID_DATA);
}

/// No report id is listed twice.
pub proof fn law_each_report_is_listed_once(list: Seq<Item>, i: int, j: int)
    requires
        0 <= i < j < declared(list).reports.len(),
    ensures
        declared(list).reports[i].0 != declared(list).reports[j].0,
    decreases list.len(),
{
    if list.len() > 0 {
        let before = declared(list.drop_last());
        lemma_position(before.reports, before.rid);
        if j < before.reports.len() {
            law_each_report_is_listed_once(list.drop_last(), i, j);
        }
    }
}

// ---------------------------------------------------------------------------
// the items by their bytes
// ---------------------------------------------------------------------------

/// The number that up to four bytes write, the least significant one first.
pub open spec fn little_endian(bytes: Seq<u8>) -> nat
    decreases bytes.len(),
{
    if bytes.len() == 0 {
        0
    } else {
        bytes[0] as nat + 256 * little_endian(bytes.drop_first())
    }
}

/// A short item is read by its bytes: the low two bits of the prefix say how many
/// data bytes follow (three stands for four), the next two are the type and the
/// high four the tag. Its value is what the data bytes write, the least
/// significant first, and the items after it are those of the bytes after it.
pub proof fn law_a_short_item_is_its_bytes(prefix: u8, data: Seq<u8>, rest: Seq<u8>)
    requires
        prefix != 0xfe,
        data.len() == if prefix % 4 == 3 {
            4
        } else {
            (prefix % 4) as int
        },
    ensures
        ({
            let list = items(seq![prefix] + data + rest);
            &&& list.len() == 1 + items(rest).len()
            &&& list[0].kind == prefix / 4 % 4
            &&& list[0].tag == prefix / 16
            &&& list[0].value == little_endian(data)
            &&& list.skip(1) == items(rest)
        }),
{
    reveal_with_fuel(little_endian, 5);
    let d = seq![prefix] + data + rest;
    let n = data_size(prefix);
    assert(d[0] == prefix);
    assert forall|k: int| 1 <= k <= 4 implies #[trigger] data_byte(d, k) == (if k <= n {
        data[k - 1] as int
    } else {
        0
    }) by {}
    assert(data_byte(d, 1) >= 0 && data_byte(d, 2) >= 0 && data_byte(d, 3) >= 0 && data_byte(d, 4)
        >= 0);
    assert(after(d, 1 + n) =~= rest);
    assert(items(d) == seq![first_item(d)] + items(rest));
    assert(items(d).skip(1) =~= items(rest));
}

/// A descriptor that ends inside a short item gives it with the missing bytes 0.
pub proof fn law_a_short_item_cut_off_is_filled_with_zeros(prefix: u8, data: Seq<u8>)
    requires
        prefix != 0xfe,
        data.len() < if prefix % 4 == 3 {
            4
        } else {
            (prefix % 4) as int
        },
    ensures
        ({
            let list = items(seq![prefix] + data);
            &&& list.len() == 1
            &&& list[0].kind == prefix / 4 % 4
            &&& list[0].tag == prefix / 16
            &&& list[0].value == little_endian(data)
        }),
{
    reveal_with_fuel(little_endian, 5);
    let d = seq![prefix] + data;
    let n = data_size(prefix);
    assert(d[0] == prefix);
    assert forall|k: int| 1 <= k <= 4 implies #[trigger] data_byte(d, k) == (if k <= data.len() {
        data[k - 1] as int
    } else {
        0
    }) by {}
    assert(data_byte(d, 1) >= 0 && data_byte(d, 2) >= 0 && data_byte(d, 3) >= 0 && data_byte(d, 4)
        >= 0);
    assert(after(d, 1 + n) =~= Seq::<u8>::empty());
    assert(items(d) == seq![first_item(d)] + items(Seq::empty()));
}

/// A long item, with its data size and tag behind the prefix, is passed over; one
/// that is cut off ends the list.
pub proof fn law_a_long_item_is_passed_over(tag: u8, data: Seq<u8>, rest: Seq<u8>, size: u8)
    ensures
        data.len() == size ==> items(seq![0xfeu8, size, tag] + data + rest) == items(rest),
        data.len() <= size ==> items(seq![0xfeu8, size, tag] + data) == Seq::<Item>::empty(),
        items(seq![0xfeu8, size]) == Seq::<Item>::empty(),
        items(seq![0xfeu8]) == Seq::<Item>::empty(),
        items(Seq::empty()) == Seq::<Item>::empty(),
{
    let d = seq![0xfeu8, size, tag] + data + rest;
    let e = seq![0xfeu8, size, tag] + data;
    assert(d[0] == 0xfe && d[1] == size);
    assert(e[0] == 0xfe && e[1] == size);
    if data.len() == size {
        assert(after(d, 3 + size) =~= rest);
    }
    if data.len() <= size {
        assert(after(e, 3 + size) =~= Seq::<u8>::empty());
        reveal_with_fuel(items, 2);
    }
}

// ---------------------------------------------------------------------------
// the reports by the items
// ---------------------------------------------------------------------------

/// Whether an item is a global one with the given tag.
pub open spec fn is_global(item: Item, tag: u8) -> bool {
    item.kind == 1 && item.tag == tag
}

/// The report id in force after a list of items is the value of its last Report
/// ID item, cut to a byte, and 0 where there is none: no other item changes it.
pub proof fn law_the_last_report_id_is_in_force(list: Seq<Item>, last: int)
    requires
        -1 <= last < list.len(),
        last >= 0 ==> is_global(list[last], 8),
        forall|i: int| last < i < list.len() ==> !is_global(#[trigger] list[i], 8),
    ensures
        declared(list).rid == if last >= 0 {
            list[last].value % 256
        } else {
            0
        },
    decreases list.len(),
{
    if list.len() > 0 {
        let fewer = list.drop_last();
        if last < list.len() - 1 {
            assert(!is_global(list[list.len() - 1], 8));
            law_the_last_report_id_is_in_force(fewer, last);
        }
    }
}

/// The value of the last global item with a tag, 0 where there is none.
pub open spec fn last_value(list: Seq<Item>, tag: u8) -> u32
    decreases list.len(),
{
    if list.len() == 0 {
        0
    } else if is_global(list.last(), tag) {
        list.last().value
    } else {
        last_value(list.drop_last(), tag)
    }
}

/// The value of the last global item with a tag since the last main item, 0 where
/// there is none.
pub open spec fn fresh_value(list: Seq<Item>, tag: u8) -> u32
    decreases list.len(),
{
    if list.len() == 0 || list.last().kind == 0 {
        0
    } else if is_global(list.last(), tag) {
        list.last().value
    } else {
        fresh_value(list.drop_last(), tag)
    }
}

/// The bytes that the main items with a tag declare for a report id: each one
/// declares its fields in whole bytes.
pub open spec fn bytes_declared(list: Seq<Item>, id: u8, tag: u8) -> nat
    decreases list.len(),
{
    if list.len() == 0 {
        0
    } else {
        let fewer = list.drop_last();
        bytes_declared(fewer, id, tag) + if list.last().kind == 0 && list.last().tag == tag
            && last_value(fewer, 8) % 256 == id {
            ((fresh_value(fewer, 7) * fresh_value(fewer, 9) + 7) / 8) as nat
        } else {
            0
        }
    }
}

proof fn lemma_in_force(list: Seq<Item>)
    ensures
        declared(list).rid == last_value(list, 8) % 256,
        declared(list).size == fresh_value(list, 7),
        declared(list).count == fresh_value(list, 9),
    decreases list.len(),
{
    if list.len() > 0 {
        lemma_in_force(list.drop_last());
    }
}

proof fn lemma_fresh_value(list: Seq<Item>, tag: u8, main: int, last: int)
    requires
        -1 <= main < list.len(),
        main >= 0 ==> list[main].kind == 0,
        forall|i: int| main < i < list.len() ==> (#[trigger] list[i]).kind != 0,
        last == -1 || main < last < list.len() && is_global(list[last], tag),
        forall|i: int| main < i < list.len() && last < i ==> !is_global(#[trigger] list[i], tag),
    ensures
        fresh_value(list, tag) == if last >= 0 {
            list[last].value
        } else {
            0
        },
    decreases list.len(),
{
    if list.len() > 0 && main < list.len() - 1 {
        assert(list[list.len() - 1].kind != 0);
        if last < list.len() - 1 {
            assert(!is_global(list[list.len() - 1], tag));
            lemma_fresh_value(list.drop_last(), tag, main, last);
        }
    }
}

/// The report size and the report count in force are the values of the last Report
/// Size and Report Count items behind the last main item, and 0 where there is
/// none: a main item uses them up, and no other item changes them.
pub proof fn law_size_and_count_last_until_a_main_item(
    list: Seq<Item>,
    main: int,
    size: int,
    count: int,
)
    requires
        -1 <= main < list.len(),
        main >= 0 ==> list[main].kind == 0,
        forall|i: int| main < i < list.len() ==> (#[trigger] list[i]).kind != 0,
        size == -1 || main < size < list.len() && is_global(list[size], 7),
        forall|i: int| main < i < list.len() && size < i ==> !is_global(#[trigger] list[i], 7),
        count == -1 || main < count < list.len() && is_global(list[count], 9),
        forall|i: int| main < i < list.len() && count < i ==> !is_global(#[trigger] list[i], 9),
    ensures
        declared(list).size == if size >= 0 {
            list[size].value
        } else {
            0
        },
        declared(list).count == if count >= 0 {
            list[count].value
        } else {
            0
        },
{
    lemma_in_force(list);
    lemma_fresh_value(list, 7, main, size);
    lemma_fresh_value(list, 9, main, count);
}

/// The bytes that an entry has for a tag.
pub open spec fn entry_bytes(sizes: Sizes, tag: u8) -> nat {
    if tag == 8 {
        sizes.input
    } else if tag == 9 {
        sizes.output
    } else {
        sizes.feature
    }
}

/// The entry of a report id has the bytes that the input (tag 8), output (tag 9)
/// and feature items (tag 11) declare for it, and an id without an entry has
/// none declared.
pub proof fn law_an_entry_has_the_bytes_declared(list: Seq<Item>, id: u8, tag: u8)
    requires
        tag == 8 || tag == 9 || tag == 11,
    ensures
        forall|k: int|
            0 <= k < declared(list).reports.len() && (#[trigger] declared(list).reports[k]).0 == id
                ==> entry_bytes(declared(list).reports[k].1, tag) == bytes_declared(list, id, tag),
        (forall|k: int|
            0 <= k < declared(list).reports.len() ==> (#[trigger] declared(list).reports[k]).0
                != id) ==> bytes_declared(list, id, tag) == 0,
    decreases list.len(),
{
    if list.len() > 0 {
        let fewer = list.drop_last();
        let before = declared(fewer);
        let item = list.last();
        let old_reports = before.reports;
        let reports = declared(list).reports;
        law_an_entry_has_the_bytes_declared(fewer, id, tag);
        lemma_in_force(fewer);
        lemma_position(old_reports, before.rid);
        let fields = field_bytes(before.size, before.count);
        if item.kind == 0 && (item.tag == 8 || item.tag == 9 || item.tag == 11) && before.size != 0
            && before.count != 0 {
            let at = position(old_reports, before.rid);
            assert(reports == with_field(old_reports, before.rid, item.tag, fields));
            assert forall|k: int|
                0 <= k < reports.len() && (#[trigger] reports[k]).0 == id implies entry_bytes(
                reports[k].1,
                tag,
            ) == bytes_declared(list, id, tag) by {
                if k < old_reports.len() {
                    assert(old_reports[k].0 == id);
                    if k != at && before.rid == id {
                        if at < old_reports.len() {
                            law_each_report_is_listed_once(
                                fewer,
                                if k < at {
                                    k
                                } else {
                                    at
                                },
                                if k < at {
                                    at
                                } else {
                                    k
                                },
                            );
                        }
                    }
                }
            }
            if forall|k: int| 0 <= k < reports.len() ==> (#[trigger] reports[k]).0 != id {
                assert forall|k: int| 0 <= k < old_reports.len() implies (
                #[trigger] old_reports[k]).0 != id by {
                    assert(reports[k].0 != id);
                }
                assert(reports[at].0 == before.rid);
            }
        } else {
            if item.kind == 0 && item.tag == tag {
                assert(before.size * before.count == 0) by (nonlinear_arith)
                    requires
                        before.size == 0 || before.count == 0,
                ;
            }
        }
    }
}

/// A descriptor is that of the control interface exactly if its feature items
/// declare at least 7 bytes for report id 5 and at least 519 for report id 8.
pub proof fn law_the_control_interface_has_two_feature_reports(desc: Seq<u8>)
    ensures
        has_vendor_reports(reports_of(desc)) <==> bytes_declared(items(desc), 5, 11) >= 7
            && bytes_declared(items(desc), 8, 11) >= 519,
{
    let reports = reports_of(desc);
    lemma_position(reports, RID_CMD);
    lemma_position(reports, RID_DATA);
    law_an_entry_has_the_bytes_declared(items(desc), RID_CMD, 11);
    law_an_entry_has_the_bytes_declared(items(desc), RID_DATA, 11);
}

} // verus!
