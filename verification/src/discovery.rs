//! Finding the hidraw node that carries the vendor control reports.
use crate::descriptor::{is_control_interface, parse_report_descriptor};
use crate::protocol::{Error, KNOWN_PIDS, VENDOR};
use crate::text::{
    after_prefix, chars_of, digit_of, parse_number, slice_of, split_at_char, split_lines, trimmed,
};
use vstd::prelude::*;

verus! {

// ---------------------------------------------------------------------------
// node names
// ---------------------------------------------------------------------------

/// The digits that a text ends with.
pub open spec fn digit_suffix(s: Seq<char>) -> Seq<char>
    decreases s.len(),
{
    if s.len() > 0 && crate::text::is_digit(s.last(), 10) {
        digit_suffix(s.drop_last()).push(s.last())
    } else {
        Seq::empty()
    }
}

/// The number at the end of a node path; 0 where there is none, or none that
/// fits 32 bits.
pub open spec fn node_number(path: Seq<char>) -> nat {
    match crate::text::read_number(digit_suffix(path), 10, 0xffff_ffff) {
        Some(n) => n,
        None => 0,
    }
}

proof fn lemma_digit_suffix(s: Seq<char>, from: int)
    requires
        0 <= from <= s.len(),
        forall|i: int| from <= i < s.len() ==> crate::text::is_digit(#[trigger] s[i], 10),
        from > 0 ==> !crate::text::is_digit(s[from - 1], 10),
    ensures
        digit_suffix(s) == s.skip(from),
    decreases s.len(),
{
    if from < s.len() {
        lemma_digit_suffix(s.drop_last(), from);
        assert(s.drop_last().skip(from).push(s.last()) =~= s.skip(from));
    } else {
        assert(s.skip(from) =~= Seq::<char>::empty());
    }
}

/// The number at the end of a node path.
pub fn node_index(path: &str) -> (index: u32)
    ensures
        index == node_number(path@),
{
    let chars = chars_of(path);
    let mut from: usize = chars.len();
    while from > 0 && digit_of(chars[from - 1], 10).is_some()
        invariant
            from <= chars@.len(),
            forall|i: int|
                from <= i < chars@.len() ==> crate::text::is_digit(#[trigger] chars@[i], 10),
        decreases from,
    {
        from -= 1;
    }
    let digits = slice_of(&chars, from, chars.len());
    proof {
        lemma_digit_suffix(chars@, from as int);
        assert(digits@ =~= chars@.skip(from as int));
    }
    match parse_number(&digits, 10, 0xffff_ffff) {
        Some(n) => n,
        None => 0,
    }
}

/// Whether a name in `/dev` is that of a hidraw node: `hidraw` and a number.
pub open spec fn is_hidraw_name(name: Seq<char>) -> bool {
    &&& crate::text::has_prefix(name, "hidraw"@)
    &&& name.len() > "hidraw"@.len()
    &&& crate::text::all_digits(name.skip("hidraw"@.len() as int), 10)
}

/// The paths of the hidraw nodes among the names in `/dev`.
pub open spec fn hidraw_paths(names: Seq<Seq<char>>) -> Seq<Seq<char>>
    decreases names.len(),
{
    if names.len() == 0 {
        Seq::empty()
    } else if is_hidraw_name(names.last()) {
        hidraw_paths(names.drop_last()).push("/dev/"@ + names.last())
    } else {
        hidraw_paths(names.drop_last())
    }
}

/// The paths that end with a number, in the order in which they stand.
pub open spec fn with_number(paths: Seq<Seq<char>>, number: nat) -> Seq<Seq<char>> {
    paths.filter(|path: Seq<char>| node_number(path) == number)
}

/// Whether the paths stand in the order of their numbers.
pub open spec fn in_order(paths: Seq<Seq<char>>) -> bool {
    forall|i: int, j: int|
        0 <= i < j < paths.len() ==> node_number(#[trigger] paths[i]) <= node_number(
            #[trigger] paths[j],
        )
}

fn is_hidraw(name: &String) -> (yes: bool)
    ensures
        yes == is_hidraw_name(name@),
{
    let chars = chars_of(name.as_str());
    match after_prefix(&chars, "hidraw") {
        None => false,
        Some(digits) => {
            if digits.len() == 0 {
                return false;
            }
            let mut i: usize = 0;
            while i < digits.len()
                invariant
                    i <= digits@.len(),
                    digits@ == name@.skip("hidraw"@.len() as int),
                    forall|k: int|
                        0 <= k < i ==> crate::text::is_digit(#[trigger] digits@[k], 10),
                decreases digits@.len() - i,
            {
                if digit_of(digits[i], 10).is_none() {
                    return false;
                }
                i += 1;
            }
            true
        },
    }
}

proof fn lemma_with_number_push(paths: Seq<Seq<char>>, path: Seq<char>, number: nat)
    ensures
        with_number(paths.push(path), number) == (if node_number(path) == number {
            with_number(paths, number).push(path)
        } else {
            with_number(paths, number)
        }),
{
    reveal(Seq::filter);
    assert(paths.push(path).drop_last() =~= paths);
}

proof fn lemma_none_with_number(paths: Seq<Seq<char>>, number: nat)
    requires
        forall|i: int| 0 <= i < paths.len() ==> node_number(#[trigger] paths[i]) != number,
    ensures
        with_number(paths, number) == Seq::<Seq<char>>::empty(),
    decreases paths.len(),
{
    reveal(Seq::filter);
    if paths.len() > 0 {
        lemma_none_with_number(paths.drop_last(), number);
    } else {
        assert(paths =~= Seq::<Seq<char>>::empty());
    }
}

/// Inserting a path behind the last one with no larger number appends it to
/// those with its number.
proof fn lemma_with_number_insert(paths: Seq<Seq<char>>, at: int, path: Seq<char>, number: nat)
    requires
        0 <= at <= paths.len(),
        forall|i: int|
            at <= i < paths.len() ==> node_number(#[trigger] paths[i]) > node_number(path),
    ensures
        with_number(paths.insert(at, path), number) == with_number(paths.push(path), number),
{
    let head = paths.take(at);
    let tail = paths.skip(at);
    let wanted = |p: Seq<char>| node_number(p) == number;
    assert(paths.insert(at, path) =~= head.push(path) + tail);
    assert(paths =~= head + tail);
    Seq::filter_distributes_over_add(head.push(path), tail, wanted);
    Seq::filter_distributes_over_add(head, tail, wanted);
    lemma_with_number_push(head, path, number);
    lemma_with_number_push(paths, path, number);
    if node_number(path) == number {
        lemma_none_with_number(tail, number);
        assert(with_number(head, number).push(path) + Seq::<Seq<char>>::empty() =~= with_number(
            head,
            number,
        ).push(path));
        assert(with_number(head, number) + Seq::<Seq<char>>::empty() =~= with_number(
            head,
            number,
        ));
    }
}

/// The paths of the hidraw nodes among the names in `/dev`, in the order of
/// their numbers; those with equal numbers keep the order of their names.
pub fn hidraw_nodes(names: &Vec<String>) -> (nodes: Vec<String>)
    ensures
        in_order(crate::text::views(nodes@)),
        forall|number: nat| #[trigger]
            with_number(crate::text::views(nodes@), number) == with_number(
                hidraw_paths(crate::text::views(names@)),
                number,
            ),
{
    let mut nodes: Vec<String> = Vec::new();
    let mut i: usize = 0;
    let ghost all = crate::text::views(names@);
    proof {
        assert(crate::text::views(nodes@) =~= Seq::<Seq<char>>::empty());
        assert(all.take(0) =~= Seq::<Seq<char>>::empty());
    }
    while i < names.len()
        invariant
            i <= names@.len(),
            all == crate::text::views(names@),
            in_order(crate::text::views(nodes@)),
            forall|number: nat| #[trigger]
                with_number(crate::text::views(nodes@), number) == with_number(
                    hidraw_paths(all.take(i as int)),
                    number,
                ),
        decreases names@.len() - i,
    {
        proof {
            assert(all.take(i as int + 1).drop_last() =~= all.take(i as int));
            assert(all.take(i as int + 1).last() == names@[i as int]@);
        }
        if is_hidraw(&names[i]) {
            let mut path = String::new();
            path.append("/dev/");
            path.append(names[i].as_str());
            let index = node_index(path.as_str());
            let ghost before = crate::text::views(nodes@);
            let mut at: usize = nodes.len();
            while at > 0 && node_index(nodes[at - 1].as_str()) > index
                invariant
                    at <= nodes@.len(),
                    before == crate::text::views(nodes@),
                    index == node_number(path@),
                    forall|k: int|
                        at <= k < before.len() ==> node_number(#[trigger] before[k])
                            > node_number(path@),
                decreases at,
            {
                proof {
                    assert(before[at - 1] == nodes@[at - 1]@);
                }
                at -= 1;
            }
            let ghost added = path@;
            proof {
                assert(added =~= "/dev/"@ + names@[i as int]@);
                if at > 0 {
                    assert(before[at - 1] == nodes@[at - 1]@);
                }
            }
            nodes.insert(at, path);
            proof {
                let now = crate::text::views(nodes@);
                let paths = hidraw_paths(all.take(i as int));
                assert(now =~= before.insert(at as int, added));
                assert forall|a: int, b: int| 0 <= a < b < now.len() implies node_number(
                    #[trigger] now[a],
                ) <= node_number(#[trigger] now[b]) by {
                    let below = |k: int|
                        if k < at {
                            k
                        } else {
                            k - 1
                        };
                    if a != at && b != at {
                        assert(now[a] == before[below(a)]);
                        assert(now[b] == before[below(b)]);
                    } else if a == at {
                        assert(now[b] == before[b - 1]);
                    } else {
                        assert(now[a] == before[a]);
                        if a < at - 1 {
                            assert(node_number(before[a]) <= node_number(before[at - 1]));
                        }
                    }
                }
                assert forall|number: nat| #[trigger]
                    with_number(now, number) == with_number(paths.push(added), number) by {
                    lemma_with_number_insert(before, at as int, added, number);
                    lemma_with_number_push(before, added, number);
                    lemma_with_number_push(paths, added, number);
                    assert(with_number(before, number) == with_number(paths, number));
                }
            }
        }
        i += 1;
    }
    proof {
        assert(all.take(i as int) =~= all);
    }
    nodes
}

// ---------------------------------------------------------------------------
// identifiers
// ---------------------------------------------------------------------------

/// The 16-bit number that a text writes in hexadecimal, with an optional plus
/// sign.
pub open spec fn hex_id(s: Seq<char>) -> Option<nat> {
    if s.len() > 0 && s[0] == '+' {
        crate::text::read_number(s.drop_first(), 16, 0xffff)
    } else {
        crate::text::read_number(s, 16, 0xffff)
    }
}

/// The vendor and product id in `bus:vendor:product`.
pub open spec fn ids_in(s: Seq<char>) -> Option<(u16, u16)> {
    let parts = crate::text::split(crate::text::trim(s), ':');
    if parts.len() >= 3 && hex_id(parts[1]) is Some && hex_id(parts[2]) is Some {
        Some((hex_id(parts[1])->0 as u16, hex_id(parts[2])->0 as u16))
    } else {
        None
    }
}

/// The ids in the first `HID_ID=` line.
pub open spec fn ids_of_lines(lines: Seq<Seq<char>>) -> Option<(u16, u16)>
    decreases lines.len(),
{
    if lines.len() == 0 {
        None
    } else if crate::text::has_prefix(lines[0], "HID_ID="@) {
        ids_in(lines[0].skip("HID_ID="@.len() as int))
    } else {
        ids_of_lines(lines.drop_first())
    }
}

/// The vendor and product id that a `uevent` attribute names.
pub open spec fn ids_of(uevent: Seq<char>) -> Option<(u16, u16)> {
    ids_of_lines(crate::text::lines(uevent))
}

fn parse_hex_id(part: &Vec<char>) -> (id: Option<u16>)
    ensures
        match id {
            Some(v) => hex_id(part@) == Some(v as nat),
            None => hex_id(part@) is None,
        },
{
    let value = if part.len() > 0 && part[0] == '+' {
        let digits = slice_of(part, 1, part.len());
        proof {
            assert(digits@ =~= part@.drop_first());
        }
        parse_number(&digits, 16, 0xffff)
    } else {
        parse_number(part, 16, 0xffff)
    };
    match value {
        Some(v) => Some(v as u16),
        None => None,
    }
}

fn parse_ids(text: &Vec<char>) -> (ids: Option<(u16, u16)>)
    ensures
        ids == ids_in(text@),
{
    let parts = split_at_char(&trimmed(text), ':');
    let ghost views = parts@.map_values(|part: Vec<char>| part@);
    if parts.len() < 3 {
        return None;
    }
    proof {
        assert(views[1] == parts@[1]@ && views[2] == parts@[2]@);
    }
    match (parse_hex_id(&parts[1]), parse_hex_id(&parts[2])) {
        (Some(vid), Some(pid)) => Some((vid, pid)),
        _ => None,
    }
}

/// The vendor and product id in the text of a node's `uevent` attribute.
pub fn hid_ids(uevent: &str) -> (ids: Option<(u16, u16)>)
    ensures
        ids == ids_of(uevent@),
{
    let list = split_lines(&chars_of(uevent));
    let ghost views = list@.map_values(|line: Vec<char>| line@);
    let mut i: usize = 0;
    proof {
        assert(views.skip(0) =~= views);
    }
    while i < list.len()
        invariant
            i <= list@.len(),
            views == list@.map_values(|line: Vec<char>| line@),
            views == crate::text::lines(uevent@),
            ids_of_lines(views.skip(i as int)) == ids_of_lines(views),
        decreases list@.len() - i,
    {
        proof {
            assert(views.skip(i as int)[0] == list@[i as int]@);
            assert(views.skip(i as int).drop_first() =~= views.skip(i as int + 1));
        }
        match after_prefix(&list[i], "HID_ID=") {
            Some(rest) => {
                return parse_ids(&rest);
            },
            None => {},
        }
        i += 1;
    }
    None
}

// ---------------------------------------------------------------------------
// the control node
// ---------------------------------------------------------------------------

/// A hidraw node and the attributes that could be read of it.
pub struct Node {
    pub path: String,
    pub uevent: Option<String>,
    pub descriptor: Option<Vec<u8>>,
}

/// The product id of a node that carries the vendor control reports; `None`
/// for any other node.
pub open spec fn control_pid(node: Node) -> Option<u16> {
    match (node.uevent, node.descriptor) {
        (Some(uevent), Some(descriptor)) => match ids_of(uevent@) {
            Some((vid, pid)) => if vid == VENDOR && crate::descriptor::has_vendor_reports(
                crate::descriptor::reports_of(descriptor@),
            ) {
                Some(pid)
            } else {
                None
            },
            None => None,
        },
        _ => None,
    }
}

/// Whether a product id is one of the known ones.
pub open spec fn is_known(pid: u16) -> bool {
    pid == KNOWN_PIDS@[0] || pid == KNOWN_PIDS@[1]
}

/// Whether a node is a control node with a known product id.
pub open spec fn is_known_control(node: Node) -> bool {
    control_pid(node) matches Some(pid) && is_known(pid)
}

/// Whether the node at `i` is the one to use: the first control node with a
/// known product id or, where there is none, the first control node.
pub open spec fn is_choice(nodes: Seq<Node>, i: int) -> bool {
    &&& 0 <= i < nodes.len()
    &&& control_pid(nodes[i]) is Some
    &&& if is_known_control(nodes[i]) {
        forall|j: int| 0 <= j < i ==> !is_known_control(#[trigger] nodes[j])
    } else {
        &&& forall|j: int| 0 <= j < nodes.len() ==> !is_known_control(#[trigger] nodes[j])
        &&& forall|j: int| 0 <= j < i ==> control_pid(#[trigger] nodes[j]) is None
    }
}

fn control_pid_of(node: &Node) -> (pid: Option<u16>)
    ensures
        pid == control_pid(*node),
{
    match (&node.uevent, &node.descriptor) {
        (Some(uevent), Some(descriptor)) => {
            match hid_ids(uevent.as_str()) {
                Some((vid, pid)) => {
                    if vid == VENDOR && is_control_interface(
                        &parse_report_descriptor(descriptor.as_slice()),
                    ) {
                        Some(pid)
                    } else {
                        None
                    }
                },
                None => None,
            }
        },
        _ => None,
    }
}

/// Pick the node carrying the vendor control reports.
///
/// Matching only VID/PID is not enough: interface 0 of the same mouse has no
/// vendor collections, and other hidraw nodes belong to unrelated devices.
pub fn find_control_node(nodes: &Vec<Node>) -> (found: Result<(String, u16), Error>)
    ensures
        match found {
            Ok((path, pid)) => exists|i: int| #[trigger]
                is_choice(nodes@, i) && path == nodes@[i].path && control_pid(nodes@[i]) == Some(
                    pid,
                ),
            Err(e) => e == Error::NoDevice && forall|i: int|
                0 <= i < nodes@.len() ==> control_pid(#[trigger] nodes@[i]) is None,
        },
{
    let mut fallback: Option<(usize, u16)> = None;
    let mut i: usize = 0;
    while i < nodes.len()
        invariant
            i <= nodes@.len(),
            forall|j: int| 0 <= j < i ==> !is_known_control(#[trigger] nodes@[j]),
            match fallback {
                Some((k, pid)) => k < i && control_pid(nodes@[k as int]) == Some(pid) && forall|
                    j: int,
                |
                    0 <= j < k ==> control_pid(#[trigger] nodes@[j]) is None,
                None => forall|j: int| 0 <= j < i ==> control_pid(#[trigger] nodes@[j]) is None,
            },
        decreases nodes@.len() - i,
    {
        match control_pid_of(&nodes[i]) {
            Some(pid) => {
                if pid == KNOWN_PIDS[0] || pid == KNOWN_PIDS[1] {
                    proof {
                        assert(is_choice(nodes@, i as int));
                    }
                    return Ok((nodes[i].path.clone(), pid));
                }
                if fallback.is_none() {
                    fallback = Some((i, pid));
                }
            },
            None => {},
        }
        i += 1;
    }
    match fallback {
        Some((k, pid)) => {
            proof {
                assert(is_choice(nodes@, k as int));
            }
            Ok((nodes[k].path.clone(), pid))
        },
        None => Err(Error::NoDevice),
    }
}

/// There is at most one node to use.
pub proof fn law_choice_is_unique(nodes: Seq<Node>, i: int, j: int)
    requires
        is_choice(nodes, i),
        is_choice(nodes, j),
    ensures
        i == j,
{
}

/// The node with number `n` is found under that number.
pub proof fn law_node_number_reads_back(n: nat)
    requires
        n <= 0xffff_ffff,
    ensures
        is_hidraw_name("hidraw"@ + crate::text::decimal(n)),
        node_number("/dev/"@ + ("hidraw"@ + crate::text::decimal(n))) == n,
{
    let digits = crate::text::decimal(n);
    let name = "hidraw"@ + digits;
    let path = "/dev/"@ + name;
    reveal_strlit("hidraw");
    reveal_strlit("/dev/");
    crate::text::law_decimal_reads_back(n);
    assert(name.take("hidraw"@.len() as int) =~= "hidraw"@);
    assert(name.skip("hidraw"@.len() as int) =~= digits);
    assert(path[10] == 'w');
    assert forall|i: int| 11 <= i < path.len() implies crate::text::is_digit(
        #[trigger] path[i],
        10,
    ) by {
        assert(path[i] == digits[i - 11]);
    }
    lemma_digit_suffix(path, 11);
    assert(path.skip(11) =~= digits);
}

/// A hidraw node is named `hidraw` and one or more decimal digits, and by nothing
/// else.
pub proof fn law_a_node_is_named_by_its_number(name: Seq<char>, digits: Seq<char>)
    ensures
        is_hidraw_name("hidraw"@ + digits) <==> digits.len() > 0 && forall|i: int|
            0 <= i < digits.len() ==> '0' <= #[trigger] digits[i] <= '9',
        is_hidraw_name(name) ==> name.len() > 6 && name == "hidraw"@ + name.skip(6),
{
    reveal_strlit("hidraw");
    let whole = "hidraw"@ + digits;
    assert(whole.take(6) =~= "hidraw"@);
    assert(whole.skip(6) =~= digits);
    if is_hidraw_name(name) {
        assert(name =~= name.take(6) + name.skip(6));
    }
    if crate::text::all_digits(digits, 10) {
        assert forall|i: int| 0 <= i < digits.len() implies '0' <= #[trigger] digits[i] <= '9' by {
            assert(crate::text::is_digit(digits[i], 10));
        }
    }
}

/// A path that ends in digits has the number that they write, if it fits 32 bits;
/// any other path has number 0.
pub proof fn law_a_path_has_the_number_at_its_end(head: Seq<char>, digits: Seq<char>)
    requires
        head.len() > 0 ==> !('0' <= head.last() <= '9'),
        forall|i: int| 0 <= i < digits.len() ==> '0' <= #[trigger] digits[i] <= '9',
    ensures
        node_number(head + digits) == if digits.len() > 0 && crate::text::number(digits, 10)
            <= 0xffff_ffff {
            crate::text::number(digits, 10)
        } else {
            0
        },
{
    let path = head + digits;
    assert forall|i: int| head.len() <= i < path.len() implies crate::text::is_digit(
        #[trigger] path[i],
        10,
    ) by {
        assert(path[i] == digits[i - head.len()]);
    }
    if head.len() > 0 {
        assert(path[head.len() - 1] == head.last());
    }
    lemma_digit_suffix(path, head.len() as int);
    assert(path.skip(head.len() as int) =~= digits);
}

/// Whether a path is that of a hidraw node among the names.
pub open spec fn is_path_of(names: Seq<Seq<char>>, path: Seq<char>) -> bool {
    exists|k: int|
        0 <= k < names.len() && is_hidraw_name(#[trigger] names[k]) && path == "/dev/"@ + names[k]
}

proof fn lemma_hidraw_paths(names: Seq<Seq<char>>)
    ensures
        forall|k: int|
            0 <= k < names.len() && is_hidraw_name(#[trigger] names[k]) ==> hidraw_paths(
                names,
            ).contains("/dev/"@ + names[k]),
        forall|i: int|
            0 <= i < hidraw_paths(names).len() ==> is_path_of(
                names,
                #[trigger] hidraw_paths(names)[i],
            ),
    decreases names.len(),
{
    if names.len() > 0 {
        let shorter = names.drop_last();
        lemma_hidraw_paths(shorter);
        let before = hidraw_paths(shorter);
        let paths = hidraw_paths(names);
        assert forall|k: int|
            0 <= k < names.len() && is_hidraw_name(#[trigger] names[k]) implies paths.contains(
            "/dev/"@ + names[k],
        ) by {
            if k < names.len() - 1 {
                assert(shorter[k] == names[k]);
                assert(before.contains("/dev/"@ + names[k]));
                let i = choose|i: int|
                    0 <= i < before.len() && before[i] == "/dev/"@ + names[k];
                assert(paths[i] == "/dev/"@ + names[k]);
            } else {
                assert(paths[before.len() as int] == "/dev/"@ + names[k]);
            }
        }
        assert forall|i: int| 0 <= i < paths.len() implies is_path_of(
            names,
            #[trigger] paths[i],
        ) by {
            if i < before.len() {
                assert(paths[i] == before[i]);
                assert(is_path_of(shorter, before[i]));
                let k = choose|k: int|
                    0 <= k < shorter.len() && is_hidraw_name(#[trigger] shorter[k]) && before[i]
                        == "/dev/"@ + shorter[k];
                assert(names[k] == shorter[k]);
            } else {
                assert(is_hidraw_name(names[names.len() - 1]));
            }
        }
    }
}

proof fn lemma_same_members(a: Seq<Seq<char>>, b: Seq<Seq<char>>, path: Seq<char>)
    requires
        with_number(a, node_number(path)) == with_number(b, node_number(path)),
        a.contains(path),
    ensures
        b.contains(path),
{
    let wanted = |p: Seq<char>| node_number(p) == node_number(path);
    let i = choose|i: int| 0 <= i < a.len() && a[i] == path;
    a.lemma_filter_contains(wanted, i);
    b.lemma_filter_contains_rev(wanted, path);
}

/// Every hidraw node in `/dev` is listed under its path, nothing else is, and the
/// list is in the order of the numbers.
pub proof fn law_the_nodes_are_those_in_dev(names: Vec<String>, nodes: Vec<String>, k: int)
    requires
        call_ensures(hidraw_nodes, (&names,), nodes),
    ensures
        0 <= k < names@.len() && is_hidraw_name(names@[k]@) ==> exists|i: int|
            0 <= i < nodes@.len() && #[trigger] nodes@[i]@ == "/dev/"@ + names@[k]@,
        0 <= k < nodes@.len() ==> exists|i: int|
            0 <= i < names@.len() && is_hidraw_name(#[trigger] names@[i]@) && nodes@[k]@
                == "/dev/"@ + names@[i]@,
        0 <= k < nodes@.len() - 1 ==> node_number(nodes@[k]@) <= node_number(nodes@[k + 1]@),
{
    let all = crate::text::views(names@);
    let listed = crate::text::views(nodes@);
    let paths = hidraw_paths(all);
    lemma_hidraw_paths(all);
    if 0 <= k < names@.len() && is_hidraw_name(names@[k]@) {
        let path = "/dev/"@ + names@[k]@;
        assert(all[k] == names@[k]@);
        assert(paths.contains(path));
        assert(with_number(listed, node_number(path)) == with_number(paths, node_number(path)));
        lemma_same_members(paths, listed, path);
        let i = choose|i: int| 0 <= i < listed.len() && listed[i] == path;
        assert(nodes@[i]@ == path);
    }
    if 0 <= k < nodes@.len() {
        let path = nodes@[k]@;
        assert(listed[k] == path);
        assert(listed.contains(path));
        assert(with_number(listed, node_number(path)) == with_number(paths, node_number(path)));
        lemma_same_members(listed, paths, path);
        let j = choose|j: int| 0 <= j < paths.len() && paths[j] == path;
        assert(is_path_of(all, paths[j]));
        let i = choose|i: int|
            0 <= i < all.len() && is_hidraw_name(#[trigger] all[i]) && paths[j] == "/dev/"@ + all[i];
        assert(names@[i]@ == all[i]);
    }
    if 0 <= k < nodes@.len() - 1 {
        assert(listed[k] == nodes@[k]@ && listed[k + 1] == nodes@[k + 1]@);
    }
}

/// A line that does not start with `HID_ID=` is passed over, and a text without such
/// a line names no ids.
pub proof fn law_other_lines_are_passed_over(line: Seq<char>, rest: Seq<char>)
    requires
        forall|i: int| 0 <= i < line.len() ==> #[trigger] line[i] != '\n' && line[i] != '\r',
        line.len() < 7 || line.take(7) != "HID_ID="@,
    ensures
        ids_of(Seq::empty()) is None,
        ids_of(line.push('\n') + rest) == ids_of(rest),
        ids_of(line) is None,
{
    reveal_strlit("HID_ID=");
    crate::text::law_a_line_ends_at_the_line_feed(line, rest);
    if line.len() > 0 {
        assert(line[line.len() - 1] != '\r');
    }
    let all = crate::text::lines(line.push('\n') + rest);
    assert(all[0] == line);
    assert(all.drop_first() =~= crate::text::lines(rest));
    if line.len() > 0 {
        let one = crate::text::lines(line);
        assert(one[0] == line);
        assert(one.drop_first().len() == 0);
        assert(ids_of_lines(one.drop_first()) is None);
    } else {
        assert(line =~= Seq::<char>::empty());
    }
}

proof fn lemma_hex_digits_are_plain(s: Seq<char>)
    requires
        crate::text::all_digits(s, 16),
    ensures
        forall|i: int|
            0 <= i < s.len() ==> #[trigger] s[i] != ':' && s[i] != '\n' && s[i] != '\r' && s[i]
                != '+' && !crate::text::is_white_space(s[i]),
{
    assert forall|i: int| 0 <= i < s.len() implies #[trigger] s[i] != ':' && s[i] != '\n' && s[i]
        != '\r' && s[i] != '+' && !crate::text::is_white_space(s[i]) by {
        assert(crate::text::is_digit(s[i], 16));
    }
}

/// The two numbers, where both fit 16 bits.
pub open spec fn both_ids(vendor: nat, product: nat) -> Option<(u16, u16)> {
    if vendor <= 0xffff && product <= 0xffff {
        Some((vendor as u16, product as u16))
    } else {
        None
    }
}

/// Three numbers as they stand in a `HID_ID=` line.
pub open spec fn joined_ids(bus: Seq<char>, vendor: Seq<char>, product: Seq<char>) -> Seq<char> {
    bus.push(':') + (vendor.push(':') + product)
}

proof fn lemma_parts_of_ids(bus: Seq<char>, vendor: Seq<char>, product: Seq<char>)
    requires
        crate::text::all_digits(bus, 16),
        crate::text::all_digits(vendor, 16),
        crate::text::all_digits(product, 16),
    ensures
        crate::text::split(joined_ids(bus, vendor, product), ':') == seq![bus, vendor, product],
{
    lemma_hex_digits_are_plain(bus);
    lemma_hex_digits_are_plain(vendor);
    lemma_hex_digits_are_plain(product);
    crate::text::law_a_split_cuts_at_each_separator(bus, vendor.push(':') + product, ':');
    crate::text::law_a_split_cuts_at_each_separator(vendor, product, ':');
    crate::text::law_a_split_cuts_at_each_separator(product, Seq::empty(), ':');
    assert(crate::text::split(joined_ids(bus, vendor, product), ':') =~= seq![
        bus,
        vendor,
        product,
    ]);
}

proof fn lemma_ids_in(bus: Seq<char>, vendor: Seq<char>, product: Seq<char>)
    requires
        bus.len() > 0,
        vendor.len() > 0,
        product.len() > 0,
        crate::text::all_digits(bus, 16),
        crate::text::all_digits(vendor, 16),
        crate::text::all_digits(product, 16),
    ensures
        ids_in(joined_ids(bus, vendor, product)) == both_ids(
            crate::text::number(vendor, 16),
            crate::text::number(product, 16),
        ),
{
    let ids = joined_ids(bus, vendor, product);
    lemma_hex_digits_are_plain(vendor);
    lemma_hex_digits_are_plain(product);
    assert(vendor[0] != '+' && product[0] != '+');
    lemma_ids_are_trimmed(bus, vendor, product);
    lemma_parts_of_ids(bus, vendor, product);
    lemma_ids_of_parts(ids, seq![bus, vendor, product]);
}

proof fn lemma_ids_of_parts(s: Seq<char>, parts: Seq<Seq<char>>)
    requires
        crate::text::split(crate::text::trim(s), ':') == parts,
        parts.len() == 3,
        parts[1].len() > 0,
        parts[2].len() > 0,
        parts[1][0] != '+',
        parts[2][0] != '+',
        crate::text::all_digits(parts[1], 16),
        crate::text::all_digits(parts[2], 16),
    ensures
        ids_in(s) == both_ids(
            crate::text::number(parts[1], 16),
            crate::text::number(parts[2], 16),
        ),
{
}

proof fn lemma_ids_are_trimmed(bus: Seq<char>, vendor: Seq<char>, product: Seq<char>)
    requires
        bus.len() > 0,
        product.len() > 0,
        crate::text::all_digits(bus, 16),
        crate::text::all_digits(product, 16),
    ensures
        crate::text::trim(joined_ids(bus, vendor, product)) == joined_ids(bus, vendor, product),
{
    let ids = joined_ids(bus, vendor, product);
    lemma_hex_digits_are_plain(bus);
    lemma_hex_digits_are_plain(product);
    assert(ids[0] == bus[0]);
    assert(ids[ids.len() - 1] == product[product.len() - 1]);
    assert(!crate::text::is_white_space(ids[0]));
    assert(!crate::text::is_white_space(ids[ids.len() - 1]));
    let kept = crate::text::law_trimming_takes_white_space_off(ids);
    assert(kept.0 == 0);
    assert(kept.1 == ids.len());
    assert(ids.subrange(0, ids.len() as int) =~= ids);
}

proof fn lemma_ids_are_one_line(bus: Seq<char>, vendor: Seq<char>, product: Seq<char>)
    requires
        product.len() > 0,
        crate::text::all_digits(bus, 16),
        crate::text::all_digits(vendor, 16),
        crate::text::all_digits(product, 16),
    ensures
        forall|i: int|
            0 <= i < joined_ids(bus, vendor, product).len() ==> #[trigger] joined_ids(
                bus,
                vendor,
                product,
            )[i] != '\n',
        joined_ids(bus, vendor, product).last() != '\r',
{
    let ids = joined_ids(bus, vendor, product);
    lemma_hex_digits_are_plain(bus);
    lemma_hex_digits_are_plain(vendor);
    lemma_hex_digits_are_plain(product);
    assert forall|j: int| 0 <= j < ids.len() implies #[trigger] ids[j] != '\n' by {
        if j < bus.len() {
            assert(ids[j] == bus[j]);
        } else if j > bus.len() && j < bus.len() + 1 + vendor.len() {
            assert(ids[j] == vendor[j - bus.len() - 1]);
        } else if j > bus.len() + 1 + vendor.len() {
            assert(ids[j] == product[j - bus.len() - vendor.len() - 2]);
        }
    }
    assert(ids.last() == product[product.len() - 1]);
}

/// The ids are the second and the third of the numbers in the first `HID_ID=` line,
/// read in hexadecimal; there are none where one of them does not fit 16 bits.
pub proof fn law_the_ids_are_the_second_and_third_number(
    bus: Seq<char>,
    vendor: Seq<char>,
    product: Seq<char>,
    rest: Seq<char>,
)
    requires
        bus.len() > 0,
        vendor.len() > 0,
        product.len() > 0,
        crate::text::all_digits(bus, 16),
        crate::text::all_digits(vendor, 16),
        crate::text::all_digits(product, 16),
    ensures
        ids_of(("HID_ID="@ + joined_ids(bus, vendor, product)).push('\n') + rest) == both_ids(
            crate::text::number(vendor, 16),
            crate::text::number(product, 16),
        ),
{
    reveal_strlit("HID_ID=");
    let ids = joined_ids(bus, vendor, product);
    let line = "HID_ID="@ + ids;
    lemma_ids_are_one_line(bus, vendor, product);
    assert forall|i: int| 0 <= i < line.len() implies #[trigger] line[i] != '\n' by {
        if i >= 7 {
            assert(line[i] == ids[i - 7]);
        }
    }
    assert(line.last() == ids.last());
    crate::text::law_a_line_ends_at_the_line_feed(line, rest);
    assert(crate::text::lines(line.push('\n') + rest)[0] == line);
    assert(line.take(7) =~= "HID_ID="@);
    assert(line.skip(7) =~= ids);
    lemma_ids_in(bus, vendor, product);
}

/// Whether a node is the mouse's control interface: its `uevent` names vendor 0x258a,
/// and its descriptor declares feature reports 5 and 8 of at least 7 and 519 bytes.
pub open spec fn carries_control(node: Node) -> bool {
    &&& node.uevent is Some
    &&& node.descriptor is Some
    &&& ids_of(node.uevent->0@) matches Some((vendor, product)) && vendor == 0x258a
    &&& crate::descriptor::bytes_declared(
        crate::descriptor::items(node.descriptor->0@),
        5,
        11,
    ) >= 7
    &&& crate::descriptor::bytes_declared(
        crate::descriptor::items(node.descriptor->0@),
        8,
        11,
    ) >= 519
}

/// The product id in a node's `uevent`.
pub open spec fn product_of(node: Node) -> u16 {
    match ids_of(node.uevent->0@) {
        Some((vendor, product)) => product,
        None => 0,
    }
}

/// Whether a node is the control interface of one of the two known products.
pub open spec fn carries_known_control(node: Node) -> bool {
    carries_control(node) && (product_of(node) == 0x2f || product_of(node) == 0x2e)
}

proof fn lemma_carries_control(node: Node)
    ensures
        control_pid(node) == if carries_control(node) {
            Some(product_of(node))
        } else {
            None
        },
        is_known_control(node) == carries_known_control(node),
{
    if node.descriptor is Some {
        crate::descriptor::law_the_control_interface_has_two_feature_reports(node.descriptor->0@);
    }
}

/// The node that is used is the first control interface of a known product.
pub proof fn law_the_first_known_product_is_used(
    nodes: Vec<Node>,
    found: Result<(String, u16), Error>,
    i: int,
)
    requires
        call_ensures(find_control_node, (&nodes,), found),
        0 <= i < nodes@.len(),
        carries_known_control(nodes@[i]),
        forall|j: int| 0 <= j < i ==> !carries_known_control(#[trigger] nodes@[j]),
    ensures
        found == Ok::<(String, u16), Error>((nodes@[i].path, product_of(nodes@[i]))),
{
    assert forall|j: int| 0 <= j < nodes@.len() implies is_known_control(#[trigger] nodes@[j])
        == carries_known_control(nodes@[j]) by {
        lemma_carries_control(nodes@[j]);
    }
    lemma_carries_control(nodes@[i]);
    assert(is_choice(nodes@, i));
    let (path, pid) = found->Ok_0;
    let at = choose|k: int| #[trigger]
        is_choice(nodes@, k) && path == nodes@[k].path && control_pid(nodes@[k]) == Some(pid);
    law_choice_is_unique(nodes@, i, at);
}

/// Where no known product is there, the first control interface is used; where there
/// is none at all, no device is found.
pub proof fn law_an_unknown_product_is_used_last(
    nodes: Vec<Node>,
    found: Result<(String, u16), Error>,
    i: int,
)
    requires
        call_ensures(find_control_node, (&nodes,), found),
        forall|j: int| 0 <= j < nodes@.len() ==> !carries_known_control(#[trigger] nodes@[j]),
        0 <= i <= nodes@.len(),
        i < nodes@.len() ==> carries_control(nodes@[i]),
        forall|j: int| 0 <= j < i ==> !carries_control(#[trigger] nodes@[j]),
    ensures
        found == if i < nodes@.len() {
            Ok::<(String, u16), Error>((nodes@[i].path, product_of(nodes@[i])))
        } else {
            Err(Error::NoDevice)
        },
{
    assert forall|j: int| 0 <= j < nodes@.len() implies is_known_control(#[trigger] nodes@[j])
        == carries_known_control(nodes@[j]) by {
        lemma_carries_control(nodes@[j]);
    }
    assert forall|j: int| 0 <= j < nodes@.len() implies (control_pid(#[trigger] nodes@[j]) is Some)
        == carries_control(nodes@[j]) by {
        lemma_carries_control(nodes@[j]);
    }
    if i < nodes@.len() {
        lemma_carries_control(nodes@[i]);
        assert(is_choice(nodes@, i));
    }
    if found is Ok {
        let (path, pid) = found->Ok_0;
        let at = choose|k: int| #[trigger]
            is_choice(nodes@, k) && path == nodes@[k].path && control_pid(nodes@[k]) == Some(pid);
        assert(is_choice(nodes@, at));
        assert(carries_control(nodes@[at]));
        assert(i < nodes@.len());
        law_choice_is_unique(nodes@, i, at);
    }
}

/// The number of a node and the ids of its `uevent` are those of the laws above.
pub proof fn law_numbers_and_ids_are_read(
    path: &str,
    index: u32,
    uevent: &str,
    ids: Option<(u16, u16)>,
)
    requires
        call_ensures(node_index, (path,), index),
        call_ensures(hid_ids, (uevent,), ids),
    ensures
        index == node_number(path@),
        ids == ids_of(uevent@),
{
}

} // verus!
