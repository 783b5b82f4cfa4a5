//! What can be read off the `-netdev` parameter of a network device: which
//! markers it holds, and where.

use crate::net_device::{
    dhcp_segment, forward_segment, forward_segments, forwards_of, mask_segment, NetCall,
    NetDeviceView,
};
use crate::occurrence::{
    closes, contains, lacks, lemma_decimal_digits, lemma_decimal_lacks,
    lemma_free_concat, lemma_free_when_shorter, lemma_free_without_first, lemma_lacks_concat,
    lemma_occurrence_char, lemma_occurs_in_concat, lemma_occurs_left, lemma_occurs_right,
    occurs_at, opens,
};
use crate::text::{decimal, Text};
use vstd::prelude::*;

verus! {

/// The length of the segments of the first `k` forwards: where, among all
/// the segments, the segment of the forward in place `k` begins.
pub open spec fn forward_offset(forwards: Seq<(u32, u32)>, k: int) -> int {
    forward_segments(forwards.take(k)).len() as int
}

/// A forward segment begins with a comma and holds `hostfwd=` once, right
/// behind that comma; it holds neither `net=` nor `dhcpstart=`.
pub proof fn lemma_forward_segment(host: u32, guest: u32)
    ensures
        forward_segment(host, guest).len() >= 18,
        forward_segment(host, guest)[0] == ',',
        lacks(forward_segment(host, guest), 'n'),
        !contains(forward_segment(host, guest), "net="@),
        !contains(forward_segment(host, guest), "dhcpstart="@),
        forall|at: int| occurs_at(forward_segment(host, guest), "hostfwd="@, at) <==> at == 1,
{
    reveal_strlit(",hostfwd=tcp::");
    reveal_strlit("-:");
    reveal_strlit("net=");
    reveal_strlit("dhcpstart=");
    reveal_strlit("hostfwd=");
    let lead = ",hostfwd=tcp::"@;
    let sep = "-:"@;
    let first = decimal(host as nat);
    let second = decimal(guest as nat);
    let a = lead + first;
    let b = a + sep;
    let segment = b + second;
    lemma_decimal_digits(host as nat);
    lemma_decimal_digits(guest as nat);
    assert(segment == forward_segment(host, guest));
    assert(segment[0] == lead[0]);
    assert(b.last() == sep.last());

    // `net=` is nowhere: the segment has no `n`.
    lemma_decimal_lacks(host as nat, 'n');
    lemma_decimal_lacks(guest as nat, 'n');
    assert(lacks(lead, 'n'));
    assert(lacks(sep, 'n'));
    lemma_lacks_concat(lead, first, 'n');
    lemma_lacks_concat(a, sep, 'n');
    lemma_lacks_concat(b, second, 'n');
    lemma_free_without_first(segment, "net="@);

    // `dhcpstart=` is nowhere.
    let dhcp = "dhcpstart="@;
    lemma_decimal_lacks(host as nat, 'd');
    lemma_decimal_lacks(guest as nat, 'd');
    lemma_free_without_first(first, dhcp);
    lemma_free_without_first(second, dhcp);
    lemma_free_when_shorter(sep, dhcp);
    assert(!contains(lead, dhcp)) by {
        assert forall|at: int| !occurs_at(lead, dhcp, at) by {
            if occurs_at(lead, dhcp, at) {
                lemma_occurrence_char(lead, dhcp, at, 0);
            }
        }
    }
    assert(closes(lead, dhcp));
    lemma_free_concat(lead, first, dhcp);
    assert(opens(sep, dhcp));
    lemma_free_concat(a, sep, dhcp);
    assert(closes(b, dhcp));
    lemma_free_concat(b, second, dhcp);

    // `hostfwd=` stands at offset 1 and nowhere else.
    let fwd = "hostfwd="@;
    lemma_decimal_lacks(host as nat, 'h');
    lemma_decimal_lacks(guest as nat, 'h');
    lemma_free_without_first(first, fwd);
    lemma_free_without_first(second, fwd);
    lemma_free_when_shorter(sep, fwd);
    assert(lead.subrange(1, 9) =~= fwd);
    assert(closes(lead, fwd));
    assert(opens(sep, fwd));
    assert(closes(b, fwd));
    assert forall|at: int| occurs_at(segment, fwd, at) <==> at == 1 by {
        lemma_occurs_in_concat(b, second, fwd, at);
        lemma_occurs_in_concat(a, sep, fwd, at);
        lemma_occurs_in_concat(lead, first, fwd, at);
        if occurs_at(lead, fwd, at) {
            lemma_occurrence_char(lead, fwd, at, 0);
        }
    }
}

/// The segments of a list of forwards are empty for the empty list, and
/// begin with a comma otherwise. They hold neither `net=` nor `dhcpstart=`.
pub proof fn lemma_forward_segments_plain(forwards: Seq<(u32, u32)>)
    ensures
        forwards.len() == 0 ==> forward_segments(forwards).len() == 0,
        forwards.len() > 0 ==> forward_segments(forwards).len() > 0 && forward_segments(
            forwards,
        )[0] == ',',
        !contains(forward_segments(forwards), "net="@),
        !contains(forward_segments(forwards), "dhcpstart="@),
    decreases forwards.len(),
{
    reveal_strlit("net=");
    reveal_strlit("dhcpstart=");
    if forwards.len() > 0 {
        let before = forward_segments(forwards.drop_last());
        let last = forward_segment(forwards.last().0, forwards.last().1);
        lemma_forward_segments_plain(forwards.drop_last());
        lemma_forward_segment(forwards.last().0, forwards.last().1);
        assert(opens(last, "net="@));
        assert(opens(last, "dhcpstart="@));
        lemma_free_concat(before, last, "net="@);
        lemma_free_concat(before, last, "dhcpstart="@);
    }
}

/// The segments of the first `k` forwards open the segments of all of them,
/// and the segment of the forward in place `k` follows.
pub proof fn lemma_forward_offset(forwards: Seq<(u32, u32)>, k: int)
    requires
        0 <= k < forwards.len(),
    ensures
        0 <= forward_offset(forwards, k),
        forward_offset(forwards, k + 1) == forward_offset(forwards, k) + forward_segment(
            forwards[k].0,
            forwards[k].1,
        ).len(),
        forward_offset(forwards, k + 1) <= forward_segments(forwards).len(),
        occurs_at(
            forward_segments(forwards),
            forward_segment(forwards[k].0, forwards[k].1),
            forward_offset(forwards, k),
        ),
    decreases forwards.len(),
{
    let own = forward_segment(forwards[k].0, forwards[k].1);
    let upto = forwards.take(k + 1);
    assert(upto.drop_last() == forwards.take(k));
    assert(upto.last() == forwards[k]);
    assert(forward_segments(upto) == forward_segments(forwards.take(k)) + own);
    if k == forwards.len() - 1 {
        assert(upto == forwards);
        assert(own.subrange(0, own.len() as int) =~= own);
        lemma_occurs_right(forward_segments(forwards.take(k)), own, own, 0);
    } else {
        let shorter = forwards.drop_last();
        let last = forward_segment(forwards.last().0, forwards.last().1);
        lemma_forward_offset(shorter, k);
        assert(shorter.take(k) == forwards.take(k));
        assert(shorter.take(k + 1) == forwards.take(k + 1));
        lemma_occurs_left(forward_segments(shorter), last, own, forward_offset(forwards, k));
    }
}

/// In the segments of a list of forwards, `hostfwd=` stands once in each
/// segment, one place behind its beginning, and nowhere else.
pub proof fn lemma_forward_markers(forwards: Seq<(u32, u32)>, at: int)
    ensures
        occurs_at(forward_segments(forwards), "hostfwd="@, at) <==> exists|k: int|
            0 <= k < forwards.len() && at == #[trigger] forward_offset(forwards, k) + 1,
    decreases forwards.len(),
{
    reveal_strlit("hostfwd=");
    let fwd = "hostfwd="@;
    if forwards.len() > 0 {
        let shorter = forwards.drop_last();
        let before = forward_segments(shorter);
        let last = forward_segment(forwards.last().0, forwards.last().1);
        let end = forwards.len() - 1;
        lemma_forward_markers(shorter, at);
        lemma_forward_segment(forwards.last().0, forwards.last().1);
        assert(opens(last, fwd));
        lemma_occurs_in_concat(before, last, fwd, at);
        assert(forwards.take(end) == shorter);
        assert(forward_offset(forwards, end) == before.len());
        assert forall|k: int| 0 <= k < shorter.len() implies forward_offset(shorter, k)
            == forward_offset(forwards, k) by {
            assert(shorter.take(k) == forwards.take(k));
        }
        if occurs_at(forward_segments(forwards), fwd, at) {
            if occurs_at(before, fwd, at) {
                let k = choose|k: int|
                    0 <= k < shorter.len() && at == #[trigger] forward_offset(shorter, k) + 1;
                assert(at == forward_offset(forwards, k) + 1);
            } else {
                assert(at == forward_offset(forwards, end) + 1);
            }
        }
        if exists|k: int|
            0 <= k < forwards.len() && at == #[trigger] forward_offset(forwards, k) + 1 {
            let k = choose|k: int|
                0 <= k < forwards.len() && at == #[trigger] forward_offset(forwards, k) + 1;
            if k < end {
                assert(at == forward_offset(shorter, k) + 1);
            }
        }
    }
}

/// Whether `needle` is one of the three markers of the parameter.
pub open spec fn is_marker(needle: Text) -> bool {
    needle == "net="@ || needle == "dhcpstart="@ || needle == "hostfwd="@
}

/// A marker has no comma, and its only `=` is its last character.
proof fn lemma_marker(needle: Text)
    requires
        is_marker(needle),
    ensures
        needle.len() >= 4,
        lacks(needle, ','),
        forall|k: int| 0 <= k < needle.len() - 1 ==> needle[k] != '=',
{
    reveal_strlit("net=");
    reveal_strlit("dhcpstart=");
    reveal_strlit("hostfwd=");
}

/// Whether `value` is set and holds `needle`.
pub open spec fn holds(value: Option<Text>, needle: Text) -> bool {
    value matches Some(text) && contains(text, needle)
}

/// The part before the forwards holds no marker that neither the
/// identifier nor the two optional segments hold.
proof fn lemma_head_free(device: NetDeviceView, needle: Text)
    requires
        is_marker(needle),
        !contains(device.id, needle),
        !contains(mask_segment(device.mask), needle),
        !contains(dhcp_segment(device.dhcp_start), needle),
    ensures
        !contains(device.netdev_head(), needle),
{
    reveal_strlit("user,id=");
    reveal_strlit(",net=");
    reveal_strlit(",dhcpstart=");
    reveal_strlit("net=");
    reveal_strlit("dhcpstart=");
    reveal_strlit("hostfwd=");
    lemma_marker(needle);
    let lead = "user,id="@;
    let mask = mask_segment(device.mask);
    let dhcp = dhcp_segment(device.dhcp_start);
    if needle == "dhcpstart="@ {
        lemma_free_when_shorter(lead, needle);
    } else {
        lemma_free_without_first(lead, needle);
    }
    assert(closes(lead, needle));
    lemma_free_concat(lead, device.id, needle);
    assert(opens(mask, needle));
    lemma_free_concat(lead + device.id, mask, needle);
    assert(opens(dhcp, needle));
    lemma_free_concat(lead + device.id + mask, dhcp, needle);
}

/// An optional segment holds no marker that neither its label nor its value
/// holds.
proof fn lemma_segment_free(label: Text, value: Option<Text>, needle: Text)
    requires
        is_marker(needle),
        label.len() > 0,
        label.last() == '=',
        !contains(label, needle),
        !holds(value, needle),
    ensures
        !contains(
            match value {
                Some(text) => label + text,
                None => Seq::empty(),
            },
            needle,
        ),
{
    lemma_marker(needle);
    match value {
        Some(text) => {
            assert(closes(label, needle));
            lemma_free_concat(label, text, needle);
        },
        None => {
            lemma_free_when_shorter(Seq::empty(), needle);
        },
    }
}

/// Whether the markers in the parameter of `device` can only be those that
/// the rendering itself writes: the identifier and the values that are set
/// hold no `hostfwd=`; they hold no `net=` where no mask is set, and no
/// `dhcpstart=` where no DHCP start is set.
pub open spec fn unambiguous(device: NetDeviceView) -> bool {
    &&& device.mask is None ==> !contains(device.id, "net="@) && !holds(
        device.dhcp_start,
        "net="@,
    )
    &&& device.dhcp_start is None ==> !contains(device.id, "dhcpstart="@) && !holds(
        device.mask,
        "dhcpstart="@,
    )
    &&& !contains(device.id, "hostfwd="@)
    &&& !holds(device.mask, "hostfwd="@)
    &&& !holds(device.dhcp_start, "hostfwd="@)
}

/// The parameter holds `net=` exactly when a mask is set.
pub proof fn lemma_mask_marker(device: NetDeviceView)
    requires
        device.mask is None ==> !contains(device.id, "net="@) && !holds(
            device.dhcp_start,
            "net="@,
        ),
    ensures
        contains(device.netdev_param(), "net="@) <==> device.mask is Some,
{
    reveal_strlit(",net=");
    reveal_strlit(",dhcpstart=");
    reveal_strlit("net=");
    let needle = "net="@;
    let lead = "user,id="@ + device.id;
    let mask = mask_segment(device.mask);
    let dhcp = dhcp_segment(device.dhcp_start);
    let forwards = forward_segments(device.forwards);
    match device.mask {
        Some(text) => {
            assert(mask.subrange(1, 5) =~= needle);
            lemma_occurs_right(lead, mask, needle, 1);
            lemma_occurs_left(lead + mask, dhcp, needle, (lead.len() + 1) as int);
            lemma_occurs_left(device.netdev_head(), forwards, needle, (lead.len() + 1) as int);
        },
        None => {
            lemma_free_when_shorter(mask, needle);
            lemma_free_without_first(",dhcpstart="@, needle);
            lemma_segment_free(",dhcpstart="@, device.dhcp_start, needle);
            lemma_head_free(device, needle);
            lemma_forward_segments_plain(device.forwards);
            lemma_marker(needle);
            assert(opens(forwards, needle));
            lemma_free_concat(device.netdev_head(), forwards, needle);
        },
    }
}

/// The parameter holds `dhcpstart=` exactly when a DHCP start is set.
pub proof fn lemma_dhcp_marker(device: NetDeviceView)
    requires
        device.dhcp_start is None ==> !contains(device.id, "dhcpstart="@) && !holds(
            device.mask,
            "dhcpstart="@,
        ),
    ensures
        contains(device.netdev_param(), "dhcpstart="@) <==> device.dhcp_start is Some,
{
    reveal_strlit(",net=");
    reveal_strlit(",dhcpstart=");
    reveal_strlit("dhcpstart=");
    let needle = "dhcpstart="@;
    let lead = "user,id="@ + device.id + mask_segment(device.mask);
    let dhcp = dhcp_segment(device.dhcp_start);
    let forwards = forward_segments(device.forwards);
    match device.dhcp_start {
        Some(text) => {
            assert(dhcp.subrange(1, 11) =~= needle);
            lemma_occurs_right(lead, dhcp, needle, 1);
            lemma_occurs_left(device.netdev_head(), forwards, needle, (lead.len() + 1) as int);
        },
        None => {
            lemma_free_when_shorter(dhcp, needle);
            lemma_free_when_shorter(",net="@, needle);
            lemma_segment_free(",net="@, device.mask, needle);
            lemma_head_free(device, needle);
            lemma_forward_segments_plain(device.forwards);
            lemma_marker(needle);
            assert(opens(forwards, needle));
            lemma_free_concat(device.netdev_head(), forwards, needle);
        },
    }
}

/// Where the forward in place `k` begins in the parameter of `device`.
pub open spec fn forward_start(device: NetDeviceView, k: int) -> int {
    device.netdev_head().len() + forward_offset(device.forwards, k)
}

/// The parameter holds `hostfwd=` once for each forward and nowhere else:
/// one place behind the beginning of each forward's segment.
pub proof fn lemma_forward_marker(device: NetDeviceView, at: int)
    requires
        !contains(device.id, "hostfwd="@),
        !holds(device.mask, "hostfwd="@),
        !holds(device.dhcp_start, "hostfwd="@),
    ensures
        occurs_at(device.netdev_param(), "hostfwd="@, at) <==> exists|k: int|
            0 <= k < device.forwards.len() && at == #[trigger] forward_start(device, k) + 1,
{
    reveal_strlit(",net=");
    reveal_strlit(",dhcpstart=");
    reveal_strlit("hostfwd=");
    let needle = "hostfwd="@;
    let head = device.netdev_head();
    let forwards = forward_segments(device.forwards);
    lemma_free_when_shorter(",net="@, needle);
    lemma_segment_free(",net="@, device.mask, needle);
    assert(!contains(",dhcpstart="@, needle)) by {
        assert forall|p: int| !occurs_at(",dhcpstart="@, needle, p) by {
            if occurs_at(",dhcpstart="@, needle, p) {
                lemma_occurrence_char(",dhcpstart="@, needle, p, 0);
                lemma_occurrence_char(",dhcpstart="@, needle, p, 1);
            }
        }
    }
    lemma_segment_free(",dhcpstart="@, device.dhcp_start, needle);
    lemma_head_free(device, needle);
    lemma_forward_segments_plain(device.forwards);
    lemma_marker(needle);
    assert(opens(forwards, needle));
    lemma_occurs_in_concat(head, forwards, needle, at);
    lemma_forward_markers(device.forwards, at - head.len());
    assert(!occurs_at(head, needle, at));
    if occurs_at(device.netdev_param(), needle, at) {
        let k = choose|k: int|
            0 <= k < device.forwards.len() && at - head.len() == #[trigger] forward_offset(
                device.forwards,
                k,
            ) + 1;
        assert(at == forward_start(device, k) + 1);
    }
    if exists|k: int|
        0 <= k < device.forwards.len() && at == #[trigger] forward_start(device, k) + 1 {
        let k = choose|k: int|
            0 <= k < device.forwards.len() && at == #[trigger] forward_start(device, k) + 1;
        assert(at - head.len() == forward_offset(device.forwards, k) + 1);
    }
}

/// The segment of the forward in place `k` stands in the parameter where
/// that forward begins, and the next forward begins behind it.
pub proof fn lemma_forward_place(device: NetDeviceView, k: int)
    requires
        0 <= k < device.forwards.len(),
    ensures
        occurs_at(
            device.netdev_param(),
            forward_segment(device.forwards[k].0, device.forwards[k].1),
            forward_start(device, k),
        ),
        forward_start(device, k) < forward_start(device, k + 1),
{
    lemma_forward_offset(device.forwards, k);
    lemma_forward_segment(device.forwards[k].0, device.forwards[k].1);
    lemma_occurs_right(
        device.netdev_head(),
        forward_segments(device.forwards),
        forward_segment(device.forwards[k].0, device.forwards[k].1),
        forward_offset(device.forwards, k),
    );
}

/// What a sequence of builder calls leaves in the device: the identifier it
/// was created with, a mask exactly when one of the calls set one, a DHCP
/// start exactly when one of the calls set one, and the forwards that were
/// recorded, in call order.
pub proof fn lemma_calls(id: Text, calls: Seq<NetCall>)
    ensures
        ({
            let device = NetDeviceView::created(id).apply_all(calls);
            &&& device.id == id
            &&& device.mask is Some <==> exists|j: int|
                #![trigger calls[j]]
                0 <= j < calls.len() && calls[j] is Mask
            &&& device.dhcp_start is Some <==> exists|j: int|
                #![trigger calls[j]]
                0 <= j < calls.len() && calls[j] is DhcpStart
            &&& device.forwards == forwards_of(calls)
        }),
    decreases calls.len(),
{
    if calls.len() > 0 {
        let shorter = calls.drop_last();
        let end = calls.len() - 1;
        let before = NetDeviceView::created(id).apply_all(shorter);
        let device = NetDeviceView::created(id).apply_all(calls);
        lemma_calls(id, shorter);
        assert(calls[end] == calls.last());
        assert forall|j: int| 0 <= j < shorter.len() implies shorter[j] == calls[j] by {}
        if before.mask is Some {
            let j = choose|j: int| 0 <= j < shorter.len() && #[trigger] shorter[j] is Mask;
            assert(calls[j] is Mask);
        }
        if before.dhcp_start is Some {
            let j = choose|j: int| 0 <= j < shorter.len() && #[trigger] shorter[j] is DhcpStart;
            assert(calls[j] is DhcpStart);
        }
        if exists|j: int| #![trigger calls[j]] 0 <= j < calls.len() && calls[j] is Mask {
            let j = choose|j: int| #![trigger calls[j]] 0 <= j < calls.len() && calls[j] is Mask;
            if j < end {
                assert(shorter[j] is Mask);
            }
        }
        if exists|j: int| #![trigger calls[j]] 0 <= j < calls.len() && calls[j] is DhcpStart {
            let j = choose|j: int|
                #![trigger calls[j]]
                0 <= j < calls.len() && calls[j] is DhcpStart;
            if j < end {
                assert(shorter[j] is DhcpStart);
            }
        }
    }
}

/// The shape of a rendered network device.
///
/// Whatever calls configure a device, it is rendered as four arguments. Its
/// `-netdev` parameter holds `net=` exactly when one of the calls set a
/// mask, and `dhcpstart=` exactly when one of the calls set a DHCP start. It
/// holds `hostfwd=` once for each forward that the calls recorded and
/// nowhere else, each time one place into that forward's own segment, and
/// the segments stand in call order.
///
/// This is stated of the devices whose identifier and values do not hold
/// the markers themselves: see `unambiguous`.
pub proof fn lemma_render_shape(id: Text, calls: Seq<NetCall>)
    requires
        unambiguous(NetDeviceView::created(id).apply_all(calls)),
    ensures
        ({
            let device = NetDeviceView::created(id).apply_all(calls);
            let param = device.render()[1];
            let forwards = forwards_of(calls);
            &&& device.render().len() == 4
            &&& contains(param, "net="@) <==> exists|j: int|
                #![trigger calls[j]]
                0 <= j < calls.len() && calls[j] is Mask
            &&& contains(param, "dhcpstart="@) <==> exists|j: int|
                #![trigger calls[j]]
                0 <= j < calls.len() && calls[j] is DhcpStart
            &&& forall|at: int|
                occurs_at(param, "hostfwd="@, at) <==> exists|k: int|
                    0 <= k < forwards.len() && at == #[trigger] forward_start(device, k) + 1
            &&& forall|k: int|
                #![trigger forwards[k]]
                0 <= k < forwards.len() ==> {
                    &&& occurs_at(
                        param,
                        forward_segment(forwards[k].0, forwards[k].1),
                        forward_start(device, k),
                    )
                    &&& forward_start(device, k) < forward_start(device, k + 1)
                }
        }),
{
    let device = NetDeviceView::created(id).apply_all(calls);
    let param = device.render()[1];
    let forwards = forwards_of(calls);
    lemma_calls(id, calls);
    lemma_mask_marker(device);
    lemma_dhcp_marker(device);
    assert forall|at: int|
        occurs_at(param, "hostfwd="@, at) <==> exists|k: int|
            0 <= k < forwards.len() && at == #[trigger] forward_start(device, k) + 1 by {
        lemma_forward_marker(device, at);
    }
    assert forall|k: int| #![trigger forwards[k]] 0 <= k < forwards.len() implies {
        &&& occurs_at(
            param,
            forward_segment(forwards[k].0, forwards[k].1),
            forward_start(device, k),
        )
        &&& forward_start(device, k) < forward_start(device, k + 1)
    } by {
        lemma_forward_place(device, k);
    }
}

} // verus!
