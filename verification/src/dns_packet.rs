//! Framing for a captive-portal DNS responder. Byte arithmetic only.
//!
//! Queries for an address get a fixed one; every other query gets a valid response
//! without answers, so that clients move on instead of retrying.

use crate::wire::{overwritten, push_bytes, put_bytes};
use vstd::prelude::*;
use vstd::slice::slice_subrange;

verus! {

/// Length of the header; the question starts behind it.
pub const DNS_HEADER: usize = 12;

/// Length of an answer with an address.
pub const ANSWER_LEN: usize = 16;

/// Where the name that starts at `pos` ends, its terminator included: labels, each
/// led by its length, until one of length zero. There is no end where a label runs
/// to the end of the packet or past it.
pub open spec fn name_end(req: Seq<u8>, pos: int) -> Option<int>
    decreases req.len() - pos,
{
    if pos < 0 || pos >= req.len() {
        None
    } else if req[pos] == 0 {
        Some(pos + 1)
    } else if pos + req[pos] + 1 >= req.len() {
        None
    } else {
        name_end(req, pos + req[pos] + 1)
    }
}

/// Where the question ends: behind its name come type and class, two bytes each.
pub open spec fn question_end(req: Seq<u8>) -> Option<int> {
    if req.len() < DNS_HEADER {
        None
    } else {
        match name_end(req, DNS_HEADER as int) {
            Some(e) => if e + 4 <= req.len() {
                Some(e + 4)
            } else {
                None
            },
            None => None,
        }
    }
}

/// The question that ends at `q_end` asks for an address.
pub open spec fn asks_for_address(req: Seq<u8>, q_end: int) -> bool {
    256 * req[q_end - 4] + req[q_end - 3] == 1
}

/// The answer: a pointer to the question's name, type A, class IN, no time to live,
/// and the address.
pub open spec fn answer(ip: Seq<u8>) -> Seq<u8> {
    seq![0xC0u8, 0x0C, 0, 1, 0, 1, 0, 0, 0, 0, 0, 4] + ip
}

/// The response: the query's number, the flags of an authoritative response with
/// the query's wish for recursion, the counts, the question as asked, and the
/// answer where there is one.
pub open spec fn response(req: Seq<u8>, q_end: int, ip: Seq<u8>) -> Seq<u8> {
    let is_a = asks_for_address(req, q_end);
    let count: u8 = if is_a {
        1
    } else {
        0
    };
    seq![req[0], req[1], (0x84 + req[2] % 2) as u8, 0u8] + seq![0u8, 1, 0, count, 0, 0, 0, 0]
        + req.subrange(DNS_HEADER as int, q_end) + (if is_a {
        answer(ip)
    } else {
        Seq::empty()
    })
}

/// Where the question ends.
fn parse_question_end(req: &[u8]) -> (r: Option<usize>)
    ensures
        match r {
            Some(e) => question_end(req@) == Some(e as int),
            None => question_end(req@) is None,
        },
{
    if req.len() < DNS_HEADER {
        return None;
    }
    let mut q_end: usize = DNS_HEADER;
    while q_end < req.len() && req[q_end] != 0
        invariant
            DNS_HEADER <= q_end < req@.len() || q_end == DNS_HEADER,
            DNS_HEADER <= req@.len(),
            name_end(req@, q_end as int) == name_end(req@, DNS_HEADER as int),
        ensures
            q_end >= req@.len() || req@[q_end as int] == 0,
        decreases req@.len() - q_end,
    {
        let label_len: usize = req[q_end] as usize + 1;
        if label_len >= req.len() - q_end {
            return None;
        }
        q_end = q_end + label_len;
    }
    if q_end >= req.len() {
        return None;
    }
    q_end = q_end + 1;
    if 4 > req.len() - q_end {
        return None;
    }
    Some(q_end + 4)
}

/// Parses a request and writes the response over the start of `out`. Returns the
/// response's length, or `None`, with `out` unchanged, where the request is
/// malformed or `out` too short.
pub fn build_response(req: &[u8], answer_ip: [u8; 4], out: &mut [u8]) -> (r: Option<usize>)
    ensures
        final(out)@.len() == old(out)@.len(),
        match question_end(req@) {
            None => r is None && final(out)@ == old(out)@,
            Some(e) => {
                let resp = response(req@, e, answer_ip@);
                if old(out)@.len() < resp.len() {
                    r is None && final(out)@ == old(out)@
                } else {
                    &&& r is Some
                    &&& r->0 == resp.len()
                    &&& final(out)@ == overwritten(old(out)@, 0, resp)
                    &&& final(out)@.take(resp.len() as int) == resp
                    &&& final(out)@.skip(resp.len() as int) == old(out)@.skip(resp.len() as int)
                }
            },
        },
{
    let q_end = match parse_question_end(req) {
        Some(e) => e,
        None => return None,
    };
    proof {
        lemma_question_bounds(req@);
    }
    let is_a = 256 * (req[q_end - 4] as u32) + req[q_end - 3] as u32 == 1;
    let count: u8 = if is_a {
        1
    } else {
        0
    };
    let mut resp: Vec<u8> = Vec::new();
    resp.push(req[0]);
    resp.push(req[1]);
    resp.push(0x84 + req[2] % 2);
    resp.push(0);
    push_bytes(&mut resp, [0u8, 1, 0, count, 0, 0, 0, 0].as_slice());
    push_bytes(&mut resp, slice_subrange(req, DNS_HEADER, q_end));
    if is_a {
        push_bytes(&mut resp, [0xC0u8, 0x0C, 0, 1, 0, 1, 0, 0, 0, 0, 0, 4].as_slice());
        push_bytes(&mut resp, answer_ip.as_slice());
    }
    assert(resp@ =~= response(req@, q_end as int, answer_ip@));
    let total = resp.len();
    if out.len() < total {
        return None;
    }
    put_bytes(out, 0, resp.as_slice());
    assert(out@.take(total as int) =~= resp@);
    assert(out@.skip(total as int) =~= old(out)@.skip(total as int));
    Some(total)
}

/// A question lies behind the header, has a name and its type and class, and ends
/// within the packet.
proof fn lemma_question_bounds(req: Seq<u8>)
    ensures
        question_end(req) is Some ==> DNS_HEADER + 5 <= question_end(req)->0 <= req.len(),
{
    lemma_name_bounds(req, DNS_HEADER as int);
}

proof fn lemma_name_bounds(req: Seq<u8>, pos: int)
    ensures
        name_end(req, pos) is Some ==> pos < name_end(req, pos)->0 <= req.len(),
    decreases req.len() - pos,
{
    if 0 <= pos < req.len() && req[pos] != 0 && pos + req[pos] + 1 < req.len() {
        lemma_name_bounds(req, pos + req[pos] + 1);
    }
}

/// Every response repeats the query's number and question, is marked as one, and
/// has an answer exactly where an address was asked for: that address, at its end.
pub proof fn response_answers_the_question(req: Seq<u8>, ip: Seq<u8>)
    requires
        ip.len() == 4,
        question_end(req) is Some,
    ensures
        ({
            let e = question_end(req)->0;
            let resp = response(req, e, ip);
            &&& resp.take(2) =~= req.take(2)
            &&& resp[2] >= 0x80
            &&& resp[2] % 2 == req[2] % 2
            &&& resp.subrange(DNS_HEADER as int, e) =~= req.subrange(DNS_HEADER as int, e)
            &&& asks_for_address(req, e) ==> resp.len() == e + ANSWER_LEN && resp[7] == 1
                && resp.skip(e + 12) =~= ip
            &&& !asks_for_address(req, e) ==> resp.len() == e && resp[7] == 0
        }),
{
    lemma_question_bounds(req);
}

/// Bytes behind the question do not matter to it.
pub proof fn question_ignores_what_follows(req: Seq<u8>, rest: Seq<u8>)
    requires
        question_end(req) is Some,
    ensures
        question_end(req + rest) == question_end(req),
{
    lemma_name_ignores_what_follows(req, rest, DNS_HEADER as int);
    lemma_question_bounds(req);
}

proof fn lemma_name_ignores_what_follows(req: Seq<u8>, rest: Seq<u8>, pos: int)
    requires
        name_end(req, pos) is Some,
    ensures
        name_end(req + rest, pos) == name_end(req, pos),
    decreases req.len() - pos,
{
    assert((req + rest)[pos] == req[pos]);
    if req[pos] != 0 {
        lemma_name_ignores_what_follows(req, rest, pos + req[pos] + 1);
    }
}

/// A response byte by byte. The number of the query; response, authoritative, recursion
/// as wished; no error; one question; one answer where an address was asked for; the
/// question as asked. The answer points at the name, is an address of class Internet,
/// is not to be kept, and has four bytes: the address.
pub proof fn response_has_its_layout(req: Seq<u8>, ip: Seq<u8>)
    requires
        ip.len() == 4,
        question_end(req) is Some,
    ensures
        ({
            let e = question_end(req)->0;
            let resp = response(req, e, ip);
            let wanted = req[e - 4] == 0 && req[e - 3] == 1;
            &&& 17 <= e <= req.len()
            &&& resp.len() == (if wanted {
                e + 16
            } else {
                e
            })
            &&& resp[0] == req[0] && resp[1] == req[1]
            &&& resp[2] == 128 + 4 + req[2] % 2
            &&& resp[3] == 0
            &&& resp[4] == 0 && resp[5] == 1
            &&& resp[6] == 0 && resp[7] == (if wanted {
                1u8
            } else {
                0
            })
            &&& resp[8] == 0 && resp[9] == 0 && resp[10] == 0 && resp[11] == 0
            &&& forall|i: int| 12 <= i < e ==> #[trigger] resp[i] == req[i]
            &&& wanted ==> {
                &&& resp[e] == 0xC0 && resp[e + 1] == 12
                &&& resp[e + 2] == 0 && resp[e + 3] == 1
                &&& resp[e + 4] == 0 && resp[e + 5] == 1
                &&& resp[e + 6] == 0 && resp[e + 7] == 0 && resp[e + 8] == 0 && resp[e + 9] == 0
                &&& resp[e + 10] == 0 && resp[e + 11] == 4
                &&& resp[e + 12] == ip[0] && resp[e + 13] == ip[1] && resp[e + 14] == ip[2]
                    && resp[e + 15] == ip[3]
            }
        }),
{
    lemma_question_bounds(req);
}

/// A name as labels, each led by its length, and the terminator.
pub open spec fn name_bytes(labels: Seq<Seq<u8>>) -> Seq<u8>
    decreases labels.len(),
{
    if labels.len() == 0 {
        seq![0u8]
    } else {
        seq![labels[0].len() as u8] + labels[0] + name_bytes(labels.skip(1))
    }
}

/// Labels that a name can hold.
pub open spec fn are_labels(labels: Seq<Seq<u8>>) -> bool {
    forall|i: int| 0 <= i < labels.len() ==> 1 <= (#[trigger] labels[i]).len() <= 255
}

proof fn lemma_name_found(before: Seq<u8>, labels: Seq<Seq<u8>>, rest: Seq<u8>)
    requires
        are_labels(labels),
    ensures
        name_bytes(labels).len() > 0,
        name_end(before + name_bytes(labels) + rest, before.len() as int) == Some(
            (before.len() + name_bytes(labels).len()) as int,
        ),
    decreases labels.len(),
{
    let req = before + name_bytes(labels) + rest;
    let pos = before.len() as int;
    if labels.len() == 0 {
        assert(req[pos] == 0);
    } else {
        let first = seq![labels[0].len() as u8] + labels[0];
        let others = labels.skip(1);
        assert(are_labels(others)) by {
            assert forall|i: int| 0 <= i < others.len() implies 1 <= (#[trigger] others[i]).len()
                <= 255 by {
                assert(others[i] == labels[i + 1]);
            }
        }
        lemma_name_found(before + first, others, rest);
        assert((before + first) + name_bytes(others) + rest =~= req);
        assert(req[pos] == labels[0].len());
    }
}

/// A question is found where its name ends: whatever the labels, whatever the header and
/// whatever follows the type and the class.
pub proof fn question_of_any_name_is_found(
    header: Seq<u8>,
    labels: Seq<Seq<u8>>,
    kind: Seq<u8>,
    rest: Seq<u8>,
)
    requires
        header.len() == 12,
        are_labels(labels),
        kind.len() == 4,
    ensures
        question_end(header + name_bytes(labels) + (kind + rest)) == Some(
            (12 + name_bytes(labels).len() + 4) as int,
        ),
{
    lemma_name_found(header, labels, kind + rest);
}

proof fn lemma_name_of(req: Seq<u8>, pos: int) -> (labels: Seq<Seq<u8>>)
    requires
        name_end(req, pos) is Some,
    ensures
        are_labels(labels),
        0 <= pos < name_end(req, pos)->0 <= req.len(),
        req.subrange(pos, name_end(req, pos)->0) == name_bytes(labels),
    decreases req.len() - pos,
{
    let e = name_end(req, pos)->0;
    lemma_name_bounds(req, pos);
    if req[pos] == 0 {
        assert(req.subrange(pos, e) =~= name_bytes(Seq::empty()));
        Seq::empty()
    } else {
        let next = pos + req[pos] + 1;
        let others = lemma_name_of(req, next);
        let first = req.subrange(pos + 1, next);
        let labels = seq![first] + others;
        assert(labels.skip(1) =~= others);
        assert(are_labels(labels)) by {
            assert forall|i: int| 0 <= i < labels.len() implies 1 <= (#[trigger] labels[i]).len()
                <= 255 by {
                if i > 0 {
                    assert(labels[i] == others[i - 1]);
                }
            }
        }
        assert(req.subrange(pos, e) =~= seq![req[pos]] + first + req.subrange(next, e));
        labels
    }
}

/// What is taken for a question is one: a name of labels behind the header, with a type
/// and a class behind it.
pub proof fn question_has_a_name(req: Seq<u8>) -> (labels: Seq<Seq<u8>>)
    requires
        question_end(req) is Some,
    ensures
        are_labels(labels),
        16 < question_end(req)->0 <= req.len(),
        req.subrange(12, question_end(req)->0 - 4) == name_bytes(labels),
{
    lemma_question_bounds(req);
    lemma_name_of(req, 12)
}

} // verus!
