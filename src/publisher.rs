//! Size-aware delivery: a payload is sent whole when its text fits the
//! transport's budget, and otherwise as a sequence of bounded pages followed by
//! one summary. Nothing is sent here: a plan of messages is returned, in
//! sending order, and is complete before the first of them goes out.
use vstd::prelude::*;
use crate::text::{
    ascii_bytes,
    decimal,
    decimal_chars,
    lemma_decimal_len_mono,
    push_ascii,
    push_bytes,
    push_decimal,
    append_decimal,
};

verus! {

/// The largest message the broker accepts, in bytes.
pub const MAX_MESSAGE_SIZE: usize = 8000;

/// The JSON string literal (quoted and escaped) of a text, as serde_json
/// writes it.
pub uninterp spec fn json_string_of(s: Seq<char>) -> Seq<u8>;

/// Relies on serde_json::to_vec on a `str`: it writes the quoted, escaped
/// string literal. Writing into a `Vec` cannot fail, so the error arm is never
/// taken.
#[verifier::external_body]
pub(crate) fn json_string(s: &str) -> (r: Vec<u8>)
    ensures
        r@ == json_string_of(s@),
{
    serde_json::to_vec(s).unwrap_or_default()
}

/// The hyphenated lowercase form of a UUID: 36 bytes, `-` at positions 8,
/// 13, 18 and 23, lowercase hexadecimal digits elsewhere.
pub open spec fn is_hyphenated_uuid(s: Seq<u8>) -> bool {
    &&& s.len() == 36
    &&& forall|i: int|
        0 <= i < 36 ==> if i == 8 || i == 13 || i == 18 || i == 23 {
            #[trigger] s[i] == 45u8
        } else {
            (48u8 <= s[i] <= 57u8) || (97u8 <= s[i] <= 102u8)
        }
}

/// Relies on uuid::Uuid::new_v4 and its hyphenated form: a fresh random
/// identifier, written as 32 lowercase hexadecimal digits in groups of 8, 4,
/// 4, 4 and 12 joined by `-`.
#[verifier::external_body]
fn new_request_id() -> (r: Vec<u8>)
    ensures
        is_hyphenated_uuid(r@),
{
    uuid::Uuid::new_v4().hyphenated().to_string().into_bytes()
}

/// An outbound payload, each element already in its JSON text: an array of
/// items, or a single value (sent as a one-item array when paged).
pub enum Payload {
    Array(Vec<Vec<u8>>),
    Single(Vec<u8>),
}

/// One message for the broker.
pub struct Message {
    pub topic: String,
    pub body: Vec<u8>,
}

/// One page: the items `[start, end)` of the payload and its message.
pub struct Page {
    pub start: usize,
    pub end: usize,
    pub message: Message,
}

/// The messages that deliver a payload.
pub enum Delivery {
    /// The payload's text fits the budget: one message.
    Whole(Message),
    /// Pages in order, then one summary.
    Paged { pages: Vec<Page>, summary: Message },
}

/// Why a payload cannot be delivered.
#[derive(Debug, Clone, Copy, PartialEq, Eq, Structural)]
pub enum PublishError {
    /// Not even an empty page fits the budget.
    BudgetTooSmall,
    /// The item at `index`, of `size` bytes, cannot fit a page on its own.
    OversizedItem { index: usize, size: usize },
}

/// The texts of items joined with commas.
pub open spec fn joined(items: Seq<Seq<u8>>) -> Seq<u8>
    decreases items.len(),
{
    if items.len() == 0 {
        Seq::empty()
    } else if items.len() == 1 {
        items[0]
    } else {
        joined(items.drop_last()) + seq![44u8] + items.last()
    }
}

/// The items of a payload: the elements of an array, or the single value.
pub open spec fn payload_items(p: Payload) -> Seq<Seq<u8>> {
    match p {
        Payload::Array(v) => v@.map_values(|b: Vec<u8>| b@),
        Payload::Single(b) => seq![b@],
    }
}

/// The JSON text of a whole payload.
pub open spec fn whole_text(p: Payload) -> Seq<u8> {
    match p {
        Payload::Array(_) => ascii_bytes("["@) + joined(payload_items(p)) + ascii_bytes("]"@),
        Payload::Single(b) => b@,
    }
}

/// The part of a page's text before its items.
pub open spec fn page_head(rid: Seq<u8>, page: nat, estimate: nat) -> Seq<u8> {
    ascii_bytes("{\"type\":\"paginated\",\"request_id\":\""@) + rid + ascii_bytes(
        "\",\"page\":"@,
    ) + decimal(page) + ascii_bytes(",\"total_pages\":"@) + decimal(estimate) + ascii_bytes(
        ",\"data\":["@,
    )
}

/// The text of page `page`: `{"type":"paginated","request_id":..,"page":..,
/// "total_pages":<estimate>,"data":[items]}`.
pub open spec fn page_body(rid: Seq<u8>, page: nat, estimate: nat, items: Seq<Seq<u8>>) -> Seq<
    u8,
> {
    page_head(rid, page, estimate) + joined(items) + ascii_bytes("]}"@)
}

/// The bytes a page needs besides its items, for any page of a payload of
/// `n` items.
pub open spec fn page_overhead(rid: Seq<u8>, n: nat) -> nat {
    page_head(rid, n, n).len() + 2
}

/// The text of the summary that closes a paged delivery.
pub open spec fn summary_body(
    rid: Seq<u8>,
    total_items: nat,
    total_pages: nat,
    original_size: nat,
    topic: Seq<char>,
) -> Seq<u8> {
    ascii_bytes("{\"type\":\"summary\",\"request_id\":\""@) + rid + ascii_bytes(
        "\",\"total_items\":"@,
    ) + decimal(total_items) + ascii_bytes(",\"total_pages\":"@) + decimal(total_pages)
        + ascii_bytes(",\"original_size\":"@) + decimal(original_size) + ascii_bytes(
        ",\"topic_base\":"@,
    ) + json_string_of(topic) + ascii_bytes("}"@)
}

pub open spec fn page_topic(topic: Seq<char>, page: nat) -> Seq<char> {
    topic + "/page/"@ + decimal_chars(page)
}

pub open spec fn summary_topic(topic: Seq<char>) -> Seq<char> {
    topic + "/summary"@
}

/// The estimate of the number of pages carried by every page: from the
/// average item size (`size / n`, at least 1, plus a separator) and the room
/// for items on a page.
pub open spec fn page_estimate(n: nat, size: nat, room: nat) -> nat {
    let avg: int = if (size as int) / (n as int) >= 1 {
        (size as int) / (n as int)
    } else {
        1
    };
    let per: int = if (room as int) / (avg + 1) >= 1 {
        (room as int) / (avg + 1)
    } else {
        1
    };
    ((n as int) / per + if (n as int) % per != 0 {
        1int
    } else {
        0
    }) as nat
}

/// The items `[s, e)` fit a page with `room` bytes for items.
pub open spec fn fits(items: Seq<Seq<u8>>, s: int, e: int, room: nat) -> bool {
    joined(items.subrange(s, e)).len() <= room
}

/// `bounds` cuts `n` items into consecutive non-empty pages, in order.
pub open spec fn contiguous(bounds: Seq<(int, int)>, n: nat) -> bool {
    &&& bounds.len() >= 1
    &&& bounds[0].0 == 0
    &&& bounds.last().1 == n
    &&& forall|k: int| 0 <= k < bounds.len() ==> #[trigger] bounds[k].0 < bounds[k].1
    &&& forall|k: int| 0 <= k < bounds.len() - 1 ==> #[trigger] bounds[k].1 == bounds[k + 1].0
}

/// `bounds` cuts `items` into pages greedily: each page, in order, takes
/// items while they fit, and is closed only when the next item would not.
pub open spec fn greedy_pages(items: Seq<Seq<u8>>, room: nat, bounds: Seq<(int, int)>) -> bool {
    &&& contiguous(bounds, items.len())
    &&& forall|k: int|
        0 <= k < bounds.len() ==> #[trigger] fits(items, bounds[k].0, bounds[k].1, room)
    &&& forall|k: int|
        0 <= k < bounds.len() - 1 ==> !#[trigger] fits(items, bounds[k].0, bounds[k].1 + 1, room)
}

/// The items of the pages, one page after the other.
pub open spec fn concat_pages(items: Seq<Seq<u8>>, bounds: Seq<(int, int)>) -> Seq<Seq<u8>>
    decreases bounds.len(),
{
    if bounds.len() == 0 {
        Seq::empty()
    } else {
        concat_pages(items, bounds.drop_last()) + items.subrange(bounds.last().0, bounds.last().1)
    }
}

/// The bounds of the pages of a delivery.
pub open spec fn page_bounds(pages: Seq<Page>) -> Seq<(int, int)> {
    pages.map_values(|p: Page| (p.start as int, p.end as int))
}

/// The first item that cannot fit an empty page is at `index`.
pub open spec fn first_oversized(items: Seq<Seq<u8>>, room: nat, index: int) -> bool {
    &&& 0 <= index < items.len()
    &&& items[index].len() > room
    &&& forall|j: int| 0 <= j < index ==> (#[trigger] items[j]).len() <= room
}

proof fn lemma_joined_push(items: Seq<Seq<u8>>, x: Seq<u8>)
    ensures
        joined(items.push(x)).len() == if items.len() == 0 {
            x.len()
        } else {
            joined(items).len() + 1 + x.len()
        },
{
    assert(items.push(x).drop_last() =~= items);
}

proof fn lemma_concat_prefix(items: Seq<Seq<u8>>, bounds: Seq<(int, int)>, k: int)
    requires
        contiguous(bounds, items.len()),
        0 < k <= bounds.len(),
    ensures
        concat_pages(items, bounds.take(k)) == items.subrange(0, bounds[k - 1].1),
    decreases k,
{
    let t = bounds.take(k);
    let last = bounds[k - 1];
    assert(t.drop_last() =~= bounds.take(k - 1));
    assert(t.last() == last);
    lemma_bounds_increase(items.len(), bounds, k - 1);
    lemma_pages_at_most_items(items.len(), bounds, k - 1);
    assert(last.0 < last.1 <= items.len());
    if k == 1 {
        assert(bounds.take(0) =~= Seq::<(int, int)>::empty());
        assert(concat_pages(items, t.drop_last()) == Seq::<Seq<u8>>::empty());
        assert(concat_pages(items, t) =~= items.subrange(last.0, last.1));
    } else {
        lemma_concat_prefix(items, bounds, k - 1);
        assert(bounds[k - 2].1 == last.0);
        lemma_pages_at_most_items(items.len(), bounds, k - 2);
        assert(concat_pages(items, t) == items.subrange(0, last.0) + items.subrange(last.0, last.1));
        assert(items.subrange(0, last.0) + items.subrange(last.0, last.1) =~= items.subrange(0, last.1));
    }
}

/// The pages of a paged delivery, taken in order, hold the payload's items
/// exactly: concatenating their items gives back the items of the payload.
pub proof fn lemma_pages_reassemble(items: Seq<Seq<u8>>, bounds: Seq<(int, int)>)
    requires
        contiguous(bounds, items.len()),
    ensures
        concat_pages(items, bounds) == items,
{
    lemma_concat_prefix(items, bounds, bounds.len() as int);
    assert(bounds.take(bounds.len() as int) =~= bounds);
    assert(items.subrange(0, items.len() as int) =~= items);
}

proof fn lemma_bounds_increase(n: nat, bounds: Seq<(int, int)>, j: int)
    requires
        contiguous(bounds, n),
        0 <= j < bounds.len(),
    ensures
        bounds[j].1 <= bounds.last().1,
    decreases bounds.len() - j,
{
    if j < bounds.len() - 1 {
        assert(bounds[j].1 == bounds[j + 1].0);
        assert(bounds[j + 1].0 < bounds[j + 1].1);
        lemma_bounds_increase(n, bounds, j + 1);
    }
}

/// Every page of a greedy cut holds at least one item, so there are no more
/// pages than items.
proof fn lemma_pages_at_most_items(n: nat, bounds: Seq<(int, int)>, k: int)
    requires
        contiguous(bounds, n),
        0 <= k < bounds.len(),
    ensures
        k < bounds[k].1,
    decreases k,
{
    if k > 0 {
        lemma_pages_at_most_items(n, bounds, k - 1);
        assert(bounds[k - 1].1 == bounds[k].0);
    }
}

/// Cuts the items greedily into pages with `room` bytes for items each, or
/// names the first item that no page can hold.
#[verifier::rlimit(50)]
fn paginate(items: &Vec<Vec<u8>>, room: usize) -> (r: Result<Vec<(usize, usize)>, usize>)
    requires
        items@.len() >= 1,
    ensures
        match r {
            Ok(b) => greedy_pages(
                items@.map_values(|v: Vec<u8>| v@),
                room as nat,
                b@.map_values(|p: (usize, usize)| (p.0 as int, p.1 as int)),
            ) && forall|j: int| 0 <= j < items@.len() ==> (#[trigger] items@[j])@.len() <= room,
            Err(i) => first_oversized(items@.map_values(|v: Vec<u8>| v@), room as nat, i as int),
        },
{
    let ghost its = items@.map_values(|v: Vec<u8>| v@);
    let mut bounds: Vec<(usize, usize)> = Vec::new();
    let mut start: usize = 0;
    let mut cur: usize = 0;
    let mut i: usize = 0;
    while i < items.len()
        invariant
            its == items@.map_values(|v: Vec<u8>| v@),
            its.len() >= 1,
            start <= i <= its.len(),
            i > 0 ==> start < i,
            cur == joined(its.subrange(start as int, i as int)).len(),
            cur <= room,
            forall|j: int| 0 <= j < i ==> (#[trigger] its[j]).len() <= room,
            bounds@.len() == 0 ==> start == 0,
            bounds@.len() > 0 ==> bounds@.last().1 == start,
            bounds@.len() > 0 ==> bounds@[0].0 == 0,
            forall|k: int|
                0 <= k < bounds@.len() ==> #[trigger] bounds@[k].0 < bounds@[k].1 && fits(
                    its,
                    bounds@[k].0 as int,
                    bounds@[k].1 as int,
                    room as nat,
                ),
            forall|k: int|
                0 <= k < bounds@.len() - 1 ==> #[trigger] bounds@[k].1 == bounds@[k + 1].0 && !fits(
                    its,
                    bounds@[k].0 as int,
                    bounds@[k].1 as int + 1,
                    room as nat,
                ),
            bounds@.len() > 0 ==> !fits(
                its,
                bounds@.last().0 as int,
                bounds@.last().1 as int + 1,
                room as nat,
            ),
        decreases its.len() - i,
    {
        let len = items[i].len();
        assert(its[i as int] == items@[i as int]@);
        if len > room {
            assert(forall|j: int| 0 <= j < i ==> (#[trigger] its[j]).len() <= room);
            return Err(i);
        }
        proof {
            assert(its.subrange(start as int, i + 1) =~= its.subrange(start as int, i as int).push(
                its[i as int],
            ));
            lemma_joined_push(its.subrange(start as int, i as int), its[i as int]);
        }
        if i > start && room - cur <= len {
            let ghost old_bounds = bounds@;
            bounds.push((start, i));
            proof {
                assert(its.subrange(i as int, i + 1) =~= seq![its[i as int]]);
                assert(bounds@.drop_last() == old_bounds);
                assert forall|k: int| 0 <= k < bounds@.len() - 1 implies #[trigger] bounds@[k].1
                    == bounds@[k + 1].0 && !fits(
                    its,
                    bounds@[k].0 as int,
                    bounds@[k].1 as int + 1,
                    room as nat,
                ) by {
                    if k < bounds@.len() - 2 {
                        assert(bounds@[k] == old_bounds[k]);
                        assert(bounds@[k + 1] == old_bounds[k + 1]);
                    } else {
                        assert(bounds@[k] == old_bounds.last());
                    }
                }
            }
            start = i;
            cur = len;
        } else if i > start {
            cur = cur + 1 + len;
        } else {
            cur = len;
        }
        i += 1;
    }
    let ghost old_bounds = bounds@;
    bounds.push((start, i));
    proof {
        let bs = bounds@.map_values(|p: (usize, usize)| (p.0 as int, p.1 as int));
        assert forall|k: int| 0 <= k < bs.len() - 1 implies #[trigger] bs[k].1 == bs[k + 1].0
            && !fits(its, bs[k].0, bs[k].1 + 1, room as nat) by {
            if k < bs.len() - 2 {
                assert(bounds@[k] == old_bounds[k]);
                assert(bounds@[k + 1] == old_bounds[k + 1]);
            } else {
                assert(bounds@[k] == old_bounds.last());
            }
        }
        assert forall|j: int| 0 <= j < items@.len() implies (#[trigger] items@[j])@.len() <= room by {
            assert(its[j] == items@[j]@);
        }
        assert forall|k: int| 0 <= k < bs.len() implies #[trigger] bs[k].0 < bs[k].1 && fits(
            its,
            bs[k].0,
            bs[k].1,
            room as nat,
        ) by {
            if k < bs.len() - 1 {
                assert(bounds@[k] == old_bounds[k]);
            }
        }
    }
    Ok(bounds)
}

proof fn lemma_estimate_at_most(n: nat, size: nat, room: nat)
    requires
        n >= 1,
    ensures
        page_estimate(n, size, room) <= n,
{
    let avg: int = if (size as int) / (n as int) >= 1 {
        (size as int) / (n as int)
    } else {
        1
    };
    let per: int = if (room as int) / (avg + 1) >= 1 {
        (room as int) / (avg + 1)
    } else {
        1
    };
    assert((n as int) / per + (if (n as int) % per != 0 {
        1int
    } else {
        0
    }) <= n) by (nonlinear_arith)
        requires
            per >= 1,
            n >= 1,
    {
        if per == 1 {
            assert((n as int) / per == n);
            assert((n as int) % per == 0);
        } else {
            assert((n as int) / per < n);
        }
    }
}

/// The estimate of the number of pages (see `page_estimate`).
fn estimate_pages(n: usize, size: usize, room: usize) -> (r: usize)
    requires
        n >= 1,
    ensures
        r == page_estimate(n as nat, size as nat, room as nat),
        r <= n,
{
    proof {
        lemma_estimate_at_most(n as nat, size as nat, room as nat);
    }
    let avg = if size / n >= 1 {
        size / n
    } else {
        1
    };
    let per = if avg >= room {
        assert(room as int / (avg + 1) == 0) by (nonlinear_arith)
            requires
                avg >= room,
                room >= 0,
        ;
        1
    } else if room / (avg + 1) >= 1 {
        room / (avg + 1)
    } else {
        1
    };
    n / per + if n % per != 0 {
        1
    } else {
        0
    }
}

/// A copy of a byte string.
fn copy_bytes(src: &Vec<u8>) -> (r: Vec<u8>)
    ensures
        r@ == src@,
{
    let mut out: Vec<u8> = Vec::new();
    push_bytes(&mut out, src);
    assert(out@ =~= src@);
    out
}

/// Appends the items `[s, e)` joined with commas.
fn push_joined(out: &mut Vec<u8>, items: &Vec<Vec<u8>>, s: usize, e: usize)
    requires
        s <= e <= items@.len(),
    ensures
        final(out)@ == old(out)@ + joined(
            items@.map_values(|v: Vec<u8>| v@).subrange(s as int, e as int),
        ),
{
    let ghost its = items@.map_values(|v: Vec<u8>| v@);
    let mut j: usize = s;
    while j < e
        invariant
            s <= j <= e <= items@.len(),
            its == items@.map_values(|v: Vec<u8>| v@),
            out@ == old(out)@ + joined(its.subrange(s as int, j as int)),
        decreases e - j,
    {
        let ghost before = out@;
        if j > s {
            out.push(44u8);
        }
        push_bytes(out, &items[j]);
        proof {
            let sub = its.subrange(s as int, j as int);
            assert(its.subrange(s as int, j + 1) =~= sub.push(its[j as int]));
            assert(sub.push(its[j as int]).drop_last() =~= sub);
            assert(its[j as int] == items@[j as int]@);
            if j > s {
                assert(out@ =~= old(out)@ + (joined(sub) + seq![44u8] + its[j as int]));
            } else {
                assert(sub =~= Seq::<Seq<u8>>::empty());
                assert(out@ =~= old(out)@ + its[j as int]);
            }
        }
        j += 1;
    }
}

/// Appends `page_head(rid, page, estimate)`.
fn push_page_head(out: &mut Vec<u8>, rid: &Vec<u8>, page: u64, estimate: u64)
    ensures
        final(out)@ == old(out)@ + page_head(rid@, page as nat, estimate as nat),
{
    proof {
        reveal_strlit("{\"type\":\"paginated\",\"request_id\":\"");
        reveal_strlit("\",\"page\":");
        reveal_strlit(",\"total_pages\":");
        reveal_strlit(",\"data\":[");
    }
    push_ascii(out, "{\"type\":\"paginated\",\"request_id\":\"");
    push_bytes(out, rid);
    push_ascii(out, "\",\"page\":");
    push_decimal(out, page);
    push_ascii(out, ",\"total_pages\":");
    push_decimal(out, estimate);
    push_ascii(out, ",\"data\":[");
    assert(final(out)@ =~= old(out)@ + page_head(rid@, page as nat, estimate as nat));
}

/// The text of one page.
fn render_page(rid: &Vec<u8>, page: u64, estimate: u64, items: &Vec<Vec<u8>>, s: usize, e: usize) -> (r: Vec<u8>)
    requires
        s <= e <= items@.len(),
    ensures
        r@ == page_body(
            rid@,
            page as nat,
            estimate as nat,
            items@.map_values(|v: Vec<u8>| v@).subrange(s as int, e as int),
        ),
{
    let mut out: Vec<u8> = Vec::new();
    push_page_head(&mut out, rid, page, estimate);
    push_joined(&mut out, items, s, e);
    proof {
        reveal_strlit("]}");
    }
    push_ascii(&mut out, "]}");
    assert(out@ =~= page_body(
        rid@,
        page as nat,
        estimate as nat,
        items@.map_values(|v: Vec<u8>| v@).subrange(s as int, e as int),
    ));
    out
}

/// The text of the summary.
fn render_summary(rid: &Vec<u8>, total_items: u64, total_pages: u64, original_size: u64, topic: &str) -> (r: Vec<u8>)
    ensures
        r@ == summary_body(
            rid@,
            total_items as nat,
            total_pages as nat,
            original_size as nat,
            topic@,
        ),
{
    proof {
        reveal_strlit("{\"type\":\"summary\",\"request_id\":\"");
        reveal_strlit("\",\"total_items\":");
        reveal_strlit(",\"total_pages\":");
        reveal_strlit(",\"original_size\":");
        reveal_strlit(",\"topic_base\":");
        reveal_strlit("}");
    }
    let mut out: Vec<u8> = Vec::new();
    push_ascii(&mut out, "{\"type\":\"summary\",\"request_id\":\"");
    push_bytes(&mut out, rid);
    push_ascii(&mut out, "\",\"total_items\":");
    push_decimal(&mut out, total_items);
    push_ascii(&mut out, ",\"total_pages\":");
    push_decimal(&mut out, total_pages);
    push_ascii(&mut out, ",\"original_size\":");
    push_decimal(&mut out, original_size);
    push_ascii(&mut out, ",\"topic_base\":");
    let quoted = json_string(topic);
    push_bytes(&mut out, &quoted);
    push_ascii(&mut out, "}");
    assert(out@ =~= summary_body(
        rid@,
        total_items as nat,
        total_pages as nat,
        original_size as nat,
        topic@,
    ));
    out
}

/// The JSON text of a whole payload.
pub fn whole_body(payload: &Payload) -> (r: Vec<u8>)
    ensures
        r@ == whole_text(*payload),
{
    match payload {
        Payload::Array(items) => {
            proof {
                reveal_strlit("[");
                reveal_strlit("]");
            }
            let mut out: Vec<u8> = Vec::new();
            push_ascii(&mut out, "[");
            push_joined(&mut out, items, 0, items.len());
            push_ascii(&mut out, "]");
            proof {
                let its = items@.map_values(|v: Vec<u8>| v@);
                assert(its.subrange(0, its.len() as int) =~= its);
                assert(out@ =~= whole_text(*payload));
            }
            out
        },
        Payload::Single(b) => copy_bytes(b),
    }
}

/// The topic of page `page`: `<topic>/page/<page>`.
fn make_page_topic(topic: &str, page: u64) -> (r: String)
    ensures
        r@ == page_topic(topic@, page as nat),
{
    let mut t = String::from_str(topic);
    proof {
        reveal_strlit("/page/");
    }
    t.append("/page/");
    append_decimal(&mut t, page);
    assert(t@ =~= page_topic(topic@, page as nat));
    t
}

/// The topic of the summary: `<topic>/summary`.
fn make_summary_topic(topic: &str) -> (r: String)
    ensures
        r@ == summary_topic(topic@),
{
    let mut t = String::from_str(topic);
    t.append("/summary");
    t
}

/// The pages and summary of a paged delivery of `items` (of whole size
/// `size`) on `topic`: the greedy cut with `room` bytes for items per page,
/// each page numbered from 1 and carrying the estimate of the number of pages,
/// then the summary with the actual number.
pub open spec fn paged_as(
    topic: Seq<char>,
    items: Seq<Seq<u8>>,
    size: nat,
    budget: nat,
    rid: Seq<u8>,
    room: nat,
    pages: Seq<Page>,
    summary: Message,
) -> bool {
    let est = page_estimate(items.len(), size, room);
    &&& greedy_pages(items, room, page_bounds(pages))
    &&& forall|k: int|
        0 <= k < pages.len() ==> {
            &&& (#[trigger] pages[k]).message.topic@ == page_topic(topic, (k + 1) as nat)
            &&& pages[k].message.body@ == page_body(
                rid,
                (k + 1) as nat,
                est,
                items.subrange(pages[k].start as int, pages[k].end as int),
            )
            &&& pages[k].message.body@.len() <= budget
        }
    &&& summary.topic@ == summary_topic(topic)
    &&& summary.body@ == summary_body(rid, items.len(), pages.len(), size, topic)
}

/// How `payload` is delivered on `topic` with at most `budget` bytes per
/// message, `rid` naming a paged delivery.
pub open spec fn delivered(
    topic: Seq<char>,
    payload: Payload,
    budget: nat,
    rid: Seq<u8>,
    r: Result<Delivery, PublishError>,
) -> bool {
    let items = payload_items(payload);
    let whole = whole_text(payload);
    if whole.len() <= budget {
        r matches Ok(Delivery::Whole(m)) && m.topic@ == topic && m.body@ == whole
    } else if page_overhead(rid, items.len()) >= budget {
        r == Err::<Delivery, PublishError>(PublishError::BudgetTooSmall)
    } else {
        let room = (budget - page_overhead(rid, items.len())) as nat;
        if exists|i: int| 0 <= i < items.len() && (#[trigger] items[i]).len() > room {
            r matches Err(PublishError::OversizedItem { index, size }) && first_oversized(
                items,
                room,
                index as int,
            ) && size == items[index as int].len()
        } else {
            r matches Ok(Delivery::Paged { pages, summary }) && paged_as(
                topic,
                items,
                whole.len(),
                budget,
                rid,
                room,
                pages@,
                summary,
            )
        }
    }
}

#[verifier::rlimit(50)]
fn plan_pages(
    topic: &str,
    items: &Vec<Vec<u8>>,
    size: usize,
    budget: usize,
    rid: &Vec<u8>,
    room: usize,
) -> (r: Result<Delivery, PublishError>)
    requires
        items@.len() >= 1,
        room + page_overhead(rid@, items@.len()) == budget,
    ensures
        ({
            let its = items@.map_values(|v: Vec<u8>| v@);
            if exists|i: int| 0 <= i < its.len() && (#[trigger] its[i]).len() > room {
                r matches Err(PublishError::OversizedItem { index, size }) && first_oversized(
                    its,
                    room as nat,
                    index as int,
                ) && size == its[index as int].len()
            } else {
                r matches Ok(Delivery::Paged { pages, summary }) && paged_as(
                    topic@,
                    its,
                    size as nat,
                    budget as nat,
                    rid@,
                    room as nat,
                    pages@,
                    summary,
                )
            }
        }),
{
    let ghost its = items@.map_values(|v: Vec<u8>| v@);
    let n = items.len();
    match paginate(items, room) {
        Err(i) => {
            assert(its[i as int] == items@[i as int]@);
            Err(PublishError::OversizedItem { index: i, size: items[i].len() })
        },
        Ok(bounds) => {
            let ghost bs = bounds@.map_values(|p: (usize, usize)| (p.0 as int, p.1 as int));
            assert(!exists|i: int| 0 <= i < its.len() && (#[trigger] its[i]).len() > room) by {
                assert forall|i: int| 0 <= i < its.len() implies (#[trigger] its[i]).len() <= room by {
                    assert(its[i] == items@[i]@);
                }
            }
            let est = estimate_pages(n, size, room);
            let mut pages: Vec<Page> = Vec::new();
            let mut k: usize = 0;
            while k < bounds.len()
                invariant
                    its == items@.map_values(|v: Vec<u8>| v@),
                    bs == bounds@.map_values(|p: (usize, usize)| (p.0 as int, p.1 as int)),
                    greedy_pages(its, room as nat, bs),
                    n == its.len(),
                    n >= 1,
                    est == page_estimate(n as nat, size as nat, room as nat),
                    est <= n,
                    room + page_overhead(rid@, n as nat) == budget,
                    k <= bounds@.len(),
                    pages@.len() == k,
                    forall|j: int|
                        0 <= j < k ==> {
                            &&& (#[trigger] pages@[j]).start == bounds@[j].0
                            &&& pages@[j].end == bounds@[j].1
                            &&& pages@[j].message.topic@ == page_topic(topic@, (j + 1) as nat)
                            &&& pages@[j].message.body@ == page_body(
                                rid@,
                                (j + 1) as nat,
                                est as nat,
                                its.subrange(pages@[j].start as int, pages@[j].end as int),
                            )
                            &&& pages@[j].message.body@.len() <= budget
                        },
                decreases bounds@.len() - k,
            {
                let (s, e) = bounds[k];
                proof {
                    assert(bs[k as int] == (s as int, e as int));
                    lemma_pages_at_most_items(n as nat, bs, k as int);
                    lemma_bounds_increase(n as nat, bs, k as int);
                    assert(s < e <= n);
                    assert(fits(its, s as int, e as int, room as nat));
                    lemma_decimal_len_mono((k + 1) as nat, n as nat);
                    lemma_decimal_len_mono(est as nat, n as nat);
                }
                let body = render_page(rid, (k + 1) as u64, est as u64, items, s, e);
                proof {
                    let sub = its.subrange(s as int, e as int);
                    reveal_strlit("]}");
                    assert(page_head(rid@, (k + 1) as nat, est as nat).len() <= page_head(
                        rid@,
                        n as nat,
                        n as nat,
                    ).len());
                    assert(joined(sub).len() <= room);
                    assert(body@.len() == page_head(rid@, (k + 1) as nat, est as nat).len()
                        + joined(sub).len() + 2);
                    assert(body@.len() <= budget);
                }
                let page_topic_text = make_page_topic(topic, (k + 1) as u64);
                pages.push(Page { start: s, end: e, message: Message { topic: page_topic_text, body } });
                k += 1;
            }
            let summary_text = render_summary(rid, n as u64, pages.len() as u64, size as u64, topic);
            let summary = Message { topic: make_summary_topic(topic), body: summary_text };
            proof {
                assert(page_bounds(pages@) =~= bs);
            }
            Ok(Delivery::Paged { pages, summary })
        },
    }
}

/// Plans the delivery of `payload` on `topic` with at most `budget` bytes per
/// message: the whole text in one message when it fits; otherwise pages named
/// by `request_id`, cut greedily and each within the budget, then one summary.
/// A payload with an item that no page can hold gives `OversizedItem` and no
/// message at all.
pub fn plan_publication(topic: &str, payload: &Payload, budget: usize, request_id: &Vec<u8>) -> (r:
    Result<Delivery, PublishError>)
    ensures
        delivered(topic@, *payload, budget as nat, request_id@, r),
{
    let whole = whole_body(payload);
    if whole.len() <= budget {
        return Ok(Delivery::Whole(Message { topic: String::from_str(topic), body: whole }));
    }
    let single: Vec<Vec<u8>>;
    let items: &Vec<Vec<u8>> = match payload {
        Payload::Array(v) => v,
        Payload::Single(b) => {
            single = vec![copy_bytes(b)];
            assert(single@.map_values(|v: Vec<u8>| v@) =~= seq![b@]);
            &single
        },
    };
    assert(items@.map_values(|v: Vec<u8>| v@) == payload_items(*payload));
    let n = items.len();
    let mut head: Vec<u8> = Vec::new();
    push_page_head(&mut head, request_id, n as u64, n as u64);
    if head.len() >= budget || budget - head.len() <= 2 {
        return Err(PublishError::BudgetTooSmall);
    }
    let room = budget - head.len() - 2;
    proof {
        if n == 0 {
            reveal_strlit("[");
            reveal_strlit("]");
            assert(whole@.len() == 2);
        }
    }
    plan_pages(topic, items, whole.len(), budget, request_id, room)
}

/// Plans the delivery of `payload` (see `plan_publication`), naming a paged
/// delivery with a fresh request identifier of 36 characters.
pub fn plan_delivery(topic: &str, payload: &Payload, budget: usize) -> (r: Result<
    Delivery,
    PublishError,
>)
    ensures
        exists|rid: Seq<u8>| is_hyphenated_uuid(rid) && delivered(topic@, *payload, budget as nat, rid, r),
{
    let rid = new_request_id();
    plan_publication(topic, payload, budget, &rid)
}

proof fn lemma_joined_holds_item(items: Seq<Seq<u8>>, i: int)
    requires
        0 <= i < items.len(),
    ensures
        joined(items).len() >= items[i].len(),
    decreases items.len(),
{
    if items.len() > 1 && i < items.len() - 1 {
        lemma_joined_holds_item(items.drop_last(), i);
    }
}

/// A delivery is one message when the payload's text fits the budget, and
/// otherwise at least one page and one summary, where the pages, taken in
/// order, hold exactly the payload's items.
pub proof fn lemma_delivery_shape(
    topic: Seq<char>,
    payload: Payload,
    budget: nat,
    rid: Seq<u8>,
    r: Result<Delivery, PublishError>,
)
    requires
        delivered(topic, payload, budget, rid, r),
        r is Ok,
    ensures
        whole_text(payload).len() <= budget ==> r matches Ok(Delivery::Whole(_)),
        whole_text(payload).len() > budget ==> (r matches Ok(Delivery::Paged { pages, summary })
            && pages@.len() >= 1 && concat_pages(payload_items(payload), page_bounds(pages@))
            == payload_items(payload)),
{
    if whole_text(payload).len() > budget {
        let items = payload_items(payload);
        if let Ok(Delivery::Paged { pages, summary }) = r {
            lemma_pages_reassemble(items, page_bounds(pages@));
        }
    }
}

/// A payload with an item whose own text exceeds the budget is refused as a
/// whole, with no message at all; the refusal names the oversized item unless
/// not even an empty page fits the budget.
pub proof fn lemma_oversized_item_refused(
    topic: Seq<char>,
    payload: Payload,
    budget: nat,
    rid: Seq<u8>,
    r: Result<Delivery, PublishError>,
    i: int,
)
    requires
        delivered(topic, payload, budget, rid, r),
        0 <= i < payload_items(payload).len(),
        payload_items(payload)[i].len() > budget,
    ensures
        r is Err,
        page_overhead(rid, payload_items(payload).len()) < budget ==> r matches Err(
            PublishError::OversizedItem { .. },
        ),
        rid.len() == 36 && budget == MAX_MESSAGE_SIZE && payload_items(payload).len() <= u64::MAX
            ==> r matches Err(PublishError::OversizedItem { .. }),
{
    if rid.len() == 36 && budget == MAX_MESSAGE_SIZE && payload_items(payload).len() <= u64::MAX {
        lemma_page_overhead_bound(rid, payload_items(payload).len());
    }
    let items = payload_items(payload);
    match payload {
        Payload::Array(_) => {
            lemma_joined_holds_item(items, i);
        },
        Payload::Single(_) => {},
    }
}

/// Ten to the power `k`.
pub open spec fn pow10(k: nat) -> nat
    decreases k,
{
    if k == 0 {
        1
    } else {
        10 * pow10((k - 1) as nat)
    }
}

proof fn lemma_decimal_len_bound(n: nat, k: nat)
    requires
        k >= 1,
        n < pow10(k),
    ensures
        decimal(n).len() <= k,
    decreases k,
{
    if n >= 10 {
        if k == 1 {
            assert(pow10(1) == 10 * pow10(0));
        } else {
            let p = pow10((k - 1) as nat);
            assert(n / 10 < p) by (nonlinear_arith)
                requires
                    n < 10 * p,
            ;
            lemma_decimal_len_bound(n / 10, (k - 1) as nat);
        }
    }
}

/// With a request identifier of 36 bytes, the bytes a page needs besides its
/// items are at most 145 for any number of items that fits a `u64`, well
/// within the broker's message size.
pub proof fn lemma_page_overhead_bound(rid: Seq<u8>, n: nat)
    requires
        rid.len() == 36,
        n <= u64::MAX,
    ensures
        page_overhead(rid, n) <= 145,
        page_overhead(rid, n) < MAX_MESSAGE_SIZE,
{
    reveal_with_fuel(pow10, 21);
    assert(n < pow10(20));
    lemma_decimal_len_bound(n, 20);
    reveal_strlit("{\"type\":\"paginated\",\"request_id\":\"");
    reveal_strlit("\",\"page\":");
    reveal_strlit(",\"total_pages\":");
    reveal_strlit(",\"data\":[");
}

/// A payload whose text does not fit the budget, but each of whose items fits
/// a page on its own, is delivered as at least one page and one summary: the
/// pages, in order, hold exactly the payload's items, each page within the
/// budget. At the broker's size with a 36-byte request identifier the room
/// condition is that of `lemma_page_overhead_bound`.
pub proof fn lemma_paged_when_items_fit(
    topic: Seq<char>,
    payload: Payload,
    budget: nat,
    rid: Seq<u8>,
    r: Result<Delivery, PublishError>,
)
    requires
        delivered(topic, payload, budget, rid, r),
        whole_text(payload).len() > budget,
        page_overhead(rid, payload_items(payload).len()) < budget,
        forall|i: int|
            0 <= i < payload_items(payload).len() ==> (#[trigger] payload_items(payload)[i]).len()
                <= budget - page_overhead(rid, payload_items(payload).len()),
    ensures
        r matches Ok(Delivery::Paged { pages, summary }) && pages@.len() >= 1 && concat_pages(
            payload_items(payload),
            page_bounds(pages@),
        ) == payload_items(payload) && forall|k: int|
            0 <= k < pages@.len() ==> (#[trigger] pages@[k]).message.body@.len() <= budget,
{
    let items = payload_items(payload);
    let room = (budget - page_overhead(rid, items.len())) as nat;
    assert(!exists|i: int| 0 <= i < items.len() && (#[trigger] items[i]).len() > room);
    if let Ok(Delivery::Paged { pages, summary }) = r {
        lemma_pages_reassemble(items, page_bounds(pages@));
    }
}

} // verus!
