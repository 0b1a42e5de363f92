//! Finding events in the log of a transaction. An event is logged as a line that
//! starts with `Program data: `, followed by its discriminator and its payload in
//! base64.

use vstd::prelude::*;

verus! {

/// The characters with the Unicode property `White_Space`.
pub open spec fn is_white_space(c: char) -> bool {
    let u = c as u32;
    ||| 0x9 <= u <= 0xd
    ||| u == 0x20
    ||| u == 0x85
    ||| u == 0xa0
    ||| u == 0x1680
    ||| 0x2000 <= u <= 0x200a
    ||| u == 0x2028
    ||| u == 0x2029
    ||| u == 0x202f
    ||| u == 0x205f
    ||| u == 0x3000
}

/// A text without the white space at its start.
pub open spec fn without_leading_space(text: Seq<char>) -> Seq<char>
    decreases text.len(),
{
    if text.len() > 0 && is_white_space(text[0]) {
        without_leading_space(text.skip(1))
    } else {
        text
    }
}

/// A text without the white space at its end.
pub open spec fn without_trailing_space(text: Seq<char>) -> Seq<char>
    decreases text.len(),
{
    if text.len() > 0 && is_white_space(text.last()) {
        without_trailing_space(text.drop_last())
    } else {
        text
    }
}

/// A text without the white space at its ends.
pub open spec fn trimmed_text(text: Seq<char>) -> Seq<char> {
    without_trailing_space(without_leading_space(text))
}

/// The bytes that a text in standard base64 stands for; `None` if it is not in it.
pub uninterp spec fn base64_bytes(text: Seq<char>) -> Option<Seq<u8>>;

/// `str::trim`: the text without the white space at its ends, where white space is
/// what has the Unicode property `White_Space`.
#[verifier::external_body]
fn trim_text<'a>(text: &'a str) -> (r: &'a str)
    ensures
        r@ == trimmed_text(text@),
{
    text.trim()
}

/// `str::strip_prefix`: what follows the prefix, if the text starts with it.
#[verifier::external_body]
fn strip_text_prefix<'a>(text: &'a str, prefix: &str) -> (r: Option<&'a str>)
    ensures
        match r {
            Some(rest) => text@ == prefix@ + rest@,
            None => !prefix@.is_prefix_of(text@),
        },
{
    text.strip_prefix(prefix)
}

/// `base64::engine::general_purpose::STANDARD.decode`: the bytes that the text
/// stands for in the standard alphabet with padding, or `None` where it is not
/// valid. It depends on the text alone.
#[verifier::external_body]
fn decode_base64(text: &str) -> (r: Option<Vec<u8>>)
    ensures
        match r {
            Some(bytes) => base64_bytes(text@) == Some(bytes@),
            None => base64_bytes(text@) is None,
        },
{
    base64::Engine::decode(&base64::engine::general_purpose::STANDARD, text).ok()
}

/// What stands before an event in the log.
pub open spec fn data_prefix() -> Seq<char> {
    "Program data: "@
}

/// What a line of the log holds of an event; `None` if it does not hold one.
pub open spec fn line_blob(line: Seq<char>) -> Option<Seq<u8>> {
    if data_prefix().is_prefix_of(line) {
        base64_bytes(trimmed_text(line.skip(data_prefix().len() as int)))
    } else {
        None
    }
}

/// What the first `n` lines of the log hold of events.
pub open spec fn blobs_of(logs: Seq<String>, n: int) -> Seq<Seq<u8>>
    decreases n,
{
    if n <= 0 {
        Seq::empty()
    } else {
        match line_blob(logs[n - 1]@) {
            Some(blob) => blobs_of(logs, n - 1).push(blob),
            None => blobs_of(logs, n - 1),
        }
    }
}

/// The contents of some byte strings.
pub open spec fn bytes_view(blobs: Seq<Vec<u8>>) -> Seq<Seq<u8>> {
    Seq::new(blobs.len(), |i: int| blobs[i]@)
}

fn blob_of_line(line: &String) -> (r: Option<Vec<u8>>)
    ensures
        match r {
            Some(blob) => line_blob(line@) == Some(blob@),
            None => line_blob(line@) is None,
        },
{
    match strip_text_prefix(line.as_str(), "Program data: ") {
        None => None,
        Some(rest) => {
            assert(line@.skip(data_prefix().len() as int) =~= rest@);
            assert(data_prefix().is_prefix_of(line@));
            decode_base64(trim_text(rest))
        },
    }
}

/// What the log holds of events, in the order of its lines.
pub fn decoded_event_blobs(logs: &Vec<String>) -> (r: Vec<Vec<u8>>)
    ensures
        bytes_view(r@) == blobs_of(logs@, logs@.len() as int),
{
    let mut blobs: Vec<Vec<u8>> = Vec::new();
    let mut i: usize = 0;
    assert(bytes_view(blobs@) =~= Seq::<Seq<u8>>::empty());
    while i < logs.len()
        invariant
            i <= logs@.len(),
            bytes_view(blobs@) == blobs_of(logs@, i as int),
        decreases logs@.len() - i,
    {
        match blob_of_line(&logs[i]) {
            Some(blob) => {
                let ghost before = blobs@;
                blobs.push(blob);
                assert(bytes_view(blobs@) =~= bytes_view(before).push(blob@));
            },
            None => {},
        }
        i = i + 1;
    }
    blobs
}

/// The payload of an event with the given discriminator; `None` if it is another
/// event, or too short for one.
pub open spec fn payload_of(blob: Seq<u8>, discriminator: Seq<u8>) -> Option<Seq<u8>> {
    if blob.len() >= 8 && blob.take(8) == discriminator {
        Some(blob.skip(8))
    } else {
        None
    }
}

/// The payload of an event with the given discriminator; `None` if it is another
/// event, or too short for one.
pub fn try_decode(blob: &Vec<u8>, discriminator: &Vec<u8>) -> (r: Option<Vec<u8>>)
    ensures
        match r {
            Some(payload) => payload_of(blob@, discriminator@) == Some(payload@),
            None => payload_of(blob@, discriminator@) is None,
        },
{
    if blob.len() < 8 || discriminator.len() != 8 {
        return None;
    }
    let mut i: usize = 0;
    while i < 8
        invariant
            i <= 8,
            blob@.len() >= 8,
            discriminator@.len() == 8,
            forall|j: int| 0 <= j < i ==> blob@[j] == discriminator@[j],
        decreases 8 - i,
    {
        if blob[i] != discriminator[i] {
            assert(blob@.take(8)[i as int] != discriminator@[i as int]);
            return None;
        }
        i = i + 1;
    }
    assert(blob@.take(8) =~= discriminator@);
    let mut payload: Vec<u8> = Vec::new();
    let mut k: usize = 8;
    while k < blob.len()
        invariant
            8 <= k <= blob@.len(),
            payload@ == blob@.subrange(8, k as int),
        decreases blob@.len() - k,
    {
        payload.push(blob[k]);
        assert(payload@ =~= blob@.subrange(8, k + 1));
        k = k + 1;
    }
    assert(payload@ =~= blob@.skip(8));
    Some(payload)
}

/// The payloads of the events with the given discriminator among the first `n`.
pub open spec fn payloads_of(blobs: Seq<Seq<u8>>, discriminator: Seq<u8>, n: int) -> Seq<Seq<u8>>
    decreases n,
{
    if n <= 0 {
        Seq::empty()
    } else {
        match payload_of(blobs[n - 1], discriminator) {
            Some(payload) => payloads_of(blobs, discriminator, n - 1).push(payload),
            None => payloads_of(blobs, discriminator, n - 1),
        }
    }
}

/// The payloads of the events with the given discriminator in a log.
pub open spec fn logged_payloads(logs: Seq<String>, discriminator: Seq<u8>) -> Seq<Seq<u8>> {
    let blobs = blobs_of(logs, logs.len() as int);
    payloads_of(blobs, discriminator, blobs.len() as int)
}

/// The payloads of the events with the given discriminator, in the order in which
/// they were logged.
fn find_payloads(logs: &Vec<String>, discriminator: &Vec<u8>) -> (r: Vec<Vec<u8>>)
    ensures
        bytes_view(r@) == logged_payloads(logs@, discriminator@),
{
    let blobs: Vec<Vec<u8>> = decoded_event_blobs(logs);
    let mut payloads: Vec<Vec<u8>> = Vec::new();
    let mut i: usize = 0;
    assert(bytes_view(payloads@) =~= Seq::<Seq<u8>>::empty());
    while i < blobs.len()
        invariant
            i <= blobs@.len(),
            bytes_view(payloads@) == payloads_of(bytes_view(blobs@), discriminator@, i as int),
        decreases blobs@.len() - i,
    {
        match try_decode(&blobs[i], discriminator) {
            Some(payload) => {
                let ghost before = payloads@;
                payloads.push(payload);
                assert(bytes_view(payloads@) =~= bytes_view(before).push(payload@));
            },
            None => {},
        }
        i = i + 1;
    }
    payloads
}

/// A payload can be read as `outcome`; `None` if it cannot be read.
pub open spec fn reads_as<T, F: Fn(&Vec<u8>) -> Option<T>>(read: F, payload: Seq<u8>, outcome: Option<T>) -> bool {
    exists|bytes: Vec<u8>| bytes@ == payload && #[trigger] call_ensures(read, (&bytes,), outcome)
}

/// Each payload can be read as the outcome at its place.
pub open spec fn all_read_as<T, F: Fn(&Vec<u8>) -> Option<T>>(
    read: F,
    payloads: Seq<Seq<u8>>,
    outcomes: Seq<Option<T>>,
) -> bool {
    &&& outcomes.len() == payloads.len()
    &&& forall|i: int| 0 <= i < payloads.len() ==> reads_as(read, payloads[i], #[trigger] outcomes[i])
}

/// The events among some outcomes, in their order.
pub open spec fn events_among<T>(outcomes: Seq<Option<T>>) -> Seq<T>
    decreases outcomes.len(),
{
    if outcomes.len() == 0 {
        Seq::empty()
    } else {
        match outcomes.last() {
            Some(event) => events_among(outcomes.drop_last()).push(event),
            None => events_among(outcomes.drop_last()),
        }
    }
}

/// The events with the given discriminator, in the order in which they were logged.
/// A payload that `read` cannot read is passed over.
pub fn parse_all_events<T, F: Fn(&Vec<u8>) -> Option<T>>(logs: &Vec<String>, discriminator: &Vec<u8>, read: F) -> (r:
    Vec<T>)
    requires
        forall|payload: &Vec<u8>| call_requires(read, (payload,)),
    ensures
        exists|outcomes: Seq<Option<T>>| #[trigger]
            all_read_as(read, logged_payloads(logs@, discriminator@), outcomes) && r@ == events_among(outcomes),
{
    let payloads: Vec<Vec<u8>> = find_payloads(logs, discriminator);
    let mut events: Vec<T> = Vec::new();
    let ghost mut outcomes: Seq<Option<T>> = Seq::empty();
    let mut i: usize = 0;
    while i < payloads.len()
        invariant
            forall|payload: &Vec<u8>| call_requires(read, (payload,)),
            i <= payloads@.len(),
            outcomes.len() == i,
            forall|j: int| 0 <= j < i ==> reads_as(read, payloads@[j]@, #[trigger] outcomes[j]),
            events@ == events_among(outcomes),
        decreases payloads@.len() - i,
    {
        let outcome = read(&payloads[i]);
        proof {
            assert(reads_as(read, payloads@[i as int]@, outcome));
            assert(outcomes.push(outcome).drop_last() =~= outcomes);
            outcomes = outcomes.push(outcome);
        }
        if let Some(event) = outcome {
            events.push(event);
        }
        i = i + 1;
    }
    assert(all_read_as(read, bytes_view(payloads@), outcomes));
    events
}

/// The first event with the given discriminator that `read` can read.
pub fn parse_event<T, F: Fn(&Vec<u8>) -> Option<T>>(logs: &Vec<String>, discriminator: &Vec<u8>, read: F) -> (r:
    Option<T>)
    requires
        forall|payload: &Vec<u8>| call_requires(read, (payload,)),
    ensures
        exists|outcomes: Seq<Option<T>>| #[trigger]
            all_read_as(read, logged_payloads(logs@, discriminator@), outcomes) && match r {
                Some(event) => events_among(outcomes).len() > 0 && event == events_among(outcomes)[0],
                None => events_among(outcomes).len() == 0,
            },
{
    let mut events: Vec<T> = parse_all_events(logs, discriminator, read);
    if events.len() == 0 {
        None
    } else {
        Some(events.remove(0))
    }
}

/// Whether an event with the given discriminator that `read` can read was logged.
pub fn has_event<T, F: Fn(&Vec<u8>) -> Option<T>>(logs: &Vec<String>, discriminator: &Vec<u8>, read: F) -> (r: bool)
    requires
        forall|payload: &Vec<u8>| call_requires(read, (payload,)),
    ensures
        exists|outcomes: Seq<Option<T>>| #[trigger]
            all_read_as(read, logged_payloads(logs@, discriminator@), outcomes) && r == (events_among(outcomes).len()
                > 0),
{
    parse_event(logs, discriminator, read).is_some()
}

/// Only white space, if anything.
pub open spec fn is_blank(text: Seq<char>) -> bool {
    forall|i: int| 0 <= i < text.len() ==> is_white_space(#[trigger] text[i])
}

proof fn lemma_leading_space(lead: Seq<char>, rest: Seq<char>)
    requires
        is_blank(lead),
        rest.len() == 0 || !is_white_space(rest[0]),
    ensures
        without_leading_space(lead + rest) == rest,
    decreases lead.len(),
{
    if lead.len() > 0 {
        assert((lead + rest)[0] == lead[0]);
        assert((lead + rest).skip(1) =~= lead.skip(1) + rest);
        lemma_leading_space(lead.skip(1), rest);
    } else {
        assert(lead + rest =~= rest);
    }
}

proof fn lemma_trailing_space(rest: Seq<char>, trail: Seq<char>)
    requires
        is_blank(trail),
        rest.len() == 0 || !is_white_space(rest.last()),
    ensures
        without_trailing_space(rest + trail) == rest,
    decreases trail.len(),
{
    if trail.len() > 0 {
        assert((rest + trail).last() == trail.last());
        assert((rest + trail).drop_last() =~= rest + trail.drop_last());
        assert(is_blank(trail.drop_last())) by {
            assert forall|i: int| 0 <= i < trail.drop_last().len() implies is_white_space(
                #[trigger] trail.drop_last()[i],
            ) by {
                assert(trail.drop_last()[i] == trail[i]);
            }
        }
        lemma_trailing_space(rest, trail.drop_last());
    } else {
        assert(rest + trail =~= rest);
    }
}

/// A log that goes on with a line holds what it held before, and behind it what the line
/// holds: the bytes that stand in base64 between white space behind `Program data: `. Any
/// other line adds nothing.
pub proof fn a_line_adds_what_it_holds(
    logs: Vec<String>,
    more: Vec<String>,
    lead: Seq<char>,
    text: Seq<char>,
    trail: Seq<char>,
    blobs: Vec<Vec<u8>>,
    r: Vec<Vec<u8>>,
)
    requires
        more@.len() == logs@.len() + 1,
        more@.drop_last() == logs@,
        call_ensures(decoded_event_blobs, (&logs,), blobs),
        call_ensures(decoded_event_blobs, (&more,), r),
        is_blank(lead),
        is_blank(trail),
        text.len() == 0 || !is_white_space(text[0]) && !is_white_space(text.last()),
        text.len() == 0 ==> lead.len() == 0 && trail.len() == 0,
    ensures
        more@.last()@ == "Program data: "@ + (lead + text + trail) ==> match base64_bytes(text) {
            Some(bytes) => bytes_view(r@) == bytes_view(blobs@).push(bytes),
            None => bytes_view(r@) == bytes_view(blobs@),
        },
        !"Program data: "@.is_prefix_of(more@.last()@) ==> bytes_view(r@) == bytes_view(blobs@),
{
    let n = logs@.len() as int;
    lemma_blobs_of_prefix(logs@, more@, n);
    assert(blobs_of(more@, n + 1) == match line_blob(more@[n]@) {
        Some(blob) => blobs_of(more@, n).push(blob),
        None => blobs_of(more@, n),
    });
    let line = more@.last()@;
    if line == "Program data: "@ + (lead + text + trail) {
        assert(line.skip(data_prefix().len() as int) =~= lead + (text + trail));
        assert(data_prefix().is_prefix_of(line));
        if text.len() > 0 {
            assert((text + trail)[0] == text[0]);
        } else {
            assert(text + trail =~= text);
        }
        lemma_leading_space(lead, text + trail);
        lemma_trailing_space(text, trail);
    }
}

proof fn lemma_blobs_of_prefix(logs: Seq<String>, more: Seq<String>, n: int)
    requires
        0 <= n <= logs.len(),
        more.len() == logs.len() + 1,
        more.drop_last() == logs,
    ensures
        blobs_of(more, n) == blobs_of(logs, n),
    decreases n,
{
    if n > 0 {
        lemma_blobs_of_prefix(logs, more, n - 1);
        assert(more.drop_last()[n - 1] == more[n - 1]);
    }
}

/// An empty log holds no events.
pub proof fn an_empty_log_holds_nothing(logs: Vec<String>, r: Vec<Vec<u8>>)
    requires
        logs@.len() == 0,
        call_ensures(decoded_event_blobs, (&logs,), r),
    ensures
        r@.len() == 0,
{
    assert(bytes_view(r@).len() == 0);
}

/// An event is the one looked for if it starts with the eight bytes of the discriminator;
/// what follows is its payload.
pub proof fn payload_follows_the_discriminator(blob: Vec<u8>, discriminator: Vec<u8>, r: Option<Vec<u8>>)
    requires
        call_ensures(try_decode, (&blob, &discriminator), r),
    ensures
        r is Some <==> blob@.len() >= 8 && discriminator@.len() == 8 && forall|i: int|
            0 <= i < 8 ==> blob@[i] == #[trigger] discriminator@[i],
        r matches Some(payload) ==> blob@ == discriminator@ + payload@,
{
    if blob@.len() >= 8 && discriminator@.len() == 8 && forall|i: int|
        0 <= i < 8 ==> blob@[i] == #[trigger] discriminator@[i] {
        assert(blob@.take(8) =~= discriminator@);
    }
    if r is Some {
        assert(blob@.take(8).len() == 8);
        assert forall|i: int| 0 <= i < 8 implies blob@[i] == #[trigger] discriminator@[i] by {
            assert(blob@.take(8)[i] == blob@[i]);
        }
        assert(blob@ =~= discriminator@ + r->Some_0@);
    }
}

/// What a blob holds of the events looked for.
pub open spec fn event_in<T>(blob: Seq<u8>, discriminator: Seq<u8>, meaning: spec_fn(Seq<u8>) -> Option<T>) -> Option<T> {
    if blob.len() >= 8 && discriminator == blob.take(8) {
        meaning(blob.skip(8))
    } else {
        None
    }
}

/// The events among what some blobs hold.
pub open spec fn events_in<T>(
    blobs: Seq<Seq<u8>>,
    discriminator: Seq<u8>,
    meaning: spec_fn(Seq<u8>) -> Option<T>,
) -> Seq<Option<T>> {
    blobs.map_values(|blob: Seq<u8>| event_in(blob, discriminator, meaning)).filter(|event: Option<T>| event is Some)
}

proof fn lemma_events_in<T>(
    blobs: Seq<Seq<u8>>,
    discriminator: Seq<u8>,
    meaning: spec_fn(Seq<u8>) -> Option<T>,
    n: int,
)
    requires
        0 <= n <= blobs.len(),
    ensures
        ({
            let found = events_in(blobs.take(n), discriminator, meaning);
            let events = events_among(payloads_of(blobs, discriminator, n).map_values(meaning));
            &&& found.len() == events.len()
            &&& forall|i: int| 0 <= i < events.len() ==> found[i] == Some(#[trigger] events[i])
        }),
    decreases n,
{
    reveal(Seq::filter);
    let held = |blob: Seq<u8>| event_in(blob, discriminator, meaning);
    let some = |event: Option<T>| event is Some;
    if n > 0 {
        lemma_events_in(blobs, discriminator, meaning, n - 1);
        let (now, before) = (blobs.take(n).map_values(held), blobs.take(n - 1).map_values(held));
        assert(now.drop_last() =~= before);
        assert(now.last() == held(blobs[n - 1]));
        let payloads = payloads_of(blobs, discriminator, n - 1);
        match payload_of(blobs[n - 1], discriminator) {
            Some(payload) => {
                let outcomes = payloads.push(payload).map_values(meaning);
                assert(outcomes.drop_last() =~= payloads.map_values(meaning));
                assert(outcomes.last() == meaning(payload));
            },
            None => {},
        }
    } else {
        assert(blobs.take(0).map_values(held).len() == 0);
        assert(payloads_of(blobs, discriminator, 0).map_values(meaning).len() == 0);
    }
}

/// All events of a kind are found, in their order, and nothing else: those that start with
/// the discriminator and whose payload the reader can make out.
pub proof fn all_events_of_a_kind_are_found<T, F: Fn(&Vec<u8>) -> Option<T>>(
    logs: Vec<String>,
    discriminator: Vec<u8>,
    read: F,
    meaning: spec_fn(Seq<u8>) -> Option<T>,
    blobs: Vec<Vec<u8>>,
    r: Vec<T>,
)
    requires
        forall|bytes: Vec<u8>, outcome: Option<T>| #[trigger]
            call_ensures(read, (&bytes,), outcome) ==> outcome == meaning(bytes@),
        call_ensures(decoded_event_blobs, (&logs,), blobs),
        call_ensures(parse_all_events::<T, F>, (&logs, &discriminator, read), r),
    ensures
        ({
            let found = events_in(bytes_view(blobs@), discriminator@, meaning);
            &&& r@.len() == found.len()
            &&& forall|i: int| 0 <= i < r@.len() ==> found[i] == Some(#[trigger] r@[i])
        }),
{
    let payloads = logged_payloads(logs@, discriminator@);
    let outcomes = choose|outcomes: Seq<Option<T>>| #[trigger]
        all_read_as(read, payloads, outcomes) && r@ == events_among(outcomes);
    lemma_outcomes(read, payloads, outcomes, meaning);
    let all = bytes_view(blobs@);
    assert(all.take(all.len() as int) =~= all);
    lemma_events_in(all, discriminator@, meaning, all.len() as int);
}

proof fn lemma_outcomes<T, F: Fn(&Vec<u8>) -> Option<T>>(
    read: F,
    payloads: Seq<Seq<u8>>,
    outcomes: Seq<Option<T>>,
    meaning: spec_fn(Seq<u8>) -> Option<T>,
)
    requires
        forall|bytes: Vec<u8>, outcome: Option<T>| #[trigger]
            call_ensures(read, (&bytes,), outcome) ==> outcome == meaning(bytes@),
        all_read_as(read, payloads, outcomes),
    ensures
        outcomes == payloads.map_values(meaning),
{
    assert forall|i: int| 0 <= i < payloads.len() implies #[trigger] outcomes[i] == meaning(payloads[i]) by {
        assert(reads_as(read, payloads[i], outcomes[i]));
    }
    assert(outcomes =~= payloads.map_values(meaning));
}

/// The event that is found is the first of all that are, and there is one exactly if there
/// are any.
pub proof fn the_first_event_is_found<T, F: Fn(&Vec<u8>) -> Option<T>>(
    logs: Vec<String>,
    discriminator: Vec<u8>,
    read: F,
    meaning: spec_fn(Seq<u8>) -> Option<T>,
    all: Vec<T>,
    first: Option<T>,
    any: bool,
)
    requires
        forall|bytes: Vec<u8>, outcome: Option<T>| #[trigger]
            call_ensures(read, (&bytes,), outcome) ==> outcome == meaning(bytes@),
        call_ensures(parse_all_events::<T, F>, (&logs, &discriminator, read), all),
        call_ensures(parse_event::<T, F>, (&logs, &discriminator, read), first),
        call_ensures(has_event::<T, F>, (&logs, &discriminator, read), any),
    ensures
        any <==> all@.len() > 0,
        all@.len() > 0 ==> first == Some(all@[0]),
        all@.len() == 0 ==> first is None,
{
    let payloads = logged_payloads(logs@, discriminator@);
    let a = choose|outcomes: Seq<Option<T>>| #[trigger]
        all_read_as(read, payloads, outcomes) && all@ == events_among(outcomes);
    lemma_outcomes(read, payloads, a, meaning);
    let b = choose|outcomes: Seq<Option<T>>| #[trigger]
        all_read_as(read, payloads, outcomes) && match first {
            Some(event) => events_among(outcomes).len() > 0 && event == events_among(outcomes)[0],
            None => events_among(outcomes).len() == 0,
        };
    lemma_outcomes(read, payloads, b, meaning);
    let c = choose|outcomes: Seq<Option<T>>| #[trigger]
        all_read_as(read, payloads, outcomes) && any == (events_among(outcomes).len() > 0);
    lemma_outcomes(read, payloads, c, meaning);
}

} // verus!
