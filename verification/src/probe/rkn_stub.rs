//! Recognising the block pages that stand in for a restricted site.

use super::config::ProbeConfig;
use crate::probe::letters;
use crate::probe::letters::lower_case;
use crate::text;
use vstd::prelude::*;
use vstd::string::*;

verus! {

// ---------------------------------------------------------------------------
// Block pages
// ---------------------------------------------------------------------------

/// `body` holds one of `stubs`, whatever the case of the letters. An empty body
/// is no block page.
pub open spec fn holds_stub(body: Seq<u8>, stubs: Seq<Seq<char>>) -> bool {
    body.len() > 0 && exists|k: int|
        0 <= k < stubs.len() && text::occurs_in(
            letters::lowered(body),
            letters::lowered(vstd::utf8::encode_utf8(#[trigger] stubs[k])),
        )
}

/// The texts that give the known block pages away.
pub open spec fn default_stub_texts() -> Seq<Seq<char>> {
    seq![
        "роскомнадзор"@,
        "poiskman"@,
        "blockpage"@,
        "заблокир"@,
        "ограничен"@,
        "restricted"@,
        "roskomsvoboda"@,
        "internet-zapret"@,
        "technique-of-blocking"@,
        "decision of"@,
    ]
}

/// The texts that give the known block pages away.
pub fn default_rkn_stubs() -> (stubs: Vec<String>)
    ensures
        text::texts(stubs@) == default_stub_texts(),
{
    let mut stubs: Vec<String> = Vec::new();
    stubs.push("роскомнадзор".to_string());
    stubs.push("poiskman".to_string());
    stubs.push("blockpage".to_string());
    stubs.push("заблокир".to_string());
    stubs.push("ограничен".to_string());
    stubs.push("restricted".to_string());
    stubs.push("roskomsvoboda".to_string());
    stubs.push("internet-zapret".to_string());
    stubs.push("technique-of-blocking".to_string());
    stubs.push("decision of".to_string());
    assert(text::texts(stubs@) =~= default_stub_texts());
    stubs
}

/// Whether `body` holds one of `stubs`.
fn holds_any(body: &[u8], stubs: &Vec<String>) -> (found: bool)
    ensures
        found == holds_stub(body@, text::texts(stubs@)),
{
    if body.is_empty() {
        return false;
    }
    let lower = lower_case(body);
    let mut k: usize = 0;
    while k < stubs.len()
        invariant
            body@.len() > 0,
            lower@ == letters::lowered(body@),
            k <= stubs@.len(),
            forall|j: int|
                0 <= j < k ==> !text::occurs_in(
                    letters::lowered(body@),
                    letters::lowered(vstd::utf8::encode_utf8(#[trigger] text::texts(stubs@)[j])),
                ),
        decreases stubs@.len() - k,
    {
        let stub = lower_case(stubs[k].as_str().as_bytes());
        assert(text::texts(stubs@)[k as int] == stubs@[k as int]@);
        if contains_subsequence(lower.as_slice(), stub.as_slice()) {
            return true;
        }
        k += 1;
    }
    false
}

/// Whether an HTTP body is a block page, by the texts of the configuration.
/// The case of the letters does not count, for all letters below U+10000 but
/// the few whose lower case takes another number of bytes, such as U+0130; see
/// [`letters::lower_code`].
pub fn is_rkn_stub(body: &[u8], config: &ProbeConfig) -> (found: bool)
    ensures
        found == holds_stub(body@, text::texts(config.rkn_stub_substrings@)),
{
    holds_any(body, &config.rkn_stub_substrings)
}

/// Whether an HTTP body is a block page, by the known texts.
pub fn is_rkn_stub_default(body: &[u8]) -> (found: bool)
    ensures
        found == holds_stub(body@, default_stub_texts()),
{
    let stubs = default_rkn_stubs();
    holds_any(body, &stubs)
}

/// Whether `needle` stands somewhere in `haystack`.
pub fn contains_subsequence(haystack: &[u8], needle: &[u8]) -> (found: bool)
    ensures
        found == text::occurs_in(haystack@, needle@),
{
    if needle.len() > haystack.len() {
        return false;
    }
    let last: usize = haystack.len() - needle.len();
    let mut i: usize = 0;
    loop
        invariant
            last + needle@.len() == haystack@.len(),
            i <= last,
            forall|j: int| 0 <= j < i ==> !text::occurs_at(haystack@, needle@, j),
        decreases last - i,
    {
        if stands_at(haystack, needle, i) {
            return true;
        }
        if i == last {
            return false;
        }
        i += 1;
    }
}

fn stands_at(haystack: &[u8], needle: &[u8], i: usize) -> (yes: bool)
    requires
        i + needle.len() <= haystack.len(),
    ensures
        yes == text::occurs_at(haystack@, needle@, i as int),
{
    let mut k: usize = 0;
    while k < needle.len()
        invariant
            i + needle.len() <= haystack.len(),
            k <= needle@.len(),
            forall|j: int| 0 <= j < k ==> haystack@[i + j] == needle@[j],
        decreases needle@.len() - k,
    {
        if haystack[i + k] != needle[k] {
            assert(haystack@.subrange(i as int, i + needle@.len())[k as int] != needle@[k as int]);
            return false;
        }
        k += 1;
    }
    assert(haystack@.subrange(i as int, i + needle@.len()) =~= needle@);
    true
}

/// The case of the letters of a page does not count.
pub proof fn letter_case_does_not_count(body: Seq<u8>, stubs: Seq<Seq<char>>)
    ensures
        holds_stub(body, stubs) == holds_stub(letters::lowered(body), stubs),
{
    letters::lowering_settles(body);
}

/// The case of the letters of a page and of the texts does not count.
pub proof fn letters_match_in_any_case(body: Seq<char>, stub: Seq<char>)
    requires
        body.len() > 0,
    ensures
        holds_stub(vstd::utf8::encode_utf8(body), seq![stub]) == text::occurs_in(
            vstd::utf8::encode_utf8(body.map_values(|c: char| letters::lower_char(c))),
            vstd::utf8::encode_utf8(stub.map_values(|c: char| letters::lower_char(c))),
        ),
{
    letters::lowering_is_by_letter(body);
    letters::lowering_is_by_letter(stub);
    assert(vstd::utf8::encode_utf8(body).len() > 0);
    let stubs = seq![stub];
    assert(stubs[0] == stub);
}

/// A page that holds a block page is a block page: what is put in front of it
/// or behind it does not hide it.
pub proof fn wrapping_does_not_hide(front: Seq<u8>, body: Seq<u8>, back: Seq<u8>, stubs: Seq<Seq<char>>)
    requires
        holds_stub(body, stubs),
    ensures
        holds_stub(front + body + back, stubs),
{
    let all = front + body + back;
    let k = choose|k: int|
        0 <= k < stubs.len() && text::occurs_in(
            letters::lowered(body),
            letters::lowered(vstd::utf8::encode_utf8(#[trigger] stubs[k])),
        );
    let raw = vstd::utf8::encode_utf8(stubs[k]);
    let stub = letters::lowered(raw);
    let i = choose|i: int| text::occurs_at(letters::lowered(body), stub, i);
    if raw.len() == 0 {
        assert(letters::lowered(all).subrange(0, 0) =~= stub);
        assert(text::occurs_at(letters::lowered(all), stub, 0));
    } else {
        letters::surroundings_do_not_matter(front, body, back, stubs[k], i);
        assert(text::occurs_at(letters::lowered(all), stub, front.len() + i));
    }
}

/// A page is a block page if and only if one of the texts alone makes it one. An
/// empty page is none, and without texts there is none.
pub proof fn one_text_is_enough(body: Seq<u8>, stubs: Seq<Seq<char>>)
    ensures
        holds_stub(body, stubs) <==> exists|k: int|
            0 <= k < stubs.len() && holds_stub(body, seq![#[trigger] stubs[k]]),
        body.len() == 0 ==> !holds_stub(body, stubs),
        stubs.len() == 0 ==> !holds_stub(body, stubs),
{
    if holds_stub(body, stubs) {
        let k = choose|k: int|
            0 <= k < stubs.len() && text::occurs_in(
                letters::lowered(body),
                letters::lowered(vstd::utf8::encode_utf8(#[trigger] stubs[k])),
            );
        assert(seq![stubs[k]][0] == stubs[k]);
        assert(holds_stub(body, seq![stubs[k]]));
    }
    if exists|k: int| 0 <= k < stubs.len() && holds_stub(body, seq![#[trigger] stubs[k]]) {
        let k = choose|k: int|
            0 <= k < stubs.len() && holds_stub(body, seq![#[trigger] stubs[k]]);
        let one = seq![stubs[k]];
        let j = choose|j: int|
            0 <= j < one.len() && text::occurs_in(
                letters::lowered(body),
                letters::lowered(vstd::utf8::encode_utf8(#[trigger] one[j])),
            );
        assert(one[j] == stubs[k]);
    }
}

/// A page that holds one of the texts, written in any case and with anything in
/// front of it and behind it, is a block page.
pub proof fn listed_texts_give_pages_away(
    front: Seq<u8>,
    written: Seq<char>,
    back: Seq<u8>,
    stubs: Seq<Seq<char>>,
    k: int,
)
    requires
        0 <= k < stubs.len(),
        written.len() > 0,
        written.map_values(|c: char| letters::lower_char(c)) == stubs[k].map_values(
            |c: char| letters::lower_char(c),
        ),
    ensures
        holds_stub(front + vstd::utf8::encode_utf8(written) + back, stubs),
{
    let body = vstd::utf8::encode_utf8(written);
    letters_match_in_any_case(written, stubs[k]);
    let low = vstd::utf8::encode_utf8(written.map_values(|c: char| letters::lower_char(c)));
    assert(low.subrange(0, low.len() as int) =~= low);
    assert(text::occurs_at(low, low, 0));
    assert(holds_stub(body, seq![stubs[k]]));
    one_text_is_enough(body, stubs);
    wrapping_does_not_hide(front, body, back, stubs);
}

/// Each of the ten known texts gives a page away, in any case and with anything
/// in front of it and behind it.
pub proof fn known_texts_give_pages_away(front: Seq<u8>, written: Seq<char>, back: Seq<u8>)
    requires
        written.len() > 0,
        ({
            let low = written.map_values(|c: char| letters::lower_char(c));
            ||| low == "роскомнадзор"@.map_values(|c: char| letters::lower_char(c))
            ||| low == "poiskman"@.map_values(|c: char| letters::lower_char(c))
            ||| low == "blockpage"@.map_values(|c: char| letters::lower_char(c))
            ||| low == "заблокир"@.map_values(|c: char| letters::lower_char(c))
            ||| low == "ограничен"@.map_values(|c: char| letters::lower_char(c))
            ||| low == "restricted"@.map_values(|c: char| letters::lower_char(c))
            ||| low == "roskomsvoboda"@.map_values(|c: char| letters::lower_char(c))
            ||| low == "internet-zapret"@.map_values(|c: char| letters::lower_char(c))
            ||| low == "technique-of-blocking"@.map_values(|c: char| letters::lower_char(c))
            ||| low == "decision of"@.map_values(|c: char| letters::lower_char(c))
        }),
    ensures
        holds_stub(front + vstd::utf8::encode_utf8(written) + back, default_stub_texts()),
{
    let low = written.map_values(|c: char| letters::lower_char(c));
    let stubs = default_stub_texts();
    let k: int = if low == "роскомнадзор"@.map_values(|c: char| letters::lower_char(c)) {
        0
    } else if low == "poiskman"@.map_values(|c: char| letters::lower_char(c)) {
        1
    } else if low == "blockpage"@.map_values(|c: char| letters::lower_char(c)) {
        2
    } else if low == "заблокир"@.map_values(|c: char| letters::lower_char(c)) {
        3
    } else if low == "ограничен"@.map_values(|c: char| letters::lower_char(c)) {
        4
    } else if low == "restricted"@.map_values(|c: char| letters::lower_char(c)) {
        5
    } else if low == "roskomsvoboda"@.map_values(|c: char| letters::lower_char(c)) {
        6
    } else if low == "internet-zapret"@.map_values(|c: char| letters::lower_char(c)) {
        7
    } else if low == "technique-of-blocking"@.map_values(|c: char| letters::lower_char(c)) {
        8
    } else {
        9
    };
    listed_texts_give_pages_away(front, written, back, stubs, k);
}

} // verus!
