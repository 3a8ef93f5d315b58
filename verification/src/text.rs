//! Text as sequences of characters: decimal numbers, searching, and the small
//! pieces of parsing that the probe and its user interface need.

use vstd::prelude::*;
use vstd::string::*;

verus! {

// ---------------------------------------------------------------------------
// Decimal numbers
// ---------------------------------------------------------------------------

/// The character of a decimal digit.
pub open spec fn digit_char(d: int) -> char {
    if d == 0 {
        '0'
    } else if d == 1 {
        '1'
    } else if d == 2 {
        '2'
    } else if d == 3 {
        '3'
    } else if d == 4 {
        '4'
    } else if d == 5 {
        '5'
    } else if d == 6 {
        '6'
    } else if d == 7 {
        '7'
    } else if d == 8 {
        '8'
    } else {
        '9'
    }
}

/// `n` in decimal, without leading zeros.
pub open spec fn decimal(n: nat) -> Seq<char>
    decreases n,
{
    if n < 10 {
        seq![digit_char(n as int)]
    } else {
        decimal(n / 10).push(digit_char((n % 10) as int))
    }
}

fn digit_text(d: u64) -> (s: &'static str)
    requires
        d < 10,
    ensures
        s@ == seq![digit_char(d as int)],
{
    proof {
        reveal_strlit("0");
        reveal_strlit("1");
        reveal_strlit("2");
        reveal_strlit("3");
        reveal_strlit("4");
        reveal_strlit("5");
        reveal_strlit("6");
        reveal_strlit("7");
        reveal_strlit("8");
        reveal_strlit("9");
    }
    let s = if d == 0 {
        "0"
    } else if d == 1 {
        "1"
    } else if d == 2 {
        "2"
    } else if d == 3 {
        "3"
    } else if d == 4 {
        "4"
    } else if d == 5 {
        "5"
    } else if d == 6 {
        "6"
    } else if d == 7 {
        "7"
    } else if d == 8 {
        "8"
    } else {
        "9"
    };
    assert(s@ =~= seq![digit_char(d as int)]);
    s
}

/// Writes `n` in decimal behind `s`.
pub fn append_decimal(s: &mut String, n: u64)
    ensures
        final(s)@ == old(s)@ + decimal(n as nat),
    decreases n,
{
    if n >= 10 {
        append_decimal(s, n / 10);
    }
    let ghost front = s@;
    s.append(digit_text(n % 10));
    assert(s@ =~= old(s)@ + decimal(n as nat));
}

// ---------------------------------------------------------------------------
// Characters and searching
// ---------------------------------------------------------------------------

/// The texts of `list`.
pub open spec fn texts(list: Seq<String>) -> Seq<Seq<char>> {
    list.map_values(|s: String| s@)
}

/// A copy of `list`.
pub fn copy_texts(list: &Vec<String>) -> (copy: Vec<String>)
    ensures
        texts(copy@) == texts(list@),
{
    let mut copy: Vec<String> = Vec::new();
    let mut i: usize = 0;
    while i < list.len()
        invariant
            i <= list@.len(),
            texts(copy@) == texts(list@).take(i as int),
        decreases list@.len() - i,
    {
        let ghost before = copy@;
        copy.push(list[i].clone());
        assert(texts(copy@) =~= texts(before).push(list@[i as int]@));
        i += 1;
        assert(texts(list@).take(i as int) =~= texts(list@).take(i - 1).push(list@[i - 1]@));
    }
    assert(texts(list@).take(i as int) =~= texts(list@));
    copy
}

/// Whether `list` has the text `s`.
pub fn lists_text(list: &Vec<String>, s: &str) -> (yes: bool)
    ensures
        yes == texts(list@).contains(s@),
{
    let wanted = s.to_string();
    let mut i: usize = 0;
    while i < list.len()
        invariant
            i <= list@.len(),
            wanted@ == s@,
            forall|j: int| 0 <= j < i ==> list@[j]@ != s@,
        decreases list@.len() - i,
    {
        if list[i] == wanted {
            assert(texts(list@)[i as int] == s@);
            return true;
        }
        i += 1;
    }
    assert forall|j: int| 0 <= j < texts(list@).len() implies texts(list@)[j] != s@ by {
        assert(texts(list@)[j] == list@[j]@);
    }
    false
}

/// The characters of `s`.
pub fn chars_of(s: &str) -> (chars: Vec<char>)
    ensures
        chars@ == s@,
{
    let mut chars: Vec<char> = Vec::new();
    for c in it: s.chars()
        invariant
            chars@ == it.seq().take(it.index()),
            it.seq() == s@,
    {
        chars.push(c);
        assert(it.seq().take(it.index() + 1) =~= it.seq().take(it.index()).push(c));
    }
    assert(s@.take(s@.len() as int) =~= s@);
    chars
}

/// `pat` stands in `s` at `i`.
pub open spec fn occurs_at<T>(s: Seq<T>, pat: Seq<T>, i: int) -> bool {
    0 <= i && i + pat.len() <= s.len() && s.subrange(i, i + pat.len()) == pat
}

/// `pat` stands somewhere in `s`.
pub open spec fn occurs_in<T>(s: Seq<T>, pat: Seq<T>) -> bool {
    exists|i: int| occurs_at(s, pat, i)
}

/// The first place from `from` on where `pat` stands in `s`.
pub open spec fn first_from(s: Seq<char>, pat: Seq<char>, from: int) -> Option<int>
    decreases s.len() + 1 - from,
{
    if from + pat.len() > s.len() || from < 0 {
        None
    } else if occurs_at(s, pat, from) {
        Some(from)
    } else {
        first_from(s, pat, from + 1)
    }
}

/// Looks for `pat` in `s` from `from` on.
pub fn find_from(s: &Vec<char>, pat: &Vec<char>, from: usize) -> (place: Option<usize>)
    requires
        from <= s@.len(),
    ensures
        match first_from(s@, pat@, from as int) {
            Some(i) => place is Some && place->0 == i,
            None => place is None,
        },
{
    let mut i: usize = from;
    while pat.len() <= s.len() - i
        invariant
            from <= i <= s@.len(),
            first_from(s@, pat@, from as int) == first_from(s@, pat@, i as int),
        decreases s@.len() - i,
    {
        if matches_at(s, pat, i) {
            return Some(i);
        }
        proof {
            if i == s.len() {
                assert(s@.subrange(i as int, i as int) =~= pat@);
            }
        }
        i += 1;
    }
    None
}

pub(crate) fn matches_at(s: &Vec<char>, pat: &Vec<char>, i: usize) -> (yes: bool)
    requires
        i + pat.len() <= s.len(),
    ensures
        yes == occurs_at(s@, pat@, i as int),
{
    let mut k: usize = 0;
    while k < pat.len()
        invariant
            i + pat.len() <= s.len(),
            k <= pat@.len(),
            forall|j: int| 0 <= j < k ==> s@[i + j] == pat@[j],
        decreases pat@.len() - k,
    {
        if s[i + k] != pat[k] {
            assert(s@.subrange(i as int, i + pat@.len())[k as int] != pat@[k as int]);
            return false;
        }
        k += 1;
    }
    assert(s@.subrange(i as int, i + pat@.len()) =~= pat@);
    true
}

proof fn first_from_is_first(s: Seq<char>, pat: Seq<char>, from: int)
    requires
        0 <= from,
    ensures
        match first_from(s, pat, from) {
            Some(i) => from <= i && occurs_at(s, pat, i),
            None => forall|i: int| from <= i ==> !#[trigger] occurs_at(s, pat, i),
        },
    decreases s.len() + 1 - from,
{
    if from + pat.len() <= s.len() && !occurs_at(s, pat, from) {
        first_from_is_first(s, pat, from + 1);
    }
}

/// Whether `pat` stands somewhere in `s`.
pub fn contains_text(s: &Vec<char>, pat: &Vec<char>) -> (yes: bool)
    ensures
        yes == occurs_in(s@, pat@),
{
    proof {
        first_from_is_first(s@, pat@, 0);
    }
    find_from(s, pat, 0).is_some()
}

/// Whether `s` ends with `end`.
pub fn ends_with_text(s: &Vec<char>, end: &Vec<char>) -> (yes: bool)
    ensures
        yes == occurs_at(s@, end@, s@.len() - end@.len()),
{
    if end.len() > s.len() {
        return false;
    }
    matches_at(s, end, s.len() - end.len())
}

/// The characters of `s` from `from` to `to`.
pub fn slice_of(s: &Vec<char>, from: usize, to: usize) -> (part: Vec<char>)
    requires
        from <= to <= s@.len(),
    ensures
        part@ == s@.subrange(from as int, to as int),
{
    let mut part: Vec<char> = Vec::new();
    let mut i: usize = from;
    while i < to
        invariant
            from <= i <= to <= s@.len(),
            part@ == s@.subrange(from as int, i as int),
        decreases to - i,
    {
        part.push(s[i]);
        i += 1;
        assert(s@.subrange(from as int, i as int) =~= s@.subrange(from as int, i - 1).push(
            s@[i - 1],
        ));
    }
    part
}

// ---------------------------------------------------------------------------
// Letter case and white space
// ---------------------------------------------------------------------------

/// The text in lower case: what `str::to_lowercase` returns.
pub uninterp spec fn lowercased(s: Seq<char>) -> Seq<char>;

/// An ASCII character in lower case.
pub open spec fn lower_ascii(c: char) -> char {
    if 'A' <= c <= 'Z' {
        (c as u32 + 32) as char
    } else {
        c
    }
}

/// ASCII capitals in lower case, and everything else as it is.
pub open spec fn folded(s: Seq<char>) -> Seq<char> {
    s.map_values(|c: char| lower_ascii(c))
}

/// Puts ASCII capitals into lower case.
pub fn fold(s: &Vec<char>) -> (lower: Vec<char>)
    ensures
        lower@ == folded(s@),
{
    let mut lower: Vec<char> = Vec::new();
    let mut i: usize = 0;
    while i < s.len()
        invariant
            i <= s@.len(),
            lower@ == folded(s@).take(i as int),
        decreases s@.len() - i,
    {
        let c: char = s[i];
        let l: char = if 'A' <= c && c <= 'Z' {
            (c as u8 + 32) as char
        } else {
            c
        };
        assert(l == lower_ascii(c));
        lower.push(l);
        i += 1;
        assert(folded(s@).take(i as int) =~= folded(s@).take(i - 1).push(l));
    }
    assert(folded(s@).take(i as int) =~= folded(s@));
    lower
}

/// Every character is an ASCII character.
pub open spec fn all_ascii(s: Seq<char>) -> bool {
    forall|i: int| 0 <= i < s.len() ==> (#[trigger] s[i]) as u32 <= 0x7F
}

/// `str::to_lowercase`: the text in lower case. ASCII text is lowered character
/// by character.
#[verifier::external_body]
pub(crate) fn to_lower(s: &str) -> (lower: String)
    ensures
        lower@ == lowercased(s@),
        all_ascii(s@) ==> lower@ == folded(s@),
{
    s.to_lowercase()
}

/// The characters that Unicode counts as white space.
pub open spec fn is_white(c: char) -> bool {
    let u = c as u32;
    ||| 0x09 <= u <= 0x0D
    ||| u == 0x20
    ||| u == 0x85
    ||| u == 0xA0
    ||| u == 0x1680
    ||| 0x2000 <= u <= 0x200A
    ||| u == 0x2028
    ||| u == 0x2029
    ||| u == 0x202F
    ||| u == 0x205F
    ||| u == 0x3000
}

fn white(c: char) -> (yes: bool)
    ensures
        yes == is_white(c),
{
    let u: u32 = c as u32;
    (0x09 <= u && u <= 0x0D) || u == 0x20 || u == 0x85 || u == 0xA0 || u == 0x1680 || (0x2000 <= u
        && u <= 0x200A) || u == 0x2028 || u == 0x2029 || u == 0x202F || u == 0x205F || u == 0x3000
}

/// `s` without white space at its start.
pub open spec fn trimmed_start(s: Seq<char>) -> Seq<char>
    decreases s.len(),
{
    if s.len() > 0 && is_white(s[0]) {
        trimmed_start(s.skip(1))
    } else {
        s
    }
}

/// `s` without white space at its end.
pub open spec fn trimmed_end(s: Seq<char>) -> Seq<char>
    decreases s.len(),
{
    if s.len() > 0 && is_white(s.last()) {
        trimmed_end(s.drop_last())
    } else {
        s
    }
}

/// `s` without white space around it.
pub open spec fn trimmed(s: Seq<char>) -> Seq<char> {
    trimmed_end(trimmed_start(s))
}

/// Takes the white space around the characters of `s` from `from` to `to` away.
pub fn trim_range(s: &Vec<char>, from: usize, to: usize) -> (range: (usize, usize))
    requires
        from <= to <= s@.len(),
    ensures
        from <= range.0 <= range.1 <= to,
        s@.subrange(range.0 as int, range.1 as int) == trimmed(s@.subrange(from as int, to as int)),
{
    let ghost line = s@.subrange(from as int, to as int);
    let mut start: usize = from;
    assert(s@.subrange(start as int, to as int) =~= line);
    while start < to && white(s[start])
        invariant
            from <= start <= to <= s@.len(),
            trimmed_start(line) == trimmed_start(s@.subrange(start as int, to as int)),
        decreases to - start,
    {
        assert(s@.subrange(start as int, to as int).skip(1) =~= s@.subrange(
            start + 1,
            to as int,
        ));
        start += 1;
    }
    let ghost front = s@.subrange(start as int, to as int);
    assert(trimmed_start(line) == front);
    let mut end: usize = to;
    while start < end && white(s[end - 1])
        invariant
            start <= end <= to <= s@.len(),
            trimmed_end(front) == trimmed_end(s@.subrange(start as int, end as int)),
        decreases end - start,
    {
        assert(s@.subrange(start as int, end as int).drop_last() =~= s@.subrange(
            start as int,
            end - 1,
        ));
        end -= 1;
    }
    (start, end)
}

// ---------------------------------------------------------------------------
// Laws
// ---------------------------------------------------------------------------

/// The number that decimal digits write.
pub open spec fn value_of(digits: Seq<char>) -> int
    decreases digits.len(),
{
    if digits.len() == 0 {
        0
    } else {
        10 * value_of(digits.drop_last()) + (digits.last() as int - '0' as int)
    }
}

/// A number in decimal reads back as itself. It has only digits, and does not
/// start with a zero unless it is one.
pub proof fn decimals_read_back(n: nat)
    ensures
        value_of(decimal(n)) == n,
        decimal(n).len() > 0,
        forall|i: int| 0 <= i < decimal(n).len() ==> '0' <= #[trigger] decimal(n)[i] <= '9',
        decimal(n)[0] == '0' ==> n == 0,
    decreases n,
{
    if n >= 10 {
        decimals_read_back(n / 10);
        assert(decimal(n).drop_last() =~= decimal(n / 10));
        assert(decimal(n).last() as int - '0' as int == n % 10);
        assert(decimal(n)[0] == decimal(n / 10)[0]);
    } else {
        assert(decimal(n).drop_last() =~= Seq::empty());
        assert(value_of(decimal(n).drop_last()) == 0);
    }
}

/// Folding keeps the length of a text, moves the 26 ASCII capitals by 32, and
/// leaves every other character alone.
pub proof fn folding_moves_capitals(s: Seq<char>, i: int)
    requires
        0 <= i < s.len(),
    ensures
        folded(s).len() == s.len(),
        65 <= s[i] as int <= 90 ==> folded(s)[i] as int == s[i] as int + 32,
        s[i] as int <= 64 || s[i] as int >= 91 ==> folded(s)[i] == s[i],
{
}

/// A text stands at a place if and only if its characters do, one by one.
pub proof fn texts_stand_by_their_characters<T>(s: Seq<T>, pat: Seq<T>, i: int)
    ensures
        occurs_at(s, pat, i) <==> 0 <= i && i + pat.len() <= s.len() && forall|k: int|
            0 <= k < pat.len() ==> s[i + k] == #[trigger] pat[k],
{
    if occurs_at(s, pat, i) {
        assert forall|k: int| 0 <= k < pat.len() implies s[i + k] == #[trigger] pat[k] by {
            assert(s.subrange(i, i + pat.len())[k] == s[i + k]);
        }
    }
    if 0 <= i && i + pat.len() <= s.len() && forall|k: int|
        0 <= k < pat.len() ==> s[i + k] == #[trigger] pat[k] {
        assert(s.subrange(i, i + pat.len()) =~= pat);
    }
}

/// A text is found wherever it stands, and at the first place where it does.
pub proof fn searches_find_the_first_place(
    s: Seq<char>,
    pat: Seq<char>,
    from: int,
    at: int,
)
    requires
        0 <= from <= at,
        at + pat.len() <= s.len(),
        forall|k: int| 0 <= k < pat.len() ==> s[at + k] == #[trigger] pat[k],
    ensures
        first_from(s, pat, from) is Some,
        from <= first_from(s, pat, from)->0 <= at,
        forall|k: int|
            0 <= k < pat.len() ==> s[first_from(s, pat, from)->0 + k] == #[trigger] pat[k],
        occurs_in(s, pat),
    decreases at - from,
{
    texts_stand_by_their_characters(s, pat, at);
    assert(occurs_at(s, pat, at));
    texts_stand_by_their_characters(s, pat, from);
    if from < at && !occurs_at(s, pat, from) {
        searches_find_the_first_place(s, pat, from + 1, at);
    }
}

/// A text that is longer than the one it is looked for in stands nowhere.
pub proof fn longer_texts_stand_nowhere<T>(s: Seq<T>, pat: Seq<T>)
    requires
        s.len() < pat.len(),
    ensures
        !occurs_in(s, pat),
{
}

/// White space are the control characters from tab to carriage return, the
/// space, and the spaces and separators of Unicode; no visible ASCII character
/// and no letter of another script is.
pub proof fn white_space_is_invisible(c: char)
    ensures
        c == '\t' || c == '\n' || c == '\u{b}' || c == '\u{c}' || c == '\r' || c == ' ' ==> is_white(
            c,
        ),
        c == '\u{85}' || c == '\u{a0}' || c == '\u{1680}' || '\u{2000}' <= c <= '\u{200a}' || c
            == '\u{2028}' || c == '\u{2029}' || c == '\u{202f}' || c == '\u{205f}' || c
            == '\u{3000}' ==> is_white(c),
        c < '\t' || '\u{e}' <= c <= '\u{1f}' ==> !is_white(c),
        '!' <= c <= '\u{84}' || '\u{86}' <= c <= '\u{9f}' ==> !is_white(c),
        '\u{a1}' <= c <= '\u{167f}' || '\u{1681}' <= c <= '\u{1fff}' ==> !is_white(c),
        '\u{200b}' <= c <= '\u{2027}' || '\u{202a}' <= c <= '\u{202e}' ==> !is_white(c),
        '\u{2030}' <= c <= '\u{205e}' || '\u{2060}' <= c <= '\u{2fff}' ==> !is_white(c),
        c > '\u{3000}' ==> !is_white(c),
{
}

/// Trimming takes all the white space from around a text, and nothing else.
pub proof fn trimming_leaves_the_core(front: Seq<char>, core: Seq<char>, back: Seq<char>)
    requires
        forall|i: int| 0 <= i < front.len() ==> is_white(#[trigger] front[i]),
        forall|i: int| 0 <= i < back.len() ==> is_white(#[trigger] back[i]),
        core.len() > 0,
        !is_white(core[0]),
        !is_white(core.last()),
    ensures
        trimmed(front + core + back) == core,
    decreases front.len() + back.len(),
{
    let s = front + core + back;
    if front.len() > 0 {
        assert(s[0] == front[0]);
        assert(s.skip(1) =~= front.skip(1) + core + back);
        assert forall|i: int| 0 <= i < front.skip(1).len() implies is_white(
            #[trigger] front.skip(1)[i],
        ) by {
            assert(front.skip(1)[i] == front[i + 1]);
        }
        trimming_leaves_the_core(front.skip(1), core, back);
    } else {
        assert(s =~= core + back);
        assert(s[0] == core[0]);
        trimming_the_end(core, back);
    }
}

proof fn trimming_the_end(core: Seq<char>, back: Seq<char>)
    requires
        forall|i: int| 0 <= i < back.len() ==> is_white(#[trigger] back[i]),
        core.len() > 0,
        !is_white(core.last()),
    ensures
        trimmed_end(core + back) == core,
    decreases back.len(),
{
    let s = core + back;
    if back.len() > 0 {
        assert(s.last() == back.last());
        assert(is_white(back[back.len() - 1]));
        assert(s.drop_last() =~= core + back.drop_last());
        trimming_the_end(core, back.drop_last());
    } else {
        assert(s =~= core);
    }
}

/// Nothing is left of white space alone.
pub proof fn trimming_blanks_leaves_nothing(s: Seq<char>)
    requires
        forall|i: int| 0 <= i < s.len() ==> is_white(#[trigger] s[i]),
    ensures
        trimmed(s).len() == 0,
    decreases s.len(),
{
    if s.len() > 0 {
        assert forall|i: int| 0 <= i < s.skip(1).len() implies is_white(#[trigger] s.skip(1)[i]) by {
            assert(s.skip(1)[i] == s[i + 1]);
        }
        trimming_blanks_leaves_nothing(s.skip(1));
    }
}

/// A text stands in another if and only if that is the text with something in
/// front of it and something behind it.
pub proof fn texts_stand_between_parts<T>(s: Seq<T>, pat: Seq<T>)
    ensures
        occurs_in(s, pat) <==> exists|front: Seq<T>, back: Seq<T>|
            s == #[trigger] (front + pat + back),
{
    if occurs_in(s, pat) {
        let i = choose|i: int| occurs_at(s, pat, i);
        assert(s =~= s.take(i) + pat + s.skip(i + pat.len()));
    }
    if exists|front: Seq<T>, back: Seq<T>| s == #[trigger] (front + pat + back) {
        let (front, back) = choose|front: Seq<T>, back: Seq<T>|
            s == #[trigger] (front + pat + back);
        let i: int = front.len() as int;
        assert(s.subrange(i, i + pat.len()) =~= pat);
        assert(occurs_at(s, pat, i));
    }
}

} // verus!
