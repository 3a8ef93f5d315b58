//! The commands of the user interface: where the service answers, and the
//! user's own lists of domains.

use crate::text;
use crate::text::{append_decimal, chars_of, copy_texts, to_lower, trim_range};
use vstd::prelude::*;
use vstd::string::*;

verus! {

// ---------------------------------------------------------------------------
// Where the service answers
// ---------------------------------------------------------------------------

/// The port of the service, unless told otherwise.
pub const DEFAULT_PORT: u16 = 11337;

/// What the service can be asked for.
#[derive(Clone, Copy, Debug, PartialEq, Eq, Structural)]
pub enum Endpoint {
    Status,
    Health,
    Conntrack,
    Probe,
    ProbePresets,
    ProbeHistory,
    ProbeBatch,
}

impl Endpoint {
    /// The path of the request.
    pub open spec fn path(self) -> Seq<char> {
        match self {
            Endpoint::Status => "status"@,
            Endpoint::Health => "health"@,
            Endpoint::Conntrack => "conntrack"@,
            Endpoint::Probe => "probe"@,
            Endpoint::ProbePresets => "probe/presets"@,
            Endpoint::ProbeHistory => "probe/history"@,
            Endpoint::ProbeBatch => "probe/batch"@,
        }
    }

    /// The address of the request.
    pub fn url(self, api_port: Option<u16>) -> (url: String)
        ensures
            url@ == "http://127.0.0.1:"@ + text::decimal(
                match api_port {
                    Some(port) => port as nat,
                    None => DEFAULT_PORT as nat,
                },
            ) + "/api/v1/"@ + self.path(),
    {
        let port: u16 = match api_port {
            Some(port) => port,
            None => DEFAULT_PORT,
        };
        let path = match self {
            Endpoint::Status => "status",
            Endpoint::Health => "health",
            Endpoint::Conntrack => "conntrack",
            Endpoint::Probe => "probe",
            Endpoint::ProbePresets => "probe/presets",
            Endpoint::ProbeHistory => "probe/history",
            Endpoint::ProbeBatch => "probe/batch",
        };
        let mut url = "http://127.0.0.1:".to_string();
        append_decimal(&mut url, port as u64);
        url.append("/api/v1/");
        url.append(path);
        url
    }
}

/// What the service says of itself.
pub struct StatusResponse {
    pub status: String,
    pub version: String,
    pub uptime_seconds: u64,
    pub packets_processed: u64,
    pub active_connections: u64,
}

/// What the service says of its health.
pub struct HealthResponse {
    pub healthy: bool,
    pub windivert_ok: bool,
    pub raw_socket_ok: bool,
}

// ---------------------------------------------------------------------------
// Lists of domains
// ---------------------------------------------------------------------------

/// A list of domains that the user keeps.
pub struct CustomDomainList {
    pub id: String,
    pub name: String,
    pub domains: Vec<String>,
    pub created_at: String,
    pub updated_at: String,
}

impl Clone for CustomDomainList {
    fn clone(&self) -> (list: CustomDomainList)
        ensures
            list.id@ == self.id@,
            list.name@ == self.name@,
            text::texts(list.domains@) == text::texts(self.domains@),
            list.created_at@ == self.created_at@,
            list.updated_at@ == self.updated_at@,
    {
        CustomDomainList {
            id: self.id.clone(),
            name: self.name.clone(),
            domains: copy_texts(&self.domains),
            created_at: self.created_at.clone(),
            updated_at: self.updated_at.clone(),
        }
    }
}

/// The list `i` is the first with the identifier `id`.
pub open spec fn first_with(lists: Seq<CustomDomainList>, id: Seq<char>, i: int) -> bool {
    &&& 0 <= i < lists.len()
    &&& lists[i].id@ == id
    &&& forall|j: int| 0 <= j < i ==> (#[trigger] lists[j]).id@ != id
}

/// No list has the identifier `id`.
pub open spec fn none_with(lists: Seq<CustomDomainList>, id: Seq<char>) -> bool {
    forall|j: int| 0 <= j < lists.len() ==> (#[trigger] lists[j]).id@ != id
}

/// `after` is `before` with `list` saved: in place of the first list with its
/// identifier, or else behind all the others.
pub open spec fn saved(
    before: Seq<CustomDomainList>,
    list: CustomDomainList,
    after: Seq<CustomDomainList>,
) -> bool {
    ||| exists|i: int| #[trigger] first_with(before, list.id@, i) && after == before.update(i, list)
    ||| none_with(before, list.id@) && after == before.push(list)
}

/// The lists without those that have the identifier `id`.
pub open spec fn without(lists: Seq<CustomDomainList>, id: Seq<char>) -> Seq<CustomDomainList> {
    lists.filter(|l: CustomDomainList| l.id@ != id)
}

/// Saves `list` among `lists`.
pub fn save_list(lists: &mut Vec<CustomDomainList>, list: CustomDomainList)
    ensures
        saved(old(lists)@, list, final(lists)@),
{
    let mut i: usize = 0;
    while i < lists.len()
        invariant
            i <= lists@.len(),
            lists@ == old(lists)@,
            forall|j: int| 0 <= j < i ==> (#[trigger] lists@[j]).id@ != list.id@,
        decreases lists@.len() - i,
    {
        if lists[i].id == list.id {
            assert(first_with(old(lists)@, list.id@, i as int));
            lists.set(i, list);
            return ;
        }
        i += 1;
    }
    lists.push(list);
}

/// Deletes the lists with the identifier `id`.
pub fn delete_list(lists: &mut Vec<CustomDomainList>, id: &str)
    ensures
        final(lists)@ == without(old(lists)@, id@),
{
    let name = id.to_string();
    let ghost all = old(lists)@;
    let ghost keep = |l: CustomDomainList| l.id@ != id@;
    let ghost mut done: int = 0;
    let mut i: usize = 0;
    proof {
        reveal(Seq::filter);
        assert(lists@ =~= all.take(0).filter(keep) + all.skip(0));
    }
    while i < lists.len()
        invariant
            name@ == id@,
            keep == |l: CustomDomainList| l.id@ != id@,
            0 <= done <= all.len(),
            i == all.take(done).filter(keep).len(),
            lists@ == all.take(done).filter(keep) + all.skip(done),
        decreases all.len() - done,
    {
        proof {
            reveal(Seq::filter);
            assert(lists@[i as int] == all[done]);
            assert(all.take(done + 1).drop_last() =~= all.take(done));
        }
        if lists[i].id == name {
            lists.remove(i);
            assert(lists@ =~= all.take(done + 1).filter(keep) + all.skip(done + 1));
        } else {
            i += 1;
            assert(lists@ =~= all.take(done + 1).filter(keep) + all.skip(done + 1));
        }
        proof {
            done = done + 1;
        }
    }
    assert(all.skip(done) =~= Seq::empty());
    assert(all.take(done) =~= all);
    assert(lists@ =~= all.filter(keep));
}

/// Every identifier is used once.
pub open spec fn ids_unique(lists: Seq<CustomDomainList>) -> bool {
    forall|i: int, j: int|
        0 <= i < j < lists.len() ==> (#[trigger] lists[i]).id@ != (#[trigger] lists[j]).id@
}

/// A list that was saved is there, every other list is as it was, and
/// identifiers that were unique stay so.
pub proof fn saved_lists_are_kept(
    before: Seq<CustomDomainList>,
    list: CustomDomainList,
    after: Seq<CustomDomainList>,
)
    requires
        saved(before, list, after),
    ensures
        after.contains(list),
        forall|l: CustomDomainList| l.id@ != list.id@ ==> (before.contains(l) <==> #[trigger]
            after.contains(l)),
        ids_unique(before) ==> ids_unique(after),
        ids_unique(before) ==> forall|i: int|
            0 <= i < after.len() && (#[trigger] after[i]).id@ == list.id@ ==> after[i] == list,
{
    if exists|i: int| #[trigger]
        first_with(before, list.id@, i) && after == before.update(i, list) {
        let k = choose|i: int| #[trigger]
            first_with(before, list.id@, i) && after == before.update(i, list);
        assert(after[k] == list);
        assert forall|l: CustomDomainList| l.id@ != list.id@ implies (before.contains(l)
            <==> #[trigger] after.contains(l)) by {
            if before.contains(l) {
                let i = before.index_of(l);
                assert(after[i] == l);
            }
            if after.contains(l) {
                let i = after.index_of(l);
                assert(before[i] == l);
            }
        }
    } else {
        assert(after[before.len() as int] == list);
        assert forall|l: CustomDomainList| l.id@ != list.id@ implies (before.contains(l)
            <==> #[trigger] after.contains(l)) by {
            if before.contains(l) {
                let i = before.index_of(l);
                assert(after[i] == l);
            }
            if after.contains(l) {
                let i = after.index_of(l);
                assert(before[i] == l);
            }
        }
    }
}

/// After a deletion no list has the identifier, every other list is still
/// there, and deleting again changes nothing.
pub proof fn deleted_lists_are_gone(lists: Seq<CustomDomainList>, id: Seq<char>)
    ensures
        none_with(without(lists, id), id),
        forall|l: CustomDomainList|
            l.id@ != id ==> (lists.contains(l) <==> #[trigger] without(lists, id).contains(l)),
        without(without(lists, id), id) == without(lists, id),
{
    only_others_stay(lists, id);
    nothing_to_delete(without(lists, id), id);
}

proof fn only_others_stay(lists: Seq<CustomDomainList>, id: Seq<char>)
    ensures
        none_with(without(lists, id), id),
        forall|l: CustomDomainList|
            l.id@ != id ==> (lists.contains(l) <==> #[trigger] without(lists, id).contains(l)),
    decreases lists.len(),
{
    reveal(Seq::filter);
    if lists.len() > 0 {
        let front = lists.drop_last();
        only_others_stay(front, id);
        let kept = without(lists, id);
        assert forall|l: CustomDomainList| l.id@ != id implies (lists.contains(l) <==> #[trigger]
            kept.contains(l)) by {
            assert(front.contains(l) <==> without(front, id).contains(l));
            if lists.contains(l) {
                let i = lists.index_of(l);
                if i == lists.len() - 1 {
                    assert(kept[kept.len() - 1] == l);
                } else {
                    assert(front[i] == l);
                    let j = without(front, id).index_of(l);
                    assert(kept[j] == l);
                }
            }
            if kept.contains(l) {
                let j = kept.index_of(l);
                if j < without(front, id).len() {
                    assert(without(front, id)[j] == l);
                    let i = front.index_of(l);
                    assert(lists[i] == l);
                } else {
                    assert(lists[lists.len() - 1] == l);
                }
            }
        }
    }
}

/// Deleting what is not there changes nothing, so deleting a list that was
/// just saved for the first time undoes the saving.
pub proof fn nothing_to_delete(lists: Seq<CustomDomainList>, id: Seq<char>)
    requires
        none_with(lists, id),
    ensures
        without(lists, id) == lists,
        forall|list: CustomDomainList|
            list.id@ == id ==> #[trigger] without(lists.push(list), id) == lists,
    decreases lists.len(),
{
    reveal(Seq::filter);
    if lists.len() > 0 {
        let front = lists.drop_last();
        assert forall|j: int| 0 <= j < front.len() implies (#[trigger] front[j]).id@ != id by {
            assert(front[j] == lists[j]);
        }
        nothing_to_delete(front, id);
        assert(lists.last().id@ != id);
        assert(without(lists, id) =~= front.push(lists.last()));
        assert(front.push(lists.last()) =~= lists);
    }
    assert forall|list: CustomDomainList| list.id@ == id implies #[trigger] without(
        lists.push(list),
        id,
    ) == lists by {
        assert(lists.push(list).drop_last() =~= lists);
        assert(lists.push(list).last() == list);
        assert(without(lists.push(list), id) == without(lists, id));
    }
}

// ---------------------------------------------------------------------------
// Importing domains
// ---------------------------------------------------------------------------

/// `s` in lower case. Text that is known to be ASCII is lowered character by
/// character.
pub open spec fn in_lower_case(s: Seq<char>, ascii: bool) -> Seq<char> {
    if ascii {
        text::folded(s)
    } else {
        text::lowercased(s)
    }
}

/// A trimmed line holds a domain: it is neither blank nor a comment.
pub open spec fn is_domain(line: Seq<char>) -> bool {
    line.len() > 0 && line[0] != '#'
}

/// The domain on one line, in lower case and without the white space around it,
/// where there is one.
pub open spec fn domain_on(line: Seq<char>, ascii: bool) -> Seq<Seq<char>> {
    let domain = in_lower_case(text::trimmed(line), ascii);
    if is_domain(domain) {
        seq![domain]
    } else {
        Seq::empty()
    }
}

/// Where the line ends that starts at `from`.
pub open spec fn line_end(s: Seq<char>, from: int) -> int
    decreases s.len() - from,
{
    if from < 0 || from >= s.len() || s[from] == '\n' {
        from
    } else {
        line_end(s, from + 1)
    }
}

/// The domains on the lines of `s` from `from` on.
pub open spec fn domains_from(s: Seq<char>, from: int, ascii: bool) -> Seq<Seq<char>>
    decreases s.len() + 1 - from,
    when 0 <= from <= s.len()
    via domains_from_ends
{
    let end = line_end(s, from);
    if end >= s.len() {
        domain_on(s.subrange(from, end), ascii)
    } else {
        domain_on(s.subrange(from, end), ascii) + domains_from(s, end + 1, ascii)
    }
}

#[via_fn]
proof fn domains_from_ends(s: Seq<char>, from: int, ascii: bool) {
    line_end_is_ahead(s, from);
}

proof fn line_end_is_ahead(s: Seq<char>, from: int)
    requires
        0 <= from <= s.len(),
    ensures
        from <= line_end(s, from) <= s.len(),
    decreases s.len() - from,
{
    if from < s.len() && s[from] != '\n' {
        line_end_is_ahead(s, from + 1);
    }
}

/// The domains that a text lists, one on a line.
pub open spec fn domains_in(s: Seq<char>, ascii: bool) -> Seq<Seq<char>> {
    domains_from(s, 0, ascii)
}

/// Whether a trimmed line holds a domain.
pub fn holds_domain(line: &str) -> (yes: bool)
    ensures
        yes == is_domain(line@),
{
    match line.chars().next() {
        Some(c) => c != '#',
        None => false,
    }
}

/// Reads the domains that `text` lists, one on a line.
pub fn import_domains_from_text(text: String) -> (domains: Result<Vec<String>, String>)
    ensures
        domains is Ok,
        text::texts(domains->Ok_0@) == domains_in(text@, false),
        text::all_ascii(text@) ==> text::texts(domains->Ok_0@) == domains_in(text@, true),
{
    let chars = chars_of(text.as_str());
    let ghost ascii = text::all_ascii(text@);
    let mut domains: Vec<String> = Vec::new();
    let mut from: usize = 0;
    let mut at_end = false;
    assert(text::texts(domains@) =~= Seq::empty());
    while !at_end
        invariant
            chars@ == text@,
            ascii == text::all_ascii(text@),
            from <= chars@.len(),
            !at_end ==> domains_in(text@, false) == text::texts(domains@) + domains_from(
                text@,
                from as int,
                false,
            ),
            !at_end && ascii ==> domains_in(text@, true) == text::texts(domains@) + domains_from(
                text@,
                from as int,
                true,
            ),
            at_end ==> domains_in(text@, false) == text::texts(domains@),
            at_end && ascii ==> domains_in(text@, true) == text::texts(domains@),
        decreases chars@.len() - from, if at_end { 0int } else { 1int },
    {
        let mut end: usize = from;
        while end < chars.len() && chars[end] != '\n'
            invariant
                chars@ == text@,
                from <= end <= chars@.len(),
                line_end(text@, from as int) == line_end(text@, end as int),
            decreases chars@.len() - end,
        {
            end += 1;
        }
        let (start, stop): (usize, usize) = trim_range(&chars, from, end);
        let domain = to_lower(text.as_str().substring_char(start, stop));
        let ghost before = domains@;
        let ghost line = text@.subrange(from as int, end as int);
        assert(domain@ == in_lower_case(text::trimmed(line), false));
        assert(ascii ==> domain@ == in_lower_case(text::trimmed(line), true));
        if holds_domain(domain.as_str()) {
            domains.push(domain);
        }
        assert(text::texts(domains@) =~= text::texts(before) + domain_on(line, false));
        assert(ascii ==> text::texts(domains@) =~= text::texts(before) + domain_on(line, true));
        if end < chars.len() {
            from = end + 1;
        } else {
            at_end = true;
        }
    }
    Ok(domains)
}

/// No imported domain is empty or starts with `#`.
pub proof fn imported_domains_are_clean(s: Seq<char>, from: int, ascii: bool)
    requires
        0 <= from <= s.len(),
    ensures
        forall|i: int|
            0 <= i < domains_from(s, from, ascii).len() ==> is_domain(
                #[trigger] domains_from(s, from, ascii)[i],
            ),
    decreases s.len() + 1 - from,
{
    line_end_is_ahead(s, from);
    let end = line_end(s, from);
    let head = domain_on(s.subrange(from, end), ascii);
    let all = domains_from(s, from, ascii);
    if end < s.len() {
        imported_domains_are_clean(s, end + 1, ascii);
        let rest = domains_from(s, end + 1, ascii);
        assert(all == head + rest);
        assert forall|i: int| 0 <= i < all.len() implies is_domain(#[trigger] all[i]) by {
            if i >= head.len() {
                assert(all[i] == rest[i - head.len()]);
            }
        }
    } else {
        assert(all == head);
    }
}

/// Every line is imported for itself: the domains of a text are those of its
/// first line, followed by those of the lines behind it.
pub proof fn lines_are_imported_in_order(line: Seq<char>, rest: Seq<char>, ascii: bool)
    requires
        !line.contains('\n'),
    ensures
        domains_in(line.push('\n') + rest, ascii) == domain_on(line, ascii) + domains_in(rest, ascii),
        domains_in(line, ascii) == domain_on(line, ascii),
{
    let first = line.push('\n');
    let s = first + rest;
    assert(s.take(line.len() as int) =~= line);
    line_ends_at_break(line, s, 0);
    assert(s.subrange(0, line.len() as int) =~= line);
    shifted_domains(first, rest, 0, ascii);
    assert(line.take(line.len() as int) =~= line);
    line_ends_at_break(line, line, 0);
    assert(line.subrange(0, line.len() as int) =~= line);
}

proof fn line_ends_at_break(line: Seq<char>, s: Seq<char>, from: int)
    requires
        !line.contains('\n'),
        line.len() <= s.len(),
        s.take(line.len() as int) == line,
        line.len() < s.len() ==> s[line.len() as int] == '\n',
        0 <= from <= line.len(),
    ensures
        line_end(s, from) == line.len(),
    decreases line.len() - from,
{
    if from < line.len() {
        assert(s[from] == s.take(line.len() as int)[from]);
        assert(line.contains(line[from]));
        line_ends_at_break(line, s, from + 1);
    }
}

proof fn shifted_line_end(front: Seq<char>, rest: Seq<char>, from: int)
    requires
        0 <= from <= rest.len(),
    ensures
        line_end(front + rest, front.len() + from) == front.len() + line_end(rest, from),
    decreases rest.len() - from,
{
    if from < rest.len() {
        assert((front + rest)[front.len() + from] == rest[from]);
        if rest[from] != '\n' {
            shifted_line_end(front, rest, from + 1);
        }
    }
}

proof fn shifted_domains(front: Seq<char>, rest: Seq<char>, from: int, ascii: bool)
    requires
        0 <= from <= rest.len(),
    ensures
        domains_from(front + rest, front.len() + from, ascii) == domains_from(rest, from, ascii),
    decreases rest.len() + 1 - from,
{
    shifted_line_end(front, rest, from);
    line_end_is_ahead(rest, from);
    let end = line_end(rest, from);
    assert((front + rest).subrange(front.len() + from, front.len() + end) =~= rest.subrange(
        from,
        end,
    ));
    if end < rest.len() {
        shifted_domains(front, rest, end + 1, ascii);
    }
}

/// In ASCII text, blank lines and lines that start with `#` hold no domain, and
/// any other line holds one.
pub proof fn comments_do_not_count(line: Seq<char>)
    ensures
        domain_on(line, true).len() == if is_domain(text::trimmed(line)) {
            1int
        } else {
            0
        },
{
    let plain = text::trimmed(line);
    if plain.len() > 0 {
        assert(in_lower_case(plain, true)[0] == text::lower_ascii(plain[0]));
        assert('A' <= plain[0] <= 'Z' ==> text::lower_ascii(plain[0]) != '#');
    }
}

/// Each request has a path of its own; the four that concern probes share its
/// beginning.
pub proof fn requests_have_their_own_path(a: Endpoint, b: Endpoint)
    ensures
        a.path() == b.path() <==> a == b,
        a == Endpoint::Status ==> a.path() == "status"@,
        a == Endpoint::Health ==> a.path() == "health"@,
        a == Endpoint::Conntrack ==> a.path() == "conntrack"@,
        a == Endpoint::Probe ==> a.path() == "probe"@,
        a == Endpoint::ProbePresets ==> a.path() == "probe/presets"@,
        a == Endpoint::ProbeHistory ==> a.path() == "probe/history"@,
        a == Endpoint::ProbeBatch ==> a.path() == "probe/batch"@,
        DEFAULT_PORT == 11337,
{
    reveal_strlit("status");
    reveal_strlit("health");
    reveal_strlit("conntrack");
    reveal_strlit("probe");
    reveal_strlit("probe/presets");
    reveal_strlit("probe/history");
    reveal_strlit("probe/batch");
    if a.path() == b.path() {
        assert(a.path().len() == b.path().len());
        assert(a.path()[0] == b.path()[0]);
        assert(a.path()[6] == b.path()[6]);
    }
}

/// Saving touches one place at most. Where no list has the identifier, the list
/// is added behind the others; otherwise it takes the place of the first that
/// has it. All other places keep what they hold.
pub proof fn saving_touches_one_place(
    before: Seq<CustomDomainList>,
    list: CustomDomainList,
    after: Seq<CustomDomainList>,
    i: int,
)
    requires
        saved(before, list, after),
        0 <= i < before.len(),
    ensures
        before[i].id@ != list.id@ ==> after[i] == before[i],
        before[i].id@ == list.id@ ==> after.len() == before.len(),
        before[i].id@ == list.id@ && (forall|j: int|
            0 <= j < i ==> (#[trigger] before[j]).id@ != list.id@) ==> after[i] == list,
        before[i].id@ == list.id@ && (exists|j: int|
            0 <= j < i && (#[trigger] before[j]).id@ == list.id@) ==> after[i] == before[i],
        after.len() == before.len() || after.len() == before.len() + 1,
        after.len() == before.len() + 1 ==> after.last() == list && forall|j: int|
            0 <= j < before.len() ==> (#[trigger] before[j]).id@ != list.id@,
{
    if exists|k: int| #[trigger]
        first_with(before, list.id@, k) && after == before.update(k, list) {
        let k = choose|k: int| #[trigger]
            first_with(before, list.id@, k) && after == before.update(k, list);
        assert(before[k].id@ == list.id@);
    }
}

/// Deleting goes list by list: what is deleted from two parts is deleted from
/// the whole, in the same order, and a single list goes if and only if it has
/// the identifier.
pub proof fn deleting_goes_list_by_list(
    front: Seq<CustomDomainList>,
    back: Seq<CustomDomainList>,
    list: CustomDomainList,
    id: Seq<char>,
)
    ensures
        without(front + back, id) == without(front, id) + without(back, id),
        list.id@ == id ==> without(seq![list], id).len() == 0,
        list.id@ != id ==> without(seq![list], id) == seq![list],
    decreases back.len(),
{
    reveal(Seq::filter);
    let one = seq![list];
    assert(one.drop_last() =~= Seq::empty());
    assert(one.last() == list);
    assert(without(one.drop_last(), id) =~= Seq::empty());
    if back.len() == 0 {
        assert(front + back =~= front);
        assert(without(back, id) =~= Seq::empty());
        assert(without(front, id) + without(back, id) =~= without(front, id));
    } else {
        assert((front + back).drop_last() =~= front + back.drop_last());
        assert((front + back).last() == back.last());
        deleting_goes_list_by_list(front, back.drop_last(), list, id);
        assert(without(front + back, id) =~= without(front, id) + without(back, id));
    }
}

/// A line with a word on it, and white space around the word, lists that word in
/// lower case, unless it starts with `#`. In ASCII text, lower case is that of
/// each character.
pub proof fn lines_list_their_word(front: Seq<char>, word: Seq<char>, back: Seq<char>)
    requires
        forall|i: int| 0 <= i < front.len() ==> text::is_white(#[trigger] front[i]),
        forall|i: int| 0 <= i < back.len() ==> text::is_white(#[trigger] back[i]),
        word.len() > 0,
        !text::is_white(word[0]),
        !text::is_white(word.last()),
    ensures
        word[0] != '#' ==> domain_on(front + word + back, true) == seq![text::folded(word)],
        word[0] == '#' ==> domain_on(front + word + back, true).len() == 0,
        text::lowercased(word).len() > 0 && text::lowercased(word)[0] != '#' ==> domain_on(
            front + word + back,
            false,
        ) == seq![text::lowercased(word)],
        text::lowercased(word).len() == 0 || text::lowercased(word)[0] == '#' ==> domain_on(
            front + word + back,
            false,
        ).len() == 0,
{
    text::trimming_leaves_the_core(front, word, back);
    assert(text::folded(word)[0] == text::lower_ascii(word[0]));
}

/// A blank line of ASCII text lists nothing.
pub proof fn blank_lines_list_nothing(line: Seq<char>)
    requires
        forall|i: int| 0 <= i < line.len() ==> text::is_white(#[trigger] line[i]),
    ensures
        domain_on(line, true).len() == 0,
{
    text::trimming_blanks_leaves_nothing(line);
}

/// A trimmed line holds a domain unless it is empty or starts with `#`.
pub proof fn lines_hold_domains_unless_marked(line: Seq<char>, c: char)
    ensures
        !is_domain(Seq::empty()),
        !is_domain(seq!['#'] + line),
        c != '#' ==> is_domain(seq![c] + line),
{
}

} // verus!
