//! The HTTP phase: what the answer to a plain request says.
//!
//! The request itself is made elsewhere. The rules here are told how it went,
//! step by step, and come to a finding.

use super::classifier::HttpFailureCode;
use super::config::ProbeConfig;
use super::rkn_stub::is_rkn_stub;
use crate::domain::{drop_root, family_start};
use crate::probe::rkn_stub;
use crate::text::{chars_of, ends_with_text, find_from, fold, matches_at, slice_of};
use crate::{clock, domain, text};
use std::time::Duration;
use vstd::prelude::*;
use vstd::string::*;

verus! {

/// What the HTTP phase found.
pub struct HttpProbeResult {
    pub verdict: HttpFailureCode,
    pub bytes_read: u64,
    pub redirect_url: Option<String>,
    pub latency_us: u64,
}

/// What to do once the head of a response is there.
pub enum HttpStep {
    /// The head settles it.
    Done(HttpProbeResult),
    /// The body has to be read, up to `limit` bytes of it.
    ReadBody { limit: usize },
}

impl HttpProbeResult {
    /// The finding is `verdict`, with no redirect to report.
    pub open spec fn is(self, verdict: HttpFailureCode, bytes_read: int, latency_us: int) -> bool {
        &&& self.verdict == verdict
        &&& self.bytes_read == bytes_read
        &&& self.redirect_url is None
        &&& self.latency_us == latency_us
    }

    fn plain(verdict: HttpFailureCode, bytes_read: u64, latency_us: u64) -> (r: HttpProbeResult)
        ensures
            r.is(verdict, bytes_read as int, latency_us as int),
    {
        HttpProbeResult { verdict, bytes_read, redirect_url: None, latency_us }
    }
}

// ---------------------------------------------------------------------------
// Redirects
// ---------------------------------------------------------------------------

/// The first place from `from` on where one of `stops` stands in `s`, or its
/// end.
pub open spec fn stop_at(s: Seq<char>, stops: Seq<char>, from: int) -> int
    decreases s.len() - from,
{
    if from >= s.len() || stops.contains(s[from]) {
        from
    } else {
        stop_at(s, stops, from + 1)
    }
}

/// Behind the last `@` that stands in `s` between `from` and `to`, or `from`.
pub open spec fn after_user(s: Seq<char>, from: int, to: int) -> int
    decreases to - from,
{
    if to <= from {
        from
    } else if s[to - 1] == '@' {
        to
    } else {
        after_user(s, from, to - 1)
    }
}

/// The host that a URL names, in lower case: what stands behind the first
/// `://`, without a user in front of it, and without a port, a path, a query or
/// a fragment behind it. Nothing where there is no `://`, where it stands in a
/// path, a query or a fragment, or where nothing stands between it and one.
pub open spec fn host_of(url: Seq<char>) -> Option<Seq<char>> {
    match text::first_from(url, "://"@, 0) {
        Some(i) => if stop_at(url, "/?#"@, 0) < i {
            None
        } else {
            let end = stop_at(url, "/?#"@, i + 3);
            let start = after_user(url, i + 3, end);
            if end == i + 3 {
                None
            } else {
                Some(text::folded(url.subrange(start, stop_at(url.take(end), ":"@, start))))
            }
        },
        None => None,
    }
}

/// `name` stands below `parent` in the tree of domain names.
pub open spec fn is_under(name: Seq<char>, parent: Seq<char>) -> bool {
    let at = name.len() - parent.len();
    at > 0 && name[at - 1] == '.' && text::occurs_at(name, parent, at)
}

/// A host belongs to the site of `name`: it is that name, or stands below it,
/// or above it and yet in a family, that is below a public suffix.
pub open spec fn same_host(host: Seq<char>, name: Seq<char>) -> bool {
    host == name || is_under(host, name) || (is_under(name, host) && domain::family_of_name(
        host,
    ) is Some)
}

/// A redirect to `url` stays with `name`: it names no host, or one that belongs
/// to the site. A dot of the root behind either does not count.
pub open spec fn same_site(url: Seq<char>, name: Seq<char>) -> bool {
    match host_of(url) {
        Some(host) => same_host(
            domain::without_root(host),
            domain::without_root(text::folded(name)),
        ),
        None => true,
    }
}

proof fn found_is_inside(s: Seq<char>, pat: Seq<char>, from: int)
    ensures
        match text::first_from(s, pat, from) {
            Some(i) => from <= i && 0 <= i && i + pat.len() <= s.len(),
            None => true,
        },
    decreases s.len() + 1 - from,
{
    if 0 <= from && from + pat.len() <= s.len() && !text::occurs_at(s, pat, from) {
        found_is_inside(s, pat, from + 1);
    }
}

fn find_stop(s: &Vec<char>, stops: &Vec<char>, from: usize, to: usize) -> (place: usize)
    requires
        from <= to <= s@.len(),
    ensures
        place == stop_at(s@.take(to as int), stops@, from as int),
        from <= place <= to,
{
    let ghost part = s@.take(to as int);
    let mut i: usize = from;
    while i < to
        invariant
            from <= i <= to <= s@.len(),
            part == s@.take(to as int),
            stop_at(part, stops@, from as int) == stop_at(part, stops@, i as int),
        decreases to - i,
    {
        if contains_char(stops, s[i]) {
            return i;
        }
        i += 1;
    }
    i
}

fn contains_char(s: &Vec<char>, c: char) -> (yes: bool)
    ensures
        yes == s@.contains(c),
{
    let mut i: usize = 0;
    while i < s.len()
        invariant
            i <= s@.len(),
            forall|j: int| 0 <= j < i ==> s@[j] != c,
        decreases s@.len() - i,
    {
        if s[i] == c {
            return true;
        }
        i += 1;
    }
    false
}

fn skip_user(s: &Vec<char>, from: usize, to: usize) -> (start: usize)
    requires
        from <= to <= s@.len(),
    ensures
        start == after_user(s@, from as int, to as int),
        from <= start <= to,
{
    let mut i: usize = to;
    while from < i
        invariant
            from <= i <= to <= s@.len(),
            after_user(s@, from as int, to as int) == after_user(s@, from as int, i as int),
        decreases i - from,
    {
        if s[i - 1] == '@' {
            return i;
        }
        i -= 1;
    }
    from
}

fn find_host(url: &Vec<char>) -> (host: Option<Vec<char>>)
    ensures
        match host_of(url@) {
            Some(name) => host is Some && host->0@ == name,
            None => host is None,
        },
{
    let mark = chars_of("://");
    let stops = chars_of("/?#");
    let colon = chars_of(":");
    let len: usize = url.len();
    proof {
        reveal_strlit("://");
        found_is_inside(url@, mark@, 0);
        assert(url@.take(len as int) =~= url@);
    }
    match find_from(url, &mark, 0) {
        Some(i) => {
            assert(i + 3 <= url.len());
            if find_stop(url, &stops, 0, len) < i {
                return None;
            }
            let end: usize = find_stop(url, &stops, i + 3, len);
            if end == i + 3 {
                return None;
            }
            let start: usize = skip_user(url, i + 3, end);
            let stop: usize = find_stop(url, &colon, start, end);
            Some(fold(&slice_of(url, start, stop)))
        },
        None => None,
    }
}

fn stands_under(name: &Vec<char>, parent: &Vec<char>) -> (yes: bool)
    ensures
        yes == is_under(name@, parent@),
{
    if name.len() <= parent.len() {
        return false;
    }
    name[name.len() - parent.len() - 1] == '.' && ends_with_text(name, parent)
}

fn same_chars(a: &Vec<char>, b: &Vec<char>) -> (yes: bool)
    ensures
        yes == (a@ == b@),
{
    if a.len() != b.len() {
        return false;
    }
    let yes = matches_at(a, b, 0);
    assert(a@.subrange(0, b@.len() as int) =~= a@);
    yes
}

/// Whether a redirect to `url` stays with `name`.
pub fn is_same_site(url: &str, name: &str) -> (same: bool)
    ensures
        same == same_site(url@, name@),
{
    match find_host(&chars_of(url)) {
        Some(mut host) => {
            let mut site = fold(&chars_of(name));
            drop_root(&mut host);
            drop_root(&mut site);
            same_chars(&host, &site) || stands_under(&host, &site) || (stands_under(&site, &host)
                && family_start(&host).is_some())
        },
        None => true,
    }
}

/// A redirect without a `://`, such as one to a path, stays with the domain.
pub proof fn relative_redirects_stay(url: Seq<char>, name: Seq<char>)
    requires
        text::first_from(url, "://"@, 0) is None,
    ensures
        same_site(url, name),
{
}

/// `s` holds none of the characters that end a part of a URL.
pub open spec fn is_plain(s: Seq<char>) -> bool {
    forall|i: int|
        0 <= i < s.len() ==> (#[trigger] s[i]) != ':' && s[i] != '@' && s[i] != '/' && s[i] != '?'
            && s[i] != '#'
}

/// Only the host of a URL counts: whatever a path, a query or a fragment
/// behind it names, the redirect stays with a domain exactly if the host
/// belongs to its site.
pub proof fn only_the_host_counts(
    scheme: Seq<char>,
    host: Seq<char>,
    tail: Seq<char>,
    name: Seq<char>,
)
    requires
        is_plain(scheme),
        is_plain(host),
        host.len() > 0,
        tail.len() > 0 ==> tail[0] == '/' || tail[0] == '?' || tail[0] == '#',
    ensures
        host_of(scheme + "://"@ + host + tail) == Some(text::folded(host)),
        same_site(scheme + "://"@ + host + tail, name) == same_host(
            domain::without_root(text::folded(host)),
            domain::without_root(text::folded(name)),
        ),
{
    reveal_strlit("://");
    reveal_strlit("/?#");
    reveal_strlit(":");
    let url = scheme + "://"@ + host + tail;
    let i = scheme.len() as int;
    let end = i + 3 + host.len();
    let stops = "/?#"@;
    assert(stops[0] == '/' && stops[1] == '?' && stops[2] == '#');
    assert forall|j: int| 0 <= j < i implies #[trigger] url[j] == scheme[j] by {}
    assert(url[i] == ':' && url[i + 1] == '/' && url[i + 2] == '/');
    assert forall|j: int| i + 3 <= j < end implies #[trigger] url[j] == host[j - i - 3] by {}
    assert(url.subrange(i, i + 3) =~= "://"@);
    first_mark(url, i, 0);
    assert forall|j: int| 0 <= j < i + 1 implies !stops.contains(#[trigger] url[j]) by {
        if j < i {
            assert(url[j] == scheme[j]);
        }
    }
    assert(stops.contains(url[i + 1]));
    stop_is(url, stops, 0, i + 1);
    assert forall|j: int| i + 3 <= j < end implies !stops.contains(#[trigger] url[j]) by {
        assert(url[j] == host[j - i - 3]);
    }
    if tail.len() > 0 {
        assert(url[end] == tail[0]);
        assert(stops.contains(url[end]));
    }
    stop_is(url, stops, i + 3, end);
    no_user(url, i + 3, end);
    let front = url.take(end);
    assert forall|j: int| i + 3 <= j < end implies !":"@.contains(#[trigger] front[j]) by {
        assert(front[j] == url[j] && url[j] == host[j - i - 3]);
    }
    stop_is(front, ":"@, i + 3, end);
    assert(url.subrange(i + 3, end) =~= host);
}

proof fn first_mark(url: Seq<char>, i: int, from: int)
    requires
        0 <= from <= i,
        text::occurs_at(url, "://"@, i),
        forall|j: int| 0 <= j < i ==> #[trigger] url[j] != ':',
    ensures
        text::first_from(url, "://"@, from) == Some(i),
    decreases i - from,
{
    reveal_strlit("://");
    if from < i {
        assert(url.subrange(from, from + 3)[0] == url[from]);
        first_mark(url, i, from + 1);
    }
}

proof fn stop_is(s: Seq<char>, stops: Seq<char>, from: int, to: int)
    requires
        0 <= from <= to <= s.len(),
        forall|j: int| from <= j < to ==> !stops.contains(#[trigger] s[j]),
        to < s.len() ==> stops.contains(s[to]),
    ensures
        stop_at(s, stops, from) == to,
    decreases to - from,
{
    if from < to {
        stop_is(s, stops, from + 1, to);
    }
}

proof fn no_user(s: Seq<char>, from: int, to: int)
    requires
        0 <= from <= to <= s.len(),
        forall|j: int| from <= j < to ==> #[trigger] s[j] != '@',
    ensures
        after_user(s, from, to) == from,
    decreases to - from,
{
    if from < to {
        no_user(s, from, to - 1);
    }
}

/// A user in front of the host and a port behind it do not belong to the host.
proof fn host_is(
    scheme: Seq<char>,
    user: Seq<char>,
    host: Seq<char>,
    port: Seq<char>,
    tail: Seq<char>,
)
    requires
        is_plain(scheme),
        is_plain(host),
        host.len() > 0,
        user.len() > 0 ==> user.last() == '@',
        forall|i: int|
            0 <= i < user.len() ==> (#[trigger] user[i]) != '/' && user[i] != '?' && user[i] != '#',
        port.len() > 0 ==> port[0] == ':',
        forall|i: int|
            0 <= i < port.len() ==> (#[trigger] port[i]) != '/' && port[i] != '?' && port[i] != '#'
                && port[i] != '@',
        tail.len() > 0 ==> tail[0] == '/' || tail[0] == '?' || tail[0] == '#',
    ensures
        host_of(scheme + "://"@ + (user + host + port) + tail) == Some(text::folded(host)),
{
    reveal_strlit("://");
    reveal_strlit("/?#");
    reveal_strlit(":");
    let place = user + host + port;
    let url = scheme + "://"@ + place + tail;
    let i: int = scheme.len() as int;
    let start: int = i + 3 + user.len();
    let stop: int = start + host.len();
    let end: int = i + 3 + place.len();
    let stops = "/?#"@;
    assert(stops[0] == '/' && stops[1] == '?' && stops[2] == '#');
    assert forall|j: int| 0 <= j < i implies #[trigger] url[j] == scheme[j] by {}
    assert(url[i] == ':' && url[i + 1] == '/' && url[i + 2] == '/');
    assert forall|j: int| i + 3 <= j < end implies #[trigger] url[j] == place[j - i - 3] by {}
    assert(url.subrange(i, i + 3) =~= "://"@);
    first_mark(url, i, 0);
    assert forall|j: int| 0 <= j < i + 1 implies !stops.contains(#[trigger] url[j]) by {
        if j < i {
            assert(url[j] == scheme[j]);
        }
    }
    assert(stops.contains(url[i + 1]));
    stop_is(url, stops, 0, i + 1);
    assert forall|j: int| i + 3 <= j < end implies !stops.contains(#[trigger] url[j]) by {
        if j < start {
            assert(url[j] == user[j - i - 3]);
        } else if j < stop {
            assert(url[j] == host[j - start]);
        } else {
            assert(url[j] == port[j - stop]);
        }
    }
    if tail.len() > 0 {
        assert(url[end] == tail[0]);
        assert(stops.contains(url[end]));
    }
    stop_is(url, stops, i + 3, end);
    assert forall|j: int| start <= j < end implies #[trigger] url[j] != '@' by {
        if j < stop {
            assert(url[j] == host[j - start]);
        } else {
            assert(url[j] == port[j - stop]);
        }
    }
    if user.len() > 0 {
        assert(url[start - 1] == user.last());
    }
    last_user(url, i + 3, start, end);
    let front = url.take(end);
    assert forall|j: int| start <= j < stop implies !":"@.contains(#[trigger] front[j]) by {
        assert(front[j] == url[j] && url[j] == host[j - start]);
    }
    if port.len() > 0 {
        assert(front[stop] == url[stop] && url[stop] == port[0]);
        assert(":"@[0] == ':');
        assert(":"@.contains(front[stop]));
    }
    stop_is(front, ":"@, start, stop);
    assert(url.subrange(start, stop) =~= host);
}

proof fn last_user(s: Seq<char>, from: int, at: int, to: int)
    requires
        0 <= from <= at <= to <= s.len(),
        from < at ==> s[at - 1] == '@',
        forall|j: int| at <= j < to ==> #[trigger] s[j] != '@',
    ensures
        after_user(s, from, to) == at,
    decreases to - from,
{
    if at < to {
        last_user(s, from, at, to - 1);
    }
}

/// A user in front of the host and a port behind it do not count: the redirect
/// stays with a domain exactly if it would without them.
pub proof fn users_and_ports_do_not_count(
    scheme: Seq<char>,
    user: Seq<char>,
    host: Seq<char>,
    port: Seq<char>,
    tail: Seq<char>,
    name: Seq<char>,
)
    requires
        is_plain(scheme),
        is_plain(host),
        host.len() > 0,
        user.len() > 0 ==> user.last() == '@',
        forall|i: int|
            0 <= i < user.len() ==> (#[trigger] user[i]) != '/' && user[i] != '?' && user[i] != '#',
        port.len() > 0 ==> port[0] == ':',
        forall|i: int|
            0 <= i < port.len() ==> (#[trigger] port[i]) != '/' && port[i] != '?' && port[i] != '#'
                && port[i] != '@',
        tail.len() > 0 ==> tail[0] == '/' || tail[0] == '?' || tail[0] == '#',
    ensures
        same_site(scheme + "://"@ + (user + host + port) + tail, name) == same_site(
            scheme + "://"@ + host + tail,
            name,
        ),
{
    host_is(scheme, user, host, port, tail);
    only_the_host_counts(scheme, host, tail, name);
}

/// A redirect to a path, a query or a fragment stays, whatever else it names
/// behind it.
pub proof fn urls_inside_a_path_do_not_count(
    front: Seq<char>,
    mark: char,
    rest: Seq<char>,
    name: Seq<char>,
)
    requires
        is_plain(front),
        mark == '/' || mark == '?' || mark == '#',
    ensures
        same_site(front + seq![mark] + rest, name),
{
    reveal_strlit("://");
    reveal_strlit("/?#");
    let url = front + seq![mark] + rest;
    let k: int = front.len() as int;
    let stops = "/?#"@;
    assert(stops[0] == '/' && stops[1] == '?' && stops[2] == '#');
    assert(url[k] == mark);
    assert forall|j: int| 0 <= j < k implies !stops.contains(#[trigger] url[j]) by {
        assert(url[j] == front[j]);
    }
    assert(stops.contains(url[k]));
    stop_is(url, stops, 0, k);
    match text::first_from(url, "://"@, 0) {
        Some(i) => {
            found_stands(url, "://"@, 0);
            assert(url.subrange(i, i + 3)[0] == ':');
            assert(url[i] == ':');
            if i < k {
                assert(url[i] == front[i]);
            }
        },
        None => {},
    }
}

/// A redirect that names no host behind its scheme stays.
pub proof fn urls_without_a_host_stay(scheme: Seq<char>, tail: Seq<char>, name: Seq<char>)
    requires
        is_plain(scheme),
        tail.len() > 0 ==> tail[0] == '/' || tail[0] == '?' || tail[0] == '#',
    ensures
        same_site(scheme + "://"@ + tail, name),
{
    reveal_strlit("://");
    reveal_strlit("/?#");
    let url = scheme + "://"@ + tail;
    let i: int = scheme.len() as int;
    let stops = "/?#"@;
    assert(stops[0] == '/' && stops[1] == '?' && stops[2] == '#');
    assert forall|j: int| 0 <= j < i implies #[trigger] url[j] == scheme[j] by {}
    assert(url[i] == ':');
    assert(url.subrange(i, i + 3) =~= "://"@);
    first_mark(url, i, 0);
    if tail.len() > 0 {
        assert(url[i + 3] == tail[0]);
        assert(stops.contains(url[i + 3]));
    }
    stop_is(url, stops, i + 3, i + 3);
}

proof fn found_stands(s: Seq<char>, pat: Seq<char>, from: int)
    requires
        0 <= from,
    ensures
        match text::first_from(s, pat, from) {
            Some(i) => from <= i && text::occurs_at(s, pat, i),
            None => true,
        },
    decreases s.len() + 1 - from,
{
    if from + pat.len() <= s.len() && !text::occurs_at(s, pat, from) {
        found_stands(s, pat, from + 1);
    }
}

proof fn folding_keeps_the_root(s: Seq<char>)
    ensures
        domain::without_root(text::folded(s)) == text::folded(domain::without_root(s)),
        text::folded(text::folded(s)) == text::folded(s),
{
    if s.len() > 0 {
        assert(text::folded(s).last() == text::lower_ascii(s.last()));
    }
    assert(domain::without_root(text::folded(s)) =~= text::folded(domain::without_root(s)));
    assert(text::folded(text::folded(s)) =~= text::folded(s));
}

/// A redirect to a subdomain stays: to any label, a dot and the name itself,
/// under any scheme and with anything behind it.
pub proof fn subdomains_stay(
    scheme: Seq<char>,
    label: Seq<char>,
    name: Seq<char>,
    tail: Seq<char>,
)
    requires
        is_plain(scheme),
        is_plain(label),
        is_plain(name),
        label.len() > 0,
        name.len() > 0,
        tail.len() > 0 ==> tail[0] == '/' || tail[0] == '?' || tail[0] == '#',
    ensures
        same_site(scheme + "://"@ + (label + seq!['.'] + name) + tail, name),
{
    let host = label + seq!['.'] + name;
    assert(is_plain(host)) by {
        assert forall|i: int| 0 <= i < host.len() implies (#[trigger] host[i]) != ':' && host[i]
            != '@' && host[i] != '/' && host[i] != '?' && host[i] != '#' by {
            if i < label.len() {
                assert(host[i] == label[i]);
            } else if i > label.len() {
                assert(host[i] == name[i - label.len() - 1]);
            }
        }
    }
    only_the_host_counts(scheme, host, tail, name);
    let low = domain::without_root(text::folded(host));
    let site = domain::without_root(text::folded(name));
    let at: int = label.len() as int + 1;
    assert(host.last() == name.last());
    assert(text::folded(host).last() == text::folded(name).last());
    assert(low.len() == at + site.len());
    assert(low[at - 1] == text::lower_ascii(host[at - 1]));
    assert(low.subrange(at, at + site.len()) =~= site);
    assert(is_under(low, site));
}

/// A redirect to the name itself stays, in whatever letters it is written.
pub proof fn own_name_stays(
    scheme: Seq<char>,
    host: Seq<char>,
    name: Seq<char>,
    tail: Seq<char>,
)
    requires
        is_plain(scheme),
        is_plain(host),
        host.len() > 0,
        text::folded(host) == text::folded(name),
        tail.len() > 0 ==> tail[0] == '/' || tail[0] == '?' || tail[0] == '#',
    ensures
        same_site(scheme + "://"@ + host + tail, name),
{
    only_the_host_counts(scheme, host, tail, name);
}

/// A redirect from a subdomain up to a domain that has a family stays.
pub proof fn parents_stay(
    scheme: Seq<char>,
    label: Seq<char>,
    name: Seq<char>,
    tail: Seq<char>,
)
    requires
        is_plain(scheme),
        is_plain(name),
        name.len() > 0,
        domain::family_of(name) is Some,
        tail.len() > 0 ==> tail[0] == '/' || tail[0] == '?' || tail[0] == '#',
    ensures
        same_site(scheme + "://"@ + name + tail, label + seq!['.'] + name),
{
    let below = label + seq!['.'] + name;
    only_the_host_counts(scheme, name, tail, below);
    let host = domain::without_root(text::folded(name));
    let site = domain::without_root(text::folded(below));
    let at: int = label.len() as int + 1;
    assert(below.last() == name.last());
    assert(text::folded(below).last() == text::folded(name).last());
    assert(site.len() == at + host.len());
    if label.len() == 0 {
        assert(at == 1);
    }
    assert(site[at - 1] == text::lower_ascii(below[at - 1]));
    assert(site.subrange(at, at + host.len()) =~= host);
    assert(is_under(site, host));
    domain::letter_case_keeps_the_family(name);
}

/// Of absolute redirects, no others stay: the host is the name, or ends with a
/// dot and the name, or has a family and is what the name ends with behind a
/// dot. Both are taken in lower case here, without a dot of the root.
pub proof fn other_hosts_are_foreign(
    scheme: Seq<char>,
    host: Seq<char>,
    tail: Seq<char>,
    name: Seq<char>,
)
    requires
        is_plain(scheme),
        is_plain(host),
        host.len() > 0,
        tail.len() > 0 ==> tail[0] == '/' || tail[0] == '?' || tail[0] == '#',
        text::folded(host) == host,
        text::folded(name) == name,
        host.last() != '.',
        name.len() > 0 ==> name.last() != '.',
        same_site(scheme + "://"@ + host + tail, name),
    ensures
        host == name || (exists|front: Seq<char>| host == #[trigger] (front + seq!['.'] + name)) || (
        domain::family_of(host) is Some && exists|front: Seq<char>|
            name == #[trigger] (front + seq!['.'] + host)),
{
    only_the_host_counts(scheme, host, tail, name);
    if is_under(host, name) {
        let at: int = host.len() - name.len();
        let front = host.take(at - 1);
        assert(host.subrange(at, at + name.len()) == name);
        assert(host =~= front + seq!['.'] + name);
    } else if host != name {
        let at: int = name.len() - host.len();
        let front = name.take(at - 1);
        assert(name.subrange(at, at + host.len()) == host);
        assert(name =~= front + seq!['.'] + host);
        assert(domain::without_root(host) == host);
    }
}

/// Neither the case of letters nor a dot of the root counts, in the host or in
/// the name.
pub proof fn letter_case_and_root_do_not_count(
    scheme: Seq<char>,
    host: Seq<char>,
    tail: Seq<char>,
    name: Seq<char>,
)
    requires
        is_plain(scheme),
        is_plain(host),
        host.len() > 0,
        host.last() != '.',
        name.len() > 0,
        name.last() != '.',
        tail.len() > 0 ==> tail[0] == '/' || tail[0] == '?' || tail[0] == '#',
    ensures
        same_site(scheme + "://"@ + text::folded(host) + tail, text::folded(name)) == same_site(
            scheme + "://"@ + host + tail,
            name,
        ),
        same_site(scheme + "://"@ + host.push('.') + tail, name) == same_site(
            scheme + "://"@ + host + tail,
            name,
        ),
        same_site(scheme + "://"@ + host + tail, name.push('.')) == same_site(
            scheme + "://"@ + host + tail,
            name,
        ),
{
    let low = text::folded(host);
    assert(is_plain(low)) by {
        assert forall|i: int| 0 <= i < low.len() implies (#[trigger] low[i]) != ':' && low[i] != '@'
            && low[i] != '/' && low[i] != '?' && low[i] != '#' by {
            assert(host[i] != ':');
        }
    }
    assert(is_plain(host.push('.')));
    only_the_host_counts(scheme, host, tail, name);
    only_the_host_counts(scheme, low, tail, text::folded(name));
    only_the_host_counts(scheme, host.push('.'), tail, name);
    only_the_host_counts(scheme, host, tail, name.push('.'));
    folding_keeps_the_root(host);
    folding_keeps_the_root(name);
    assert(host.push('.').drop_last() =~= host);
    assert(name.push('.').drop_last() =~= name);
    folding_keeps_the_root(host.push('.'));
    folding_keeps_the_root(name.push('.'));
}

// ---------------------------------------------------------------------------
// The phase
// ---------------------------------------------------------------------------

/// How much of a body is read: 32 KB.
pub const BODY_LIMIT: usize = 32768;

/// The part of a body that is read.
pub open spec fn read_part(body: Seq<u8>) -> Seq<u8> {
    if body.len() <= BODY_LIMIT {
        body
    } else {
        body.take(BODY_LIMIT as int)
    }
}

/// Reading less of a body finds no block page that is not in the whole of it.
pub proof fn reading_less_finds_no_more(body: Seq<u8>, stubs: Seq<Seq<char>>)
    ensures
        rkn_stub::holds_stub(read_part(body), stubs) ==> rkn_stub::holds_stub(body, stubs),
        read_part(body).len() <= BODY_LIMIT,
{
    if rkn_stub::holds_stub(read_part(body), stubs) && body.len() > BODY_LIMIT {
        let part = read_part(body);
        let rest = body.skip(BODY_LIMIT as int);
        rkn_stub::wrapping_does_not_hide(Seq::empty(), part, rest, stubs);
        assert(Seq::<u8>::empty() + part + rest =~= body);
    }
}

/// As much of a body is read as there is, up to 32768 bytes, from its start.
pub proof fn bodies_are_read_up_to_the_limit(body: Seq<u8>)
    ensures
        BODY_LIMIT == 32768,
        body.len() <= 32768 ==> read_part(body) == body,
        body.len() > 32768 ==> read_part(body).len() == 32768,
        forall|i: int| 0 <= i < read_part(body).len() ==> #[trigger] read_part(body)[i] == body[i],
{
}

/// A plain finding holds what it was made of, and names no redirect.
pub proof fn plain_findings_name_no_redirect(
    r: HttpProbeResult,
    verdict: HttpFailureCode,
    bytes_read: u64,
    latency_us: u64,
)
    ensures
        r.is(verdict, bytes_read as int, latency_us as int) <==> r.verdict == verdict
            && r.bytes_read == bytes_read && r.latency_us == latency_us && r.redirect_url is None,
{
}

fn first_bytes(body: &[u8]) -> (part: &[u8])
    ensures
        part@ == read_part(body@),
{
    if body.len() <= BODY_LIMIT {
        return body;
    }
    let (part, _) = body.split_at(BODY_LIMIT);
    assert(part@ =~= body@.take(BODY_LIMIT as int));
    part
}

/// The HTTP phase under given settings.
pub struct HttpProbe {
    config: ProbeConfig,
}

impl HttpProbe {
    /// The texts that give a block page away.
    pub closed spec fn stubs(&self) -> Seq<Seq<char>> {
        text::texts(self.config.rkn_stub_substrings@)
    }

    /// How long a response may take.
    pub closed spec fn limit(&self) -> Duration {
        self.config.http_read_timeout
    }

    /// The phase under the settings of `config`.
    pub fn new(config: &ProbeConfig) -> (probe: HttpProbe)
        ensures
            probe.stubs() == text::texts(config.rkn_stub_substrings@),
            probe.limit() == config.http_read_timeout,
    {
        HttpProbe { config: config.clone() }
    }

    /// How long a response may take.
    pub fn read_timeout(&self) -> (limit: Duration)
        ensures
            limit == self.limit(),
    {
        self.config.http_read_timeout
    }

    /// The page to ask for.
    pub fn url(&self, domain: &str) -> (url: String)
        ensures
            url@ == "https://"@ + domain@ + "/"@,
    {
        let mut url = "https://".to_string();
        url.append(domain);
        url.append("/");
        url
    }

    /// The head of a response: its status, and the redirect that it names.
    pub fn on_head(
        &self,
        domain: &str,
        status: u16,
        location: Option<String>,
        latency_us: u64,
    ) -> (step: HttpStep)
        ensures
            match step {
                HttpStep::Done(r) => if status == 451 {
                    r.is(HttpFailureCode::Http451, 0, latency_us as int)
                } else {
                    &&& 300 <= status < 400
                    &&& location is Some
                    &&& r.verdict == if same_site(location->0@, domain@) {
                        HttpFailureCode::RedirectSame
                    } else {
                        HttpFailureCode::RedirectForeign
                    }
                    &&& r.redirect_url == location
                    &&& r.bytes_read == 0
                    &&& r.latency_us == latency_us
                },
                HttpStep::ReadBody { limit } => limit == BODY_LIMIT && status != 451 && !(300 <= status
                    < 400 && location is Some),
            },
    {
        if status == 451 {
            return HttpStep::Done(HttpProbeResult::plain(HttpFailureCode::Http451, 0, latency_us));
        }
        if 300 <= status && status < 400 {
            if let Some(url) = location {
                let verdict = if is_same_site(url.as_str(), domain) {
                    HttpFailureCode::RedirectSame
                } else {
                    HttpFailureCode::RedirectForeign
                };
                return HttpStep::Done(
                    HttpProbeResult { verdict, bytes_read: 0, redirect_url: Some(url), latency_us },
                );
            }
        }
        HttpStep::ReadBody { limit: BODY_LIMIT }
    }

    /// The body of a response: a block page, a page that is too short, or a
    /// page. Only the part that is read counts, also where `body` holds more.
    pub fn on_body(&self, status: u16, body: &[u8], latency_us: u64) -> (r: HttpProbeResult)
        ensures
            r.is(
                if rkn_stub::holds_stub(read_part(body@), self.stubs()) {
                    HttpFailureCode::StubPage
                } else if read_part(body@).len() < 1000 && status == 200 {
                    HttpFailureCode::Cutoff
                } else {
                    HttpFailureCode::HttpOk
                },
                read_part(body@).len() as int,
                latency_us as int,
            ),
    {
        let part = first_bytes(body);
        let bytes_read: u64 = part.len() as u64;
        if is_rkn_stub(part, &self.config) {
            return HttpProbeResult::plain(HttpFailureCode::StubPage, bytes_read, latency_us);
        }
        if bytes_read < 1000 && status == 200 {
            return HttpProbeResult::plain(HttpFailureCode::Cutoff, bytes_read, latency_us);
        }
        HttpProbeResult::plain(HttpFailureCode::HttpOk, bytes_read, latency_us)
    }

    /// The body broke off.
    pub fn on_read_error(&self, latency_us: u64) -> (r: HttpProbeResult)
        ensures
            r.is(HttpFailureCode::Cutoff, 0, latency_us as int),
    {
        HttpProbeResult::plain(HttpFailureCode::Cutoff, 0, latency_us)
    }

    /// The request failed.
    pub fn on_request_error(&self, latency_us: u64) -> (r: HttpProbeResult)
        ensures
            r.is(HttpFailureCode::Timeout, 0, latency_us as int),
    {
        HttpProbeResult::plain(HttpFailureCode::Timeout, 0, latency_us)
    }

    /// No response came in time. The time that it took is the time limit, in
    /// microseconds, of which the lower 64 bits are kept.
    pub fn on_timeout(&self) -> (r: HttpProbeResult)
        ensures
            r.is(
                HttpFailureCode::Timeout,
                0,
                clock::nanos_of(self.limit()) as int / 1_000 % 0x1_0000_0000_0000_0000,
            ),
    {
        let micros: u128 = self.config.http_read_timeout.as_micros();
        HttpProbeResult::plain(
            HttpFailureCode::Timeout,
            0,
            (micros % 0x1_0000_0000_0000_0000) as u64,
        )
    }
}

} // verus!
